[package]
name = "sync_meta"
version = "0.1.0"
edition = "2021"
publish = false

[dependencies]
parity-scale-codec = "*"
starknet-ff = "*"
