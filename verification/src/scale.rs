//! Trusted boundary to the general-purpose binary codec that the store uses
//! for the tips sequence and the latest hash-and-height pair. Each wrapper's
//! contract states, over the spec encodings of `codec`, what the outside
//! call returns; nothing else in the crate is taken on trust.

use vstd::prelude::*;

use crate::codec::{
    spec_latest_decoded, spec_latest_encoding, spec_tip_bytes, spec_tips_decode,
    spec_tips_encoding, Felt, TipHash,
};
use parity_scale_codec::{Decode, Encode};

verus! {

/// The codec's error for bytes that do not match the expected encoding.
#[verifier::external_type_specification]
#[verifier::external_body]
pub struct ExCodecError(parity_scale_codec::Error);

/// Relies on parity_scale_codec's `Encode` for `Vec<[u8; 32]>`: a sequence is
/// encoded as its compact-encoded count followed by the items' bytes, back to
/// back. Encoding panics when the count overflows the 32-bit length prefix,
/// which the `requires` rules out.
#[verifier::external_body]
pub(crate) fn scale_encode_tips(tips: &Vec<TipHash>) -> (r: Vec<u8>)
    requires
        tips@.len() <= u32::MAX,
    ensures
        r@ == spec_tips_encoding(spec_tip_bytes(tips@)),
{
    let arrays: Vec<[u8; 32]> = tips.iter().map(|h| h.bytes).collect();
    arrays.encode()
}

/// Relies on parity_scale_codec's `Decode` for `Vec<[u8; 32]>`: decoding
/// reads a canonical compact count, then that many 32-byte items, ignores
/// any bytes past them, and fails on anything else.
#[verifier::external_body]
pub(crate) fn scale_decode_tips(raw: &Vec<u8>) -> (r: Result<
    Vec<TipHash>,
    parity_scale_codec::Error,
>)
    ensures
        match spec_tips_decode(raw@) {
            Some(s) => r matches Ok(v) && spec_tip_bytes(v@) == s,
            None => r matches Err(_),
        },
{
    match Vec::<[u8; 32]>::decode(&mut &raw[..]) {
        Ok(arrays) => Ok(arrays.into_iter().map(|bytes| TipHash { bytes }).collect()),
        Err(e) => Err(e),
    }
}

/// Relies on parity_scale_codec's `Encode` for `([u64; 4], u64)`: the pair is
/// encoded as the four limbs then the number, each as 8 little-endian bytes.
#[verifier::external_body]
pub(crate) fn scale_encode_latest(hash: &Felt, number: u64) -> (r: Vec<u8>)
    ensures
        r@ == spec_latest_encoding(*hash, number),
{
    (hash.mont, number).encode()
}

/// Relies on parity_scale_codec's `Decode` for `([u64; 4], u64)`: decoding
/// reads 40 bytes as five little-endian 64-bit values, ignores any bytes
/// past them, and fails when fewer are there.
#[verifier::external_body]
pub(crate) fn scale_decode_latest(raw: &Vec<u8>) -> (r: Result<
    (Felt, u64),
    parity_scale_codec::Error,
>)
    ensures
        match r {
            Ok(p) => raw@.len() >= 40 && spec_latest_decoded(raw@, p.0, p.1),
            Err(_) => raw@.len() < 40,
        },
{
    match <([u64; 4], u64)>::decode(&mut &raw[..]) {
        Ok((mont, number)) => Ok((Felt { mont }, number)),
        Err(e) => Err(e),
    }
}

} // verus!
