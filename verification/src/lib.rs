//! Persistence of a chain node's synchronization metadata: the tips of the
//! locally synced chain, the historical sync height, and the latest block's
//! hash and height, each stored as bytes under a fixed key of the meta column
//! of a column-oriented key-value store.

pub mod codec;
pub mod meta;
pub mod scale;
pub mod store;
