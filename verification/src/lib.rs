//! A verified model of the block acceptance pipeline of a UTXO-based
//! proof-of-work chain: header and block validation, fork resolution by
//! rewind-and-reapply over append-only accumulators, and atomic batch
//! semantics over a key-value store.

pub mod consensus;
pub mod handlers;
pub mod pipe;
pub mod ser;
pub mod store;
pub mod txhashset;
pub mod types;
