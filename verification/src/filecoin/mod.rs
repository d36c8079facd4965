//! Shard storage: splitting ciphertexts into shards, reassembling them, the
//! emergency cache and the storage client's decisions.

pub mod types;
pub mod storage;
pub mod client;
