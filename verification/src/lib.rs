//! Phoenix protocol: threshold-encrypted messaging over a mesh network, with
//! shard storage and an emergency cache.
//!
//! This crate holds the protocol's logic: message lifetimes, threshold
//! decryption bookkeeping, shard splitting and reassembly, the emergency
//! cache and the node's reaction to incoming traffic. Networking, HTTP and
//! terminal input live in the application around it.

pub mod text;
pub mod keyed;
pub mod fresh;
pub mod crypto;
pub mod filecoin;
pub mod mesh;
