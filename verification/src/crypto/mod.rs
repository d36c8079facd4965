//! Threshold encryption of messages and the messages that carry ciphertexts
//! and decryption shares.

pub mod threshold;
pub mod keys;
pub mod message;
