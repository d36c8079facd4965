//! The mesh node: flooding of plain and encrypted messages, and the
//! collection of decryption shares until a threshold decrypts a message.

pub mod node;
pub mod command;
