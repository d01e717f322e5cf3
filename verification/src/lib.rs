//! Secure session protocol between a recording host and a remote viewer.
//!
//! The host keeps one session per client identity. A session starts with an
//! X25519 key exchange, becomes authenticated when the client proves that it
//! knows the shared password, and is then allowed to list, download and delete
//! recordings. Every message after the key exchange travels as an encrypted
//! envelope: a nonce and an AES-256-GCM-SIV ciphertext.

pub mod cipher;
pub mod client;
pub mod envelope;
pub mod host;
pub mod identity;
pub mod key_exchange;
pub mod naming;
pub mod utils;
pub mod wire;
