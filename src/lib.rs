//! Client-side codec for end-to-end encrypted pastes and threaded comments:
//! key derivation, compression, authenticated encryption over an
//! order-sensitive metadata encoding, and reconstruction of comment threads.
pub mod error;
pub mod encoding;
pub mod compression;
pub mod kdf;
pub mod aead;
pub mod random;
pub mod privatebin;
pub mod crypto;
pub mod comments;
pub mod config;
pub mod util;
