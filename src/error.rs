//! Errors of the codec.
use vstd::prelude::*;

verus! {

/// Declared so that errors of the base64 decoder can be carried through.
#[verifier::external_type_specification]
#[verifier::external_body]
pub struct ExBase64DecodeError(base64::DecodeError);

/// Declared so that errors of the base58 decoder can be carried through.
#[verifier::external_type_specification]
#[verifier::external_body]
pub struct ExBase58DecodeError(bs58::decode::Error);

/// Declared so that authentication failures of AES-GCM can be carried through.
#[verifier::external_type_specification]
#[verifier::external_body]
pub struct ExAeadError(aes_gcm::Error);

/// Declared so that the status of a failed inflate can be carried through.
#[verifier::external_type_specification]
#[verifier::external_body]
pub struct ExInflateStatus(miniz_oxide::inflate::TINFLStatus);

/// Declared so that a failure of the operating system's random source can be carried through.
#[verifier::external_type_specification]
#[verifier::external_body]
pub struct ExRandomError(rand_core::Error);

/// Everything that can go wrong while encoding or decoding a paste or a comment.
#[derive(Debug)]
pub enum PasteError {
    /// The record asks for an algorithm, mode or key size that has no codec path.
    CipherNotImplemented { cipher_algo: String, cipher_mode: String, keysize: u32 },
    MissingDecryptionKey,
    PasteNotFound,
    /// Malformed metadata: a zero iteration count, a nonce of unusable length,
    /// or an input too large for the primitives.
    InvalidData,
    UnknownPasteStatus(u32),
    Base64Error(base64::DecodeError),
    Base58Error(bs58::decode::Error),
    /// The authentication tag did not verify: wrong key, wrong password or tampering.
    Aes(aes_gcm::Error),
    /// The decrypted blob is not a complete DEFLATE stream.
    Zlib(miniz_oxide::inflate::TINFLStatus),
    RandomSource(rand_core::Error),
    FileExists,
    NotAFile,
    InvalidTokenType(String),
    InvalidCertificate(String),
}

pub type PbError = PasteError;

pub type PbResult<T> = Result<T, PasteError>;

} // verus!
