//! AES-256-GCM sealing and opening, with 96-bit or 128-bit nonces.
use vstd::prelude::*;
use aes_gcm::aead::{Aead, NewAead};

verus! {

/// Messages must stay below this many bytes: past it the 32-bit block counter
/// of aes-gcm's counter mode would run out, and the crate panics.
pub const SEAL_MSG_LIMIT: u64 = 0xF_FFFF_FFF0;

/// Ciphertexts (tag included) must stay below this many bytes when opened, for
/// the same reason.
pub const OPEN_CT_LIMIT: u64 = 0x10_0000_0000;

/// Largest associated data, in bytes, that AES-GCM accepts.
pub const A_MAX: u64 = 0x10_0000_0000;

/// Largest ciphertext body (tag excluded), in bytes, that AES-GCM opens.
pub const C_MAX: u64 = 0x10_0000_0010;

/// AES-256-GCM (as NIST SP 800-38D defines it, over the lengths aes-gcm takes) of `msg` under `key` and `nonce`, authenticating
/// `aad`: the ciphertext with the 16-byte tag appended.
pub uninterp spec fn aes256_gcm_seal(key: Seq<u8>, nonce: Seq<u8>, aad: Seq<u8>, msg: Seq<u8>) -> Seq<u8>;

/// Relies on aes_gcm::AesGcm<Aes256, U16> through aead::Aead::encrypt with a
/// 16-byte nonce: fails exactly when the associated data exceeds 2^36 bytes;
/// the ciphertext is the message's length plus the 16-byte tag appended.
#[verifier::external_body]
#[allow(deprecated)]
fn seal_nonce16(key: &[u8], nonce: &[u8], aad: &[u8], msg: &[u8]) -> (r: Result<Vec<u8>, aes_gcm::Error>)
    requires
        key@.len() == 32,
        nonce@.len() == 16,
        msg@.len() < SEAL_MSG_LIMIT,
    ensures
        r is Ok <==> aad@.len() <= A_MAX,
        r matches Ok(c) ==> c@ == aes256_gcm_seal(key@, nonce@, aad@, msg@),
        r matches Ok(c) ==> c@.len() == msg@.len() + 16,
{
    aes_gcm::AesGcm::<aes_gcm::aes::Aes256, typenum::U16>::new(aes_gcm::Key::from_slice(key))
        .encrypt(aes_gcm::Nonce::from_slice(nonce), aes_gcm::aead::Payload { msg, aad })
}

/// Relies on aes_gcm::AesGcm<Aes256, U12> (`Aes256Gcm`) through
/// aead::Aead::encrypt with a 12-byte nonce: fails exactly when the associated
/// data exceeds 2^36 bytes; the ciphertext is the message's length plus the
/// 16-byte tag appended.
#[verifier::external_body]
#[allow(deprecated)]
fn seal_nonce12(key: &[u8], nonce: &[u8], aad: &[u8], msg: &[u8]) -> (r: Result<Vec<u8>, aes_gcm::Error>)
    requires
        key@.len() == 32,
        nonce@.len() == 12,
        msg@.len() < SEAL_MSG_LIMIT,
    ensures
        r is Ok <==> aad@.len() <= A_MAX,
        r matches Ok(c) ==> c@ == aes256_gcm_seal(key@, nonce@, aad@, msg@),
        r matches Ok(c) ==> c@.len() == msg@.len() + 16,
{
    aes_gcm::AesGcm::<aes_gcm::aes::Aes256, typenum::U12>::new(aes_gcm::Key::from_slice(key))
        .encrypt(aes_gcm::Nonce::from_slice(nonce), aes_gcm::aead::Payload { msg, aad })
}

/// Relies on aes_gcm::AesGcm<Aes256, U16> through aead::Aead::decrypt with a
/// 16-byte nonce. It refuses a `ct` shorter than the tag, associated data over
/// 2^36 bytes, and a tag that does not verify (bodies longer than 2^36 + 16 bytes
/// are refused too, and are excluded here with all that would run the counter out);
/// otherwise it returns the counter-mode decryption of the body. So a plaintext
/// comes back exactly when sealing it reproduces `ct`, and it is the only one
/// that does (counter mode is a bijection on bodies of a given length).
#[verifier::external_body]
#[allow(deprecated)]
fn open_nonce16(key: &[u8], nonce: &[u8], aad: &[u8], ct: &[u8]) -> (r: Result<Vec<u8>, aes_gcm::Error>)
    requires
        key@.len() == 32,
        nonce@.len() == 16,
        ct@.len() < OPEN_CT_LIMIT,
    ensures
        r matches Ok(p) ==> is_sealed_plaintext(key@, nonce@, aad@, ct@, p@),
        r matches Ok(p) ==> forall|m: Seq<u8>| is_sealed_plaintext(key@, nonce@, aad@, ct@, m) ==> m == p@,
        r is Err <==> forall|m: Seq<u8>| !is_sealed_plaintext(key@, nonce@, aad@, ct@, m),
{
    aes_gcm::AesGcm::<aes_gcm::aes::Aes256, typenum::U16>::new(aes_gcm::Key::from_slice(key))
        .decrypt(aes_gcm::Nonce::from_slice(nonce), aes_gcm::aead::Payload { msg: ct, aad })
}

/// Relies on aes_gcm::AesGcm<Aes256, U12> (`Aes256Gcm`) through
/// aead::Aead::decrypt with a 12-byte nonce, under the same terms as the 16-byte form.
#[verifier::external_body]
#[allow(deprecated)]
fn open_nonce12(key: &[u8], nonce: &[u8], aad: &[u8], ct: &[u8]) -> (r: Result<Vec<u8>, aes_gcm::Error>)
    requires
        key@.len() == 32,
        nonce@.len() == 12,
        ct@.len() < OPEN_CT_LIMIT,
    ensures
        r matches Ok(p) ==> is_sealed_plaintext(key@, nonce@, aad@, ct@, p@),
        r matches Ok(p) ==> forall|m: Seq<u8>| is_sealed_plaintext(key@, nonce@, aad@, ct@, m) ==> m == p@,
        r is Err <==> forall|m: Seq<u8>| !is_sealed_plaintext(key@, nonce@, aad@, ct@, m),
{
    aes_gcm::AesGcm::<aes_gcm::aes::Aes256, typenum::U12>::new(aes_gcm::Key::from_slice(key))
        .decrypt(aes_gcm::Nonce::from_slice(nonce), aes_gcm::aead::Payload { msg: ct, aad })
}

/// `m` is a plaintext within the limits under which AES-GCM opens, whose
/// sealing gives exactly `ct`.
pub open spec fn is_sealed_plaintext(key: Seq<u8>, nonce: Seq<u8>, aad: Seq<u8>, ct: Seq<u8>, m: Seq<u8>) -> bool {
    &&& ct == aes256_gcm_seal(key, nonce, aad, m)
    &&& m.len() <= C_MAX
    &&& aad.len() <= A_MAX
}

/// Nonce lengths that have a codec path: 96-bit and 128-bit.
pub open spec fn nonce_len_supported(n: nat) -> bool {
    n == 12 || n == 16
}

/// `r` is what `seal` returns.
pub open spec fn is_sealing(r: Result<Vec<u8>, aes_gcm::Error>, key: Seq<u8>, nonce: Seq<u8>, aad: Seq<u8>, msg: Seq<u8>) -> bool {
    &&& r is Ok <==> aad.len() <= A_MAX
    &&& r matches Ok(c) ==> c@ == aes256_gcm_seal(key, nonce, aad, msg)
    &&& r matches Ok(c) ==> c@.len() == msg.len() + 16
}

/// `r` is what `open` returns: the plaintext that sealed `ct`, if any, and an
/// authentication error otherwise.
pub open spec fn is_opening(r: Result<Vec<u8>, aes_gcm::Error>, key: Seq<u8>, nonce: Seq<u8>, aad: Seq<u8>, ct: Seq<u8>) -> bool {
    &&& r matches Ok(p) ==> is_sealed_plaintext(key, nonce, aad, ct, p@)
    &&& r matches Ok(p) ==> forall|m: Seq<u8>| #[trigger] is_sealed_plaintext(key, nonce, aad, ct, m) ==> m == p@
    &&& r is Err <==> forall|m: Seq<u8>| !is_sealed_plaintext(key, nonce, aad, ct, m)
}

/// AES-256-GCM encryption with the tag appended; the nonce length picks the
/// 96-bit or the 128-bit variant.
pub fn seal(key: &[u8], nonce: &[u8], aad: &[u8], msg: &[u8]) -> (r: Result<Vec<u8>, aes_gcm::Error>)
    requires
        key@.len() == 32,
        nonce_len_supported(nonce@.len()),
        msg@.len() < SEAL_MSG_LIMIT,
    ensures
        is_sealing(r, key@, nonce@, aad@, msg@),
{
    if nonce.len() == 12 {
        seal_nonce12(key, nonce, aad, msg)
    } else {
        seal_nonce16(key, nonce, aad, msg)
    }
}

/// AES-256-GCM decryption: the tag is verified before any plaintext is released.
pub fn open(key: &[u8], nonce: &[u8], aad: &[u8], ct: &[u8]) -> (r: Result<Vec<u8>, aes_gcm::Error>)
    requires
        key@.len() == 32,
        nonce_len_supported(nonce@.len()),
        ct@.len() < OPEN_CT_LIMIT,
    ensures
        is_opening(r, key@, nonce@, aad@, ct@),
{
    if nonce.len() == 12 {
        open_nonce12(key, nonce, aad, ct)
    } else {
        open_nonce16(key, nonce, aad, ct)
    }
}

} // verus!
