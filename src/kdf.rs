//! Key derivation: PBKDF2-HMAC-SHA256 over the shared secret and the password.
use vstd::prelude::*;
use vstd::utf8::encode_utf8;

verus! {

/// Length in bytes of every derived key.
pub const KEY_LEN: usize = 32;

/// Inputs to the key derivation must stay below this many bytes; SHA-256 refuses
/// messages of 2^61 bytes or more, and ring panics on them.
pub const KDF_INPUT_LIMIT: u64 = 0x1000_0000_0000_0000;

/// The 32 bytes that PBKDF2-HMAC-SHA256 derives from `secret` with `salt` over `iterations` rounds.
pub uninterp spec fn pbkdf2_sha256(iterations: u32, salt: Seq<u8>, secret: Seq<u8>) -> Seq<u8>;

/// Relies on ring::pbkdf2::derive with PBKDF2_HMAC_SHA256 into a 32-byte buffer.
/// It panics only on output longer than 32 * (2^32 - 1) bytes or inputs too long
/// for SHA-256, both excluded here.
#[verifier::external_body]
fn pbkdf2_derive(iterations: u32, salt: &[u8], secret: &[u8]) -> (r: Vec<u8>)
    requires
        iterations > 0,
        salt@.len() < KDF_INPUT_LIMIT,
        secret@.len() < KDF_INPUT_LIMIT,
    ensures
        r@ == pbkdf2_sha256(iterations, salt@, secret@),
        r@.len() == KEY_LEN,
{
    let mut out = [0u8; 32];
    ring::pbkdf2::derive(
        ring::pbkdf2::PBKDF2_HMAC_SHA256,
        std::num::NonZeroU32::new(iterations).unwrap(),
        salt,
        secret,
        &mut out,
    );
    out.to_vec()
}

/// The key that `derive_key` derives: the shared secret followed by the UTF-8
/// bytes of the password, stretched with the salt.
pub open spec fn derived_key(iterations: u32, salt: Seq<u8>, secret: Seq<u8>, password: Seq<char>) -> Seq<u8> {
    pbkdf2_sha256(iterations, salt, secret + encode_utf8(password))
}

/// Whether the inputs fit what the key derivation accepts.
pub open spec fn kdf_accepts(iterations: u32, salt: Seq<u8>, secret: Seq<u8>, password: Seq<char>) -> bool {
    &&& iterations > 0
    &&& salt.len() < KDF_INPUT_LIMIT
    &&& secret.len() + encode_utf8(password).len() < KDF_INPUT_LIMIT
}

/// Derives the 32-byte symmetric key from the shared secret and an optional
/// password (the empty password adds nothing). `None` when the iteration count
/// is zero or an input is beyond what SHA-256 takes.
pub fn derive_key(iterations: u32, salt: &[u8], secret: &[u8], password: &str) -> (r: Option<Vec<u8>>)
    ensures
        r is Some <==> kdf_accepts(iterations, salt@, secret@, password@),
        r matches Some(k) ==> k@ == derived_key(iterations, salt@, secret@, password@),
        r matches Some(k) ==> k@.len() == KEY_LEN,
{
    let pw = password.as_bytes();
    if iterations == 0 || salt.len() as u64 >= KDF_INPUT_LIMIT || secret.len() as u64 >= KDF_INPUT_LIMIT
        || pw.len() as u64 >= KDF_INPUT_LIMIT - secret.len() as u64 {
        return None;
    }
    let mut input: Vec<u8> = Vec::new();
    input.extend_from_slice(secret);
    input.extend_from_slice(pw);
    proof {
        assert(input@ =~= secret@ + encode_utf8(password@));
    }
    Some(pbkdf2_derive(iterations, salt, input.as_slice()))
}

/// Key derivation is deterministic: the same secret, password, salt and
/// iteration count always give the same 32-byte key.
pub proof fn lemma_key_derivation_deterministic(
    iterations: u32,
    salt: Seq<u8>,
    secret: Seq<u8>,
    password: Seq<char>,
    k1: Seq<u8>,
    k2: Seq<u8>,
)
    requires
        k1 == derived_key(iterations, salt, secret, password),
        k2 == derived_key(iterations, salt, secret, password),
    ensures
        k1 == k2,
{
}

} // verus!
