//! Randomness for new secrets, salts and nonces.
use vstd::prelude::*;
use rand_core::{RngCore, SeedableRng};

verus! {

/// Declared so that a seeded ChaCha20 generator can be held and passed along.
#[verifier::external_type_specification]
#[verifier::external_body]
pub struct ExChaCha20Rng(rand_chacha::ChaCha20Rng);

/// Relies on rand_core::SeedableRng::from_rng over rand_core::OsRng: a ChaCha20
/// generator seeded by the operating system, or the error of the random source.
#[verifier::external_body]
pub(crate) fn seeded_rng() -> (r: Result<rand_chacha::ChaCha20Rng, rand_core::Error>) {
    rand_chacha::ChaCha20Rng::from_rng(rand_core::OsRng)
}

/// Relies on rand_core::RngCore::fill_bytes of ChaCha20Rng, which cannot fail:
/// `n` bytes drawn from the generator.
#[verifier::external_body]
pub(crate) fn random_bytes(rng: &mut rand_chacha::ChaCha20Rng, n: usize) -> (r: Vec<u8>)
    ensures
        r@.len() == n,
{
    let mut buf = vec![0u8; n];
    rng.fill_bytes(&mut buf);
    buf
}

} // verus!
