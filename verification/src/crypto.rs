//! Trusted boundary around the cryptographic primitives: iterated key
//! derivation (PBKDF2-HMAC-SHA256 from `ring`) and random byte generation.
//! Everything else in the crate is verified against the contracts stated
//! here.

use vstd::prelude::*;

verus! {

/// The PBKDF2-HMAC-SHA256 value of `secret` under `salt` and `iterations`,
/// with a derived-key length of `CREDENTIAL_LEN` bytes. The algorithm is a
/// pure function of these three arguments; its definition is left to `ring`.
pub uninterp spec fn derived_key_of(iterations: u32, salt: Seq<u8>, secret: Seq<u8>) -> Seq<u8>;

/// Relies on `ring::pbkdf2::derive` with `PBKDF2_HMAC_SHA256`: fills the
/// output buffer with the PBKDF2 value of `secret` under `salt` and
/// `iterations`, deterministically in its arguments.
#[verifier::external_body]
pub(crate) fn pbkdf2_derive(iterations: u32, salt: &[u8], secret: &[u8]) -> (r: Vec<u8>)
    requires
        iterations > 0,
    ensures
        r@ == derived_key_of(iterations, salt@, secret@),
        r@.len() == crate::CREDENTIAL_LEN,
{
    let mut out = [0u8; 32];
    ring::pbkdf2::derive(
        ring::pbkdf2::PBKDF2_HMAC_SHA256,
        core::num::NonZeroU32::new(iterations).unwrap(),
        salt,
        secret,
        &mut out,
    );
    out.to_vec()
}

/// Relies on `ring::pbkdf2::verify` with `PBKDF2_HMAC_SHA256`: succeeds
/// exactly when the PBKDF2 value of `secret` under `salt` and `iterations`
/// (with derived-key length `previously_derived.len()`) equals
/// `previously_derived`, comparing in constant time. A non-empty
/// `previously_derived` of `CREDENTIAL_LEN` bytes makes that value the one
/// `pbkdf2_derive` returns.
#[verifier::external_body]
pub(crate) fn pbkdf2_matches(
    iterations: u32,
    salt: &[u8],
    secret: &[u8],
    previously_derived: &[u8],
) -> (r: bool)
    requires
        iterations > 0,
        previously_derived@.len() == crate::CREDENTIAL_LEN,
    ensures
        r == (derived_key_of(iterations, salt@, secret@) == previously_derived@),
{
    ring::pbkdf2::verify(
        ring::pbkdf2::PBKDF2_HMAC_SHA256,
        core::num::NonZeroU32::new(iterations).unwrap(),
        salt,
        secret,
        previously_derived,
    )
        .is_ok()
}

/// Relies on `ring::rand::SystemRandom` through `SecureRandom::fill`: fills a
/// buffer with fresh cryptographically random bytes. Nothing is promised of
/// the values beyond the length.
#[verifier::external_body]
pub(crate) fn random_salt() -> (r: Vec<u8>)
    ensures
        r@.len() == crate::SALT_LEN,
{
    let rnd = ring::rand::SystemRandom::new();
    let mut salt = [0u8; 16];
    ring::rand::SecureRandom::fill(&rnd, &mut salt).unwrap();
    salt.to_vec()
}

/// Relies on `rand::Rng::gen_range` over `0..n`: returns an index drawn
/// uniformly below `n`. Only the bound is promised of the random result.
#[verifier::external_body]
pub(crate) fn random_index(n: usize) -> (r: usize)
    requires
        n > 0,
    ensures
        r < n,
{
    rand::Rng::gen_range(&mut rand::thread_rng(), 0..n)
}

} // verus!
