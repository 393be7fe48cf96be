//! Where a run's 32-byte seed comes from.
use sha3::{Digest, Sha3_256};
use vstd::prelude::*;
use vstd::string::StringSliceAdditionalSpecFns;

verus! {

/// The SHA3-256 digest of `bytes`.
pub uninterp spec fn sha3_256_of(bytes: Seq<u8>) -> Seq<u8>;

/// Relies on sha3's `Sha3_256::digest`: the 32-byte SHA3-256 digest of the input.
#[verifier::external_body]
fn sha3_256(bytes: &[u8]) -> (r: [u8; 32])
    ensures
        r@ == sha3_256_of(bytes@),
{
    Sha3_256::digest(bytes).into()
}

/// Relies on rand's `random`, which draws 32 bytes from the thread-local
/// generator seeded by the operating system; nothing is known of the value.
#[verifier::external_body]
fn random_seed() -> (r: [u8; 32]) {
    rand::random()
}

/// The seed for a run: the SHA3-256 digest of the token's UTF-8 bytes where a
/// token is given, otherwise 32 bytes from the system's entropy.
pub fn resolve_seed(token: Option<&str>) -> (r: [u8; 32])
    ensures
        token matches Some(t) ==> r@ == sha3_256_of(t.spec_bytes()),
{
    match token {
        Some(t) => sha3_256(t.as_bytes()),
        None => random_seed(),
    }
}

} // verus!
