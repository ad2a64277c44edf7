//! What the file transfer has from outside: the digest of a file, the keyed hash
//! of a transfer id, and the clock.

use sha2::{Digest, Sha256};
use std::collections::hash_map::RandomState;
use std::hash::BuildHasher;
use std::time::{Duration, Instant};
use vstd::prelude::*;

verus! {

/// The SHA-256 digest of `data`, as `sha2` computes it.
pub uninterp spec fn sha256_digest(data: Seq<u8>) -> Seq<u8>;

/// `sha2`'s `Sha256::digest`: the 32 digest bytes, a function of the data alone.
#[verifier::external_body]
pub(crate) fn sha256(data: &[u8]) -> (r: Vec<u8>)
    ensures
        r@ == sha256_digest(data@),
        r@.len() == 32,
{
    Sha256::digest(data).to_vec()
}

/// The hash that `hasher` gives to `text`.
pub uninterp spec fn keyed_hash(hasher: RandomState, text: Seq<char>) -> u64;

/// `BuildHasher::hash_one` on `RandomState`: for one hasher, the same text always
/// hashes alike. Nothing is claimed across hashers: each is keyed at random.
#[verifier::external_body]
pub(crate) fn hash_text(hasher: &RandomState, text: &str) -> (r: u64)
    ensures
        r == keyed_hash(*hasher, text@),
{
    hasher.hash_one(text)
}

/// `RandomState::new`: a hasher keyed at random.
pub assume_specification[ RandomState::new ]() -> RandomState
;

/// `std::time::Instant`, a reading of the monotonic clock.
#[verifier::external_type_specification]
#[verifier::external_body]
pub struct ExInstant(Instant);

/// `Instant::now`: whatever the monotonic clock shows.
pub assume_specification[ Instant::now ]() -> Instant
;

/// `Instant::elapsed`: the time since the reading, whatever it is by now.
pub assume_specification[ Instant::elapsed ](instant: &Instant) -> Duration
;

/// The whole nanoseconds in a duration.
pub uninterp spec fn nanoseconds(duration: Duration) -> u128;

/// `Duration::as_nanos`: the total number of nanoseconds in the duration.
pub assume_specification[ Duration::as_nanos ](duration: &Duration) -> (r: u128)
    ensures
        r == nanoseconds(*duration),
;

} // verus!
