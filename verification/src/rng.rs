//! Trusted access to the process random number generator.
//!
//! Randomness is deliberately unreproducible; every contract here states
//! only what holds of every possible outcome.

use vstd::prelude::*;
use rand::seq::SliceRandom;

verus! {

/// Relies on rand::random_range over `0..n`: the result is uniform in the
/// range, so always below `n`; the call panics only on an empty range,
/// which the precondition rules out.
#[verifier::external_body]
pub fn rand_below(n: usize) -> (r: usize)
    requires
        n > 0,
    ensures
        r < n,
{
    rand::random_range(0..n)
}

/// Relies on rand::random_range over `lo..hi`: the result lies in the
/// half-open range; the precondition keeps the range non-empty.
#[verifier::external_body]
pub fn rand_range_u64(lo: u64, hi: u64) -> (r: u64)
    requires
        lo < hi,
    ensures
        lo <= r < hi,
{
    rand::random_range(lo..hi)
}

/// Relies on rand::seq::SliceRandom::shuffle: a Fisher-Yates shuffle
/// permutes the slice in place, so the multiset of elements is unchanged.
#[verifier::external_body]
pub fn shuffle<T>(v: &mut Vec<T>)
    ensures
        final(v)@.to_multiset() == old(v)@.to_multiset(),
        final(v)@.len() == old(v)@.len(),
{
    v.shuffle(&mut rand::rng())
}

} // verus!
