//! Randomness, drawn from the `rand` crate's thread-local generator.

use rand::seq::SliceRandom;
use vstd::prelude::*;

verus! {

/// `rand::random::<u64>()`: any `u64`; nothing is promised of which.
#[verifier::external_body]
pub(crate) fn random_u64() -> (r: u64) {
    rand::random::<u64>()
}

/// `rand::random::<u32>()`: any `u32`; nothing is promised of which.
#[verifier::external_body]
pub(crate) fn random_u32() -> (r: u32) {
    rand::random::<u32>()
}

/// `SliceRandom::shuffle` with `rand::rng()`: the vector is rearranged in
/// place by swaps (a Fisher-Yates shuffle), so it holds the same items, each
/// as often as before; which order comes out is left open.
#[verifier::external_body]
pub(crate) fn shuffle<T>(v: &mut Vec<T>)
    ensures
        final(v)@.len() == old(v)@.len(),
        final(v)@.to_multiset() == old(v)@.to_multiset(),
{
    v.shuffle(&mut rand::rng());
}

} // verus!
