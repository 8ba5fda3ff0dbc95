//! The library's only source of randomness: thin trusted wrappers around the
//! rand crate. Nothing can be promised about which value a draw yields, so
//! each contract states only what holds of every outcome, and the callers'
//! contracts are phrased over every possible draw.

use vstd::prelude::*;

verus! {

/// Relies on rand's `Rng::gen_range` over `0..n`: a uniform draw from a
/// non-empty range always lies inside it.
#[verifier::external_body]
pub(crate) fn rand_index(n: usize) -> (r: usize)
    requires
        n > 0,
    ensures
        r < n,
{
    rand::Rng::gen_range(&mut rand::thread_rng(), 0..n)
}

/// Relies on rand's `SliceRandom::shuffle`: a Fisher-Yates shuffle permutes
/// the slice in place by swaps, so exactly the old elements remain, each with
/// its old multiplicity.
#[verifier::external_body]
pub(crate) fn shuffle_strings(v: &mut Vec<String>)
    ensures
        final(v)@.to_multiset() == old(v)@.to_multiset(),
        final(v)@.len() == old(v)@.len(),
{
    rand::seq::SliceRandom::shuffle(v.as_mut_slice(), &mut rand::thread_rng())
}

} // verus!
