use rand::seq::SliceRandom;
use vstd::prelude::*;

verus! {

/// Relies on `rand::seq::SliceRandom::shuffle`: an in-place Fisher-Yates
/// shuffle that only swaps elements, so the result is a permutation of the
/// input (same multiset of elements, same length).
#[verifier::external_body]
pub(crate) fn shuffle_tasks(bucket: &mut Vec<usize>)
    ensures
        final(bucket)@.to_multiset() == old(bucket)@.to_multiset(),
        final(bucket)@.len() == old(bucket)@.len(),
{
    bucket.shuffle(&mut rand::rng());
}

/// Relies on `rand::random_range` over `low..high`: for a non-empty range it
/// returns a uniformly sampled value inside the range (it panics only on an
/// empty range, which the precondition rules out).
#[verifier::external_body]
pub(crate) fn random_in_range(low: usize, high: usize) -> (r: usize)
    requires
        low < high,
    ensures
        low <= r < high,
{
    rand::random_range(low..high)
}

} // verus!
