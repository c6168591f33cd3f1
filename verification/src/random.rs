//! Bindings to the random number generator.
//!
//! Nothing in this file is proved, and nothing is claimed of which outcome
//! a call has: only what holds of every outcome.

use vstd::prelude::*;
use rand::seq::SliceRandom;

verus! {

/// Calls `SliceRandom::choose` of `rand` with the thread's generator: one
/// element of `pool`, or `None` where `pool` is empty.
#[verifier::external_body]
pub(crate) fn pick(pool: &[u8]) -> (picked: Option<u8>)
    ensures
        picked.is_none() <==> pool@.len() == 0,
        picked matches Some(c) ==> pool@.contains(c),
{
    pool.choose(&mut rand::thread_rng()).copied()
}

/// Calls `SliceRandom::shuffle` of `rand` with the thread's generator:
/// the same elements, each as often as before, in some order.
#[verifier::external_body]
pub(crate) fn shuffle(items: &mut Vec<u8>)
    ensures
        final(items)@.to_multiset() == old(items)@.to_multiset(),
{
    items.shuffle(&mut rand::thread_rng())
}

} // verus!
