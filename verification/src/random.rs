//! The source of chance behind the generators.
//!
//! Nothing in this file is proved: each item says what is taken on trust of
//! the `rand` crate, and the generators are verified against these
//! statements for every value that a draw may return.

use rand::rngs::ThreadRng;
use rand::seq::SliceRandom;
use rand::Rng;
use vstd::prelude::*;

verus! {

/// `rand::rngs::ThreadRng`, the generator that each thread owns. Its state
/// is hidden: a value of this type is only handed on to the draws below.
#[verifier::external_type_specification]
#[verifier::external_body]
pub struct ExThreadRng(ThreadRng);

/// `rand::thread_rng`: a handle to the current thread's generator. Nothing
/// is claimed of the handle. (The call panics where the system has no source
/// of randomness to seed the generator from; the library cannot work there.)
pub assume_specification[ rand::thread_rng ]() -> ThreadRng;

/// `Rng::gen_range` on the inclusive range `low..=high`: the sample lies in
/// the range. The call panics on an empty range, so `low` may not exceed
/// `high`. Which value of the range comes back is left open.
#[verifier::external_body]
pub(crate) fn gen_range(rng: &mut ThreadRng, low: i32, high: i32) -> (sample: i32)
    requires
        low <= high,
    ensures
        low <= sample <= high,
{
    rng.gen_range(low..=high)
}

/// `SliceRandom::shuffle` on the items of a vector: the items are swapped
/// among themselves in place, so the vector holds the same items as before,
/// each as often as before. Their new order is left open.
#[verifier::external_body]
pub(crate) fn shuffle<T>(items: &mut Vec<T>, rng: &mut ThreadRng)
    ensures
        final(items)@.to_multiset() == old(items)@.to_multiset(),
{
    items.shuffle(rng)
}

} // verus!
