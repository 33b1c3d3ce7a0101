//! The random source: `rand`'s thread-local generator, and the few draws the
//! engine makes from it.
use vstd::prelude::*;

use rand::rngs::ThreadRng;
use rand::seq::SliceRandom;
use rand::Rng;

verus! {

/// The thread-local generator of `rand`, carried through opaquely.
#[verifier::external_type_specification]
#[verifier::external_body]
pub struct ExThreadRng(rand::rngs::ThreadRng);

/// Relies on rand::thread_rng: a handle on the thread's generator; nothing is
/// promised of it.
pub assume_specification[ rand::thread_rng ]() -> ThreadRng;

/// Relies on rand::Rng::gen_range over `0..=max`: a value in that range.
#[verifier::external_body]
pub(crate) fn random_at_most(rng: &mut ThreadRng, max: usize) -> (r: usize)
    ensures
        r <= max,
{
    rng.gen_range(0..=max)
}

/// Relies on rand::Rng::gen_ratio: `true` with chance numerator/denominator,
/// always `true` when the two are equal and always `false` when the
/// numerator is zero (it panics when the denominator is zero or below the
/// numerator, which `requires` leaves out).
#[verifier::external_body]
pub(crate) fn random_ratio(rng: &mut ThreadRng, numerator: u32, denominator: u32) -> (r: bool)
    requires
        0 < denominator,
        numerator <= denominator,
    ensures
        numerator == denominator ==> r,
        numerator == 0 ==> !r,
{
    rng.gen_ratio(numerator, denominator)
}

/// Relies on rand::seq::SliceRandom::shuffle: a Fisher-Yates shuffle, which
/// only swaps elements, so the result is a permutation of the input.
#[verifier::external_body]
pub(crate) fn shuffle<T>(items: &mut Vec<T>, rng: &mut ThreadRng)
    ensures
        final(items)@.len() == old(items)@.len(),
        final(items)@.to_multiset() == old(items)@.to_multiset(),
{
    items.shuffle(rng)
}

} // verus!
