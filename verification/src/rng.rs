//! Randomness for shuffling and random choices, from `rand`.

use vstd::prelude::*;
use rand::rngs::StdRng;
use rand::seq::{IndexedRandom, SliceRandom};
use rand::{Rng, SeedableRng};

verus! {

/// The seeded generator of `rand` that the library's random functions draw from.
#[verifier::external_type_specification]
#[verifier::external_body]
pub struct ExStdRng(StdRng);

/// Calls `rand::seq::SliceRandom::shuffle` on the items. The contract claims only what
/// every outcome has in common: the items are a permutation of the items before (the
/// shuffle only swaps elements). Which permutation comes out depends on the generator.
#[verifier::external_body]
pub(crate) fn shuffle<T>(items: &mut Vec<T>, rng: &mut StdRng)
    ensures
        final(items)@.len() == old(items)@.len(),
        final(items)@.to_multiset() == old(items)@.to_multiset(),
{
    items.as_mut_slice().shuffle(rng);
}

/// Calls `rand::seq::IndexedRandom::choose` on the items and copies the chosen one. The
/// contract claims what every outcome has in common: nothing comes out of an empty slice,
/// else one of its items. Which one depends on the generator.
#[verifier::external_body]
pub(crate) fn pick<T: Copy>(items: &[T], rng: &mut StdRng) -> (r: Option<T>)
    ensures
        r is None <==> items@.len() == 0,
        r matches Some(x) ==> items@.contains(x),
{
    items.choose(rng).copied()
}

/// Calls `rand::Rng::random_range` on `0..n`. The contract claims only that the result
/// lies in the range; which number comes out depends on the generator. The call panics on
/// an empty range, which `requires` leaves out.
#[verifier::external_body]
pub(crate) fn random_below(n: usize, rng: &mut StdRng) -> (r: usize)
    requires
        n > 0,
    ensures
        r < n,
{
    rng.random_range(0..n)
}

/// Calls `rand::SeedableRng::try_from_os_rng` for `StdRng`: a generator seeded by the
/// operating system, or `None` when the operating system gives no randomness (the call's
/// error). Nothing is claimed of which generator comes out.
#[verifier::external_body]
pub(crate) fn os_seeded() -> Option<StdRng> {
    StdRng::try_from_os_rng().ok()
}

/// The generator that `rand::SeedableRng::seed_from_u64` makes for `StdRng` from a seed.
pub uninterp spec fn seed_generator(seed: u64) -> StdRng;

/// Calls `rand::SeedableRng::seed_from_u64` for `StdRng`: the generator is a function of
/// the seed alone.
#[verifier::external_body]
pub(crate) fn seeded(seed: u64) -> (r: StdRng)
    ensures
        r == seed_generator(seed),
{
    StdRng::seed_from_u64(seed)
}

/// A generator seeded by the operating system; when the operating system gives no
/// randomness, the generator of seed 0, so that making a generator never fails.
pub(crate) fn fresh_generator() -> StdRng {
    match os_seeded() {
        Some(r) => r,
        None => seeded(0),
    }
}

} // verus!
