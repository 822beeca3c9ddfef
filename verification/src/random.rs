//! The random draws that chromosomes and the evolutionary step are built on.
//!
//! The generator is `rand`'s `StdRng`. Nothing is known here about the
//! stream it produces: each draw promises the range of its result and no
//! more, so whatever is proved of a caller holds for every outcome.

use rand::rngs::StdRng;
use rand::seq::SliceRandom;
use rand::Rng;
use rand::SeedableRng;
use vstd::prelude::*;

verus! {

/// `rand::rngs::StdRng`, handed on as it is: nothing is known of its state.
#[verifier::external_type_specification]
#[verifier::external_body]
pub struct ExStdRng(StdRng);

/// `SeedableRng::seed_from_u64` for `StdRng`: a generator whose stream is
/// fixed by `seed`. Nothing is claimed of the generator.
#[verifier::external_body]
pub(crate) fn seeded(seed: u64) -> StdRng {
    StdRng::seed_from_u64(seed)
}

/// `Rng::gen_range` on the half-open range `low..high` of `u32`. The call
/// panics on an empty range, which the precondition excludes; the result lies
/// in the range.
#[verifier::external_body]
pub(crate) fn gen_range_u32(rng: &mut StdRng, low: u32, high: u32) -> (r: u32)
    requires
        low < high,
    ensures
        low <= r < high,
{
    rng.gen_range(low..high)
}

/// `Rng::gen_range` on the half-open range `low..high` of `usize`. The call
/// panics on an empty range, which the precondition excludes; the result lies
/// in the range.
#[verifier::external_body]
pub(crate) fn gen_range_usize(rng: &mut StdRng, low: usize, high: usize) -> (r: usize)
    requires
        low < high,
    ensures
        low <= r < high,
{
    rng.gen_range(low..high)
}

/// `Rng::gen_ratio`: true with probability `numerator / denominator`. The
/// call panics on a zero denominator and on a ratio above one, which the
/// precondition excludes. A ratio of zero always gives false and a ratio of
/// one always gives true.
#[verifier::external_body]
pub(crate) fn gen_ratio(rng: &mut StdRng, numerator: u32, denominator: u32) -> (r: bool)
    requires
        0 < denominator,
        numerator <= denominator,
    ensures
        numerator == 0 ==> !r,
        numerator == denominator ==> r,
{
    rng.gen_ratio(numerator, denominator)
}

/// `SliceRandom::choose` on a slice that is not empty: one of its elements.
#[verifier::external_body]
pub(crate) fn choose_one<T: Copy>(rng: &mut StdRng, choices: &[T]) -> (r: T)
    requires
        choices@.len() > 0,
    ensures
        choices@.contains(r),
{
    *choices.choose(rng).unwrap()
}

/// `SliceRandom::shuffle`: the elements in a random order. They are swapped
/// in place, so the same elements are there afterwards, each as often as
/// before.
#[verifier::external_body]
pub(crate) fn shuffle<T>(rng: &mut StdRng, items: &mut Vec<T>)
    ensures
        final(items)@.to_multiset() == old(items)@.to_multiset(),
{
    items.shuffle(rng)
}

/// `rand::random` at `u64`: a number drawn from the thread's generator, which
/// the operating system seeds. Nothing is known of it.
#[verifier::external_body]
pub(crate) fn entropy_seed() -> u64 {
    rand::random::<u64>()
}

} // verus!
