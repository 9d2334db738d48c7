//! The random draws behind a fresh piece.  They come from the `rand` crate;
//! what is stated of them here is taken on trust from its documentation.

use rand::Rng;
use vstd::prelude::*;

verus! {

/// `rand::rngs::ThreadRng`, the handle to a thread's generator.  Nothing of
/// its state is visible to the engine.
#[verifier::external_type_specification]
#[verifier::external_body]
pub struct ExThreadRng(rand::rngs::ThreadRng);

/// Calls `rand::thread_rng`, which hands out the calling thread's
/// generator, seeded by the system.  Nothing is claimed of the handle.
#[verifier::external_body]
pub(crate) fn thread_generator() -> rand::rngs::ThreadRng {
    rand::thread_rng()
}

/// Calls `rand::Rng::gen_range` on the half-open range from zero to `bound`.
/// The claim is the one its documentation makes of every draw: the value
/// lies in the range.  An empty range, on which `gen_range` panics, is left
/// out.
#[verifier::external_body]
pub(crate) fn draw_below(generator: &mut rand::rngs::ThreadRng, bound: usize) -> (index: usize)
    requires
        bound > 0,
    ensures
        index < bound,
{
    generator.gen_range(0..bound)
}

/// Calls `rand::Rng::gen_ratio`, which is `true` with a chance of
/// `numerator` in `denominator`.  The claim is what its documentation
/// guarantees of every draw: always `true` when the two are equal, always
/// `false` when `numerator` is zero.  A zero `denominator` and a `numerator`
/// above it, on which `gen_ratio` panics, are left out.
#[verifier::external_body]
pub(crate) fn draw_ratio(
    generator: &mut rand::rngs::ThreadRng,
    numerator: u32,
    denominator: u32,
) -> (hit: bool)
    requires
        denominator > 0,
        numerator <= denominator,
    ensures
        numerator == denominator ==> hit,
        numerator == 0 ==> !hit,
{
    generator.gen_ratio(numerator, denominator)
}

} // verus!
