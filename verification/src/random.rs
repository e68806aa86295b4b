//! The source of chance behind the choice of the next track.

use rand::rngs::ThreadRng;
use rand::Rng;
use vstd::prelude::*;

verus! {

/// The generator of `rand` that belongs to the running thread. Nothing is
/// known of its state.
#[verifier::external_type_specification]
#[verifier::external_body]
pub struct ExThreadRng(rand::rngs::ThreadRng);

/// Draws a number below `bound` with `rand::Rng::random_range` on the range
/// from zero up to, and without, `bound`. That call panics on an empty range,
/// which `bound > 0` rules out. All that is claimed of the number drawn is
/// that it lies in the range; which one it is depends on chance.
#[verifier::external_body]
pub(crate) fn random_below(rng: &mut ThreadRng, bound: usize) -> (index: usize)
    requires
        bound > 0,
    ensures
        index < bound,
{
    rng.random_range(0..bound)
}

} // verus!
