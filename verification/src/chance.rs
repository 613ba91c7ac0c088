//! The one source of chance that the engine draws on.

use vstd::prelude::*;
use rand::Rng;

verus! {

/// Draws a number below `bound` with `rand::Rng::gen_range` on the half-open
/// range `0..bound`, from the generator that `rand::thread_rng` hands out.
///
/// Trusted, not proved: the draw lies in the range. Which number comes is
/// left open; two draws with the same bound may differ. The range must not be
/// empty, since `gen_range` panics on an empty one.
#[verifier::external_body]
pub(crate) fn roll_below(bound: usize) -> (roll: usize)
    requires
        bound > 0,
    ensures
        roll < bound,
{
    rand::thread_rng().gen_range(0..bound)
}

} // verus!
