//! Uniform random choices, drawn from the thread-local generator of `rand`.
use rand::Rng;
use vstd::prelude::*;

verus! {

/// Calls `rand::Rng::gen_range(0..bound)` on `rand::thread_rng()`.
///
/// Claimed: the result is below `bound` (the range is half-open). Nothing is
/// claimed about which value comes out; it depends on chance. The range must
/// not be empty, since `gen_range` panics on an empty range.
#[verifier::external_body]
pub(crate) fn random_below(bound: u8) -> (r: u8)
    requires
        bound > 0,
    ensures
        r < bound,
{
    rand::thread_rng().gen_range(0..bound)
}

} // verus!
