//! The random source of the generator and of the spawn search.

use vstd::prelude::*;
use rand::rngs::StdRng;
use rand::Rng;

verus! {

#[verifier::external_type_specification]
#[verifier::external_body]
pub struct ExStdRng(StdRng);

/// Draws one number from `0..bound` with `rand::Rng::gen_range`. Trusted, not
/// proved: the range is not empty, so the call does not panic, and the number
/// drawn lies in the range. Which number comes is up to the generator's
/// state, and nothing is claimed of it.
#[verifier::external_body]
pub(crate) fn random_below(rng: &mut StdRng, bound: usize) -> (value: usize)
    requires
        bound > 0,
    ensures
        value < bound,
{
    rng.gen_range(0..bound)
}

} // verus!
