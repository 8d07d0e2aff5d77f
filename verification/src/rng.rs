//! The random source, as far as the library draws from it.

use vstd::prelude::*;
use rand::Rng;
use rand::rngs::StdRng;

verus! {

/// `rand::rngs::StdRng`, the generator that the library draws from. Nothing
/// is known of its state.
#[verifier::external_type_specification]
#[verifier::external_body]
pub struct ExStdRng(StdRng);

/// Draws a number under `n` by `rand::Rng::gen_range` over `0..n`. With `n`
/// over zero the range is not empty, so the call returns, and whatever it
/// returns lies in the range; which number it is is left to the generator.
#[verifier::external_body]
pub(crate) fn draw_below(rng: &mut StdRng, n: u8) -> (r: u8)
    requires
        n > 0,
    ensures
        r < n,
{
    rng.gen_range(0..n)
}

} // verus!
