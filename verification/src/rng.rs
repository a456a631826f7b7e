//! Trusted boundary to the `rand` crate: the particle simulator draws its
//! spawn decisions, positions, tail lengths and directions here.  Nothing
//! is assumed about which value comes back beyond the range the drawing
//! function documents.

use vstd::prelude::*;

use rand::Rng;

verus! {

#[verifier::external_type_specification]
#[verifier::external_body]
pub struct ExThreadRng(rand::rngs::ThreadRng);

/// Relies on rand::thread_rng: returns a handle to the calling thread's
/// lazily seeded generator.
#[verifier::external_body]
pub(crate) fn fresh_rng() -> rand::rngs::ThreadRng {
    rand::thread_rng()
}

/// Relies on rand::Rng::gen_ratio: a Bernoulli draw that is true with
/// probability `numerator / denominator`; it panics when the denominator
/// is zero or smaller than the numerator, so those inputs are excluded.
/// Either answer may come back.
#[verifier::external_body]
pub(crate) fn coin(rng: &mut rand::rngs::ThreadRng, numerator: u32, denominator: u32) -> bool
    requires
        0 < denominator,
        numerator <= denominator,
{
    rng.gen_ratio(numerator, denominator)
}

/// Relies on rand::Rng::gen_range on `low..high`: a uniform draw from the
/// half-open range, which panics when the range is empty; the result is
/// documented to lie inside the range.
#[verifier::external_body]
pub(crate) fn pick_in_range(rng: &mut rand::rngs::ThreadRng, low: usize, high: usize) -> (r: usize)
    requires
        low < high,
    ensures
        low <= r < high,
{
    rng.gen_range(low..high)
}

} // verus!
