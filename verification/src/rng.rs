//! Randomness source for sampling.
//!
//! The generator is seedable and passed explicitly into every sampling
//! function, so renders are reproducible.  Nothing is assumed about the
//! values drawn beyond their type range.

use vstd::prelude::*;
use rand::Rng;

verus! {

#[verifier::external_type_specification]
#[verifier::external_body]
pub struct ExStdRng(rand::rngs::StdRng);

/// Relies on rand's `Rng::gen` at type `u16`: draws a uniform 16-bit value.
/// Nothing can be promised of the value beyond its type range.
#[verifier::external_body]
pub(crate) fn rng_next_u16(rng: &mut rand::rngs::StdRng) -> u16 {
    rng.gen::<u16>()
}

} // verus!
