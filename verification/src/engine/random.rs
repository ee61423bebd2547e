//! The random number generator, and the calls into it. What is said of
//! these calls is taken on trust from the generator's own description.

use rand::Rng;
use rand::RngCore;
use rand_chacha::ChaCha8Rng;
use vstd::prelude::*;

verus! {

/// The random number generator of `rand_chacha`. Nothing is known here of
/// what is inside it.
#[verifier::external_type_specification]
#[verifier::external_body]
pub struct ExChaCha8Rng(rand_chacha::ChaCha8Rng);

/// Calls `rand::Rng::gen_range` on the range from 0 up to `bound`, `bound`
/// left out. The generator panics on an empty range, so `bound` is not 0.
/// The number drawn lies in the range; nothing else is claimed of it.
#[verifier::external_body]
pub(crate) fn random_index(rng: &mut ChaCha8Rng, bound: usize) -> (index: usize)
    requires
        bound > 0,
    ensures
        index < bound,
{
    rng.gen_range(0..bound)
}

/// Calls `rand_core::RngCore::next_u32`, which gives the next number of the
/// generator. Nothing is claimed of the number.
#[verifier::external_body]
pub(crate) fn next_u32(rng: &mut ChaCha8Rng) -> (number: u32) {
    rng.next_u32()
}

} // verus!
