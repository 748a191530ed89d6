//! The random source. Nothing here is proved: the contracts below are
//! taken from the `rand` crate and believed.

use rand::Rng;
use vstd::prelude::*;

verus! {

/// `rand::rngs::ThreadRng`, the handle to the generator of the calling
/// thread. Its state is hidden from the proofs.
#[verifier::external_type_specification]
#[verifier::external_body]
pub struct ExThreadRng(rand::rngs::ThreadRng);

/// `rand::thread_rng`: the generator of the calling thread, seeded by the
/// operating system. Nothing is claimed of it. It aborts with a panic where
/// the operating system cannot supply a seed.
#[verifier::external_body]
pub(crate) fn thread_rng() -> rand::rngs::ThreadRng {
    rand::thread_rng()
}

/// `rand::Rng::gen_range` on the half-open range `low..high` of `usize`.
/// The range must not be empty, else the call panics. Claimed: the value
/// drawn lies in the range. Which value it is depends on chance, so two
/// calls may differ.
#[verifier::external_body]
pub(crate) fn gen_range(rng: &mut rand::rngs::ThreadRng, low: usize, high: usize) -> (value:
    usize)
    requires
        low < high,
    ensures
        low <= value < high,
{
    rng.gen_range(low..high)
}

} // verus!
