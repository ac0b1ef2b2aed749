//! The pseudorandom source threaded through sampling and scattering.

use vstd::prelude::*;
use crate::fixed::SCALE;

verus! {

/// Declares rand's thread-local generator type; a value of it is opaque
/// here and only the wrappers below touch it.
#[verifier::external_type_specification]
#[verifier::external_body]
pub struct ExThreadRng(rand::rngs::ThreadRng);

/// Relies on rand::thread_rng: a handle to the thread-local generator.
#[verifier::external_body]
pub(crate) fn new_rng() -> rand::rngs::ThreadRng {
    rand::thread_rng()
}

/// Relies on rand's Rng::gen_range over `0..SCALE`: one draw inside the
/// half-open range, the fixed-point unit interval.
#[verifier::external_body]
pub(crate) fn rand_unit(rng: &mut rand::rngs::ThreadRng) -> (r: i64)
    ensures
        0 <= r < SCALE,
{
    rand::Rng::gen_range(rng, 0i64..SCALE)
}

} // verus!
