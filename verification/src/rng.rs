//! Trusted boundary to the `rand` crate: the thread-local generator and a
//! single bounded-draw primitive. Everything random in the simulation is
//! derived from draws below a bound.

use vstd::prelude::*;
use rand::RngExt;

verus! {

/// The thread-local random number generator of the `rand` crate.
#[verifier::external_type_specification]
#[verifier::external_body]
pub struct ExThreadRng(rand::rngs::ThreadRng);

/// Relies on rand::rng: a handle to the thread-local generator. Nothing can
/// be promised of the values it will yield.
#[verifier::external_body]
pub(crate) fn rng_new() -> rand::rngs::ThreadRng {
    rand::rng()
}

/// Relies on rand::RngExt::random_range over `0..n`: it returns a value of
/// that range and panics only when the range is empty, which `n > 0` rules
/// out. Nothing is assumed about which value comes back.
#[verifier::external_body]
pub(crate) fn rng_below(rng: &mut rand::rngs::ThreadRng, n: u32) -> (r: u32)
    requires
        n > 0,
    ensures
        r < n,
{
    rng.random_range(0..n)
}

} // verus!
