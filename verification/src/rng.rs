//! Trusted boundary to the `rand` crate: the entropy-seeded generator the
//! samplers draw from, and the one primitive they need from it, a uniform
//! draw below a bound.

use rand::Rng;
use rand::SeedableRng;
use vstd::prelude::*;

verus! {

#[verifier::external_type_specification]
#[verifier::external_body]
pub struct ExSmallRng(rand::rngs::SmallRng);

/// Relies on `rand::rngs::SmallRng::from_entropy` (via `SeedableRng`): builds
/// a generator from operating-system entropy. Nothing can be promised of the
/// state it returns.
#[verifier::external_body]
pub(crate) fn fresh_small_rng() -> rand::rngs::SmallRng {
    rand::rngs::SmallRng::from_entropy()
}

/// Relies on `rand::Rng::gen_range` over the half-open range `0..bound`: it
/// panics only on an empty range, and otherwise returns a uniformly random
/// value inside the range. Two calls on equal arguments may differ, so the
/// contract says only that the result is below the bound.
#[verifier::external_body]
pub(crate) fn rng_below(rng: &mut rand::rngs::SmallRng, bound: usize) -> (r: usize)
    requires
        bound >= 1,
    ensures
        r < bound,
{
    rng.gen_range(0..bound)
}

} // verus!
