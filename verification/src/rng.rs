//! Per-worker random number streams, drawn through the `rand` crate.
//!
//! Each rendering worker owns one explicit generator; nothing here uses
//! hidden global state. The generator type and the sampling call are
//! trusted declarations over `rand`; everything built on top of them is
//! verified for every value the sampler may return.

use vstd::prelude::*;

verus! {

#[verifier::external_type_specification]
#[verifier::external_body]
pub struct ExSmallRng(rand::rngs::SmallRng);

/// Relies on rand's `SeedableRng::from_entropy`: a fresh small generator
/// seeded from the operating system's entropy source.
#[verifier::external_body]
pub fn rng_from_entropy() -> rand::rngs::SmallRng {
    <rand::rngs::SmallRng as rand::SeedableRng>::from_entropy()
}

/// Relies on rand's `SeedableRng::seed_from_u64`: a small generator whose
/// stream is a function of the given seed on a given platform.
#[verifier::external_body]
pub fn rng_from_seed(seed: u64) -> rand::rngs::SmallRng {
    <rand::rngs::SmallRng as rand::SeedableRng>::seed_from_u64(seed)
}

/// Relies on rand's `Rng::gen_range`: a sample uniform over `[lo, hi)`.
/// It panics only on an empty range, which the precondition rules out;
/// nothing beyond the range is assumed of the outcome.
#[verifier::external_body]
pub fn rand_range_fx(rng: &mut rand::rngs::SmallRng, lo: i128, hi: i128) -> (r: i128)
    requires
        lo < hi,
    ensures
        lo <= r < hi,
{
    rand::Rng::gen_range(rng, lo..hi)
}

} // verus!
