//! The seeded generator and the draws that the library takes from it.
use rand::distributions::Distribution;
use rand::{Rng, SeedableRng};
use vstd::prelude::*;

verus! {

/// The PCG generator (128-bit state, multiplicative) that every run is seeded with.
#[verifier::external_type_specification]
#[verifier::external_body]
pub struct ExMcg128Xsl64(rand_pcg::Mcg128Xsl64);

/// Relies on rand_core's `SeedableRng::seed_from_u64` for the PCG generator:
/// a generator whose whole sequence is fixed by the seed.
#[verifier::external_body]
pub(crate) fn seeded(seed: u64) -> rand_pcg::Mcg128Xsl64 {
    rand_pcg::Mcg128Xsl64::seed_from_u64(seed)
}

/// Relies on rand's `Rng::gen::<u64>`: the next 64 bits of the generator.
#[verifier::external_body]
pub(crate) fn next_u64(rng: &mut rand_pcg::Mcg128Xsl64) -> u64 {
    rng.gen::<u64>()
}

/// A Bernoulli trial with a fixed chance of success.
#[verifier::external_type_specification]
#[verifier::external_body]
pub struct ExBernoulli(rand::distributions::Bernoulli);

/// Relies on rand's `Bernoulli::sample`: one trial, drawn with the generator.
/// Nothing is promised of the outcome.
#[verifier::external_body]
pub(crate) fn trial(rng: &mut rand_pcg::Mcg128Xsl64, chance: &rand::distributions::Bernoulli) -> bool {
    chance.sample(rng)
}

/// Relies on rand's `Uniform::new(0, upper)` and its `sample`: the value lies
/// in `[0, upper)`. `Uniform::new` panics on an empty range, hence `upper > 0`.
#[verifier::external_body]
pub(crate) fn uniform_below(rng: &mut rand_pcg::Mcg128Xsl64, upper: usize) -> (r: usize)
    requires
        upper > 0,
    ensures
        r < upper,
{
    rand::distributions::Uniform::new(0u64, upper as u64).sample(rng) as usize
}

} // verus!
