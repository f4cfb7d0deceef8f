//! The seedable random source of the magic search, taken on trust from the
//! rand crate.

use vstd::prelude::*;

verus! {

/// rand's standard generator, carried opaquely through the magic search.
#[verifier::external_type_specification]
#[verifier::external_body]
pub struct ExStdRng(rand::rngs::StdRng);

/// Relies on rand's `SeedableRng::seed_from_u64`: builds a `StdRng` from a
/// 64-bit seed.
#[verifier::external_body]
pub(crate) fn rng_from_seed(seed: u64) -> rand::rngs::StdRng {
    <rand::rngs::StdRng as rand::SeedableRng>::seed_from_u64(seed)
}

/// Relies on rand's `Rng::next_u64`: returns the generator's next word.
/// Nothing is promised of the value; every caller is verified for every
/// possible outcome.
#[verifier::external_body]
pub(crate) fn rng_next(rng: &mut rand::rngs::StdRng) -> u64 {
    rand::Rng::next_u64(rng)
}

} // verus!
