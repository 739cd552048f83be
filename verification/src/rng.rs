//! The injected, seedable random source used by the tree builders.
//!
//! The draws come from `rand`'s `StdRng`; their contracts promise only the
//! range of each draw, never a particular value, so everything proved about
//! the models holds for every possible sequence of draws.

use vstd::prelude::*;

verus! {

#[verifier::external_type_specification]
#[verifier::external_body]
pub struct ExStdRng(rand::rngs::StdRng);

/// A seedable pseudo-random source, injected into every randomized fit so
/// that callers and tests control determinism.
pub struct RandomSource {
    rng: rand::rngs::StdRng,
}

impl RandomSource {
    /// Relies on `rand::SeedableRng::seed_from_u64` for `StdRng`.
    #[verifier::external_body]
    pub fn new(seed: u64) -> (r: RandomSource) {
        RandomSource { rng: rand::SeedableRng::seed_from_u64(seed) }
    }

    /// Relies on `rand::Rng::gen_range` over `0..n`: the draw is uniform in
    /// the range, so in particular below `n`.
    #[verifier::external_body]
    pub fn below(&mut self, n: usize) -> (r: usize)
        requires
            n > 0,
        ensures
            r < n,
    {
        rand::Rng::gen_range(&mut self.rng, 0..n)
    }

    /// Relies on `rand::Rng::gen_range` over `lo..=hi`: the draw is uniform
    /// in the closed range.
    #[verifier::external_body]
    pub fn between(&mut self, lo: i64, hi: i64) -> (r: i64)
        requires
            lo <= hi,
        ensures
            lo <= r <= hi,
    {
        rand::Rng::gen_range(&mut self.rng, lo..=hi)
    }
}

} // verus!
