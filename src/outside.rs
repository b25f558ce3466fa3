//! The calls this library makes into the `rand` and `noise` crates.

use vstd::prelude::*;
use rand::rngs::StdRng;
use rand::Rng;
use rand::SeedableRng;
use noise::Perlin;

verus! {

#[verifier::external_type_specification]
#[verifier::external_body]
pub struct ExStdRng(StdRng);

#[verifier::external_type_specification]
#[verifier::external_body]
pub struct ExPerlin(Perlin);

/// Relies on rand's `SeedableRng::seed_from_u64` for `StdRng`: a generator
/// whose stream is fixed by the seed.
#[verifier::external_body]
pub(crate) fn seeded_rng(seed: u64) -> StdRng {
    StdRng::seed_from_u64(seed)
}

/// Relies on rand's `Rng::gen_range`: a value drawn from `lo..hi`; it panics
/// on an empty range, which `requires` leaves out.
#[verifier::external_body]
pub(crate) fn draw_in(rng: &mut StdRng, lo: i64, hi: i64) -> (r: i64)
    requires
        lo < hi,
    ensures
        lo <= r < hi,
{
    rng.gen_range(lo..hi)
}

/// Relies on noise's `Perlin::new`: a Perlin noise source built from the seed.
#[verifier::external_body]
pub(crate) fn perlin_with_seed(seed: u32) -> Perlin {
    Perlin::new(seed)
}

} // verus!
