//! The random source behind jitter.

use crate::jitter::UNIT;
use rand::rngs::SmallRng;
use rand::Rng;
use rand::SeedableRng;
use vstd::prelude::*;

verus! {

/// `rand::rngs::SmallRng`, a small and fast generator. Nothing of its state
/// is visible to proofs.
#[verifier::external_type_specification]
#[verifier::external_body]
pub struct ExSmallRng(rand::rngs::SmallRng);

/// Calls `rand::Rng::random_range` on the inclusive range from zero to `high`.
/// The range is never empty, so the call does not panic; all that is claimed of
/// the number drawn is that it lies in the range.
#[verifier::external_body]
pub(crate) fn draw_up_to(rng: &mut SmallRng, high: u64) -> (r: u64)
    ensures
        r <= high,
{
    rng.random_range(0..=high)
}

/// Calls `rand::SeedableRng::try_from_os_rng` for a `SmallRng`, which seeds the
/// generator from the operating system. Gives `None` where the system has no
/// entropy to offer. Nothing is claimed of the generator.
#[verifier::external_body]
pub(crate) fn rng_from_os() -> Option<SmallRng> {
    SmallRng::try_from_os_rng().ok()
}

/// Calls `rand::SeedableRng::seed_from_u64` for a `SmallRng`. Nothing is claimed
/// of the generator.
#[verifier::external_body]
pub(crate) fn rng_from_seed(seed: u64) -> SmallRng {
    SmallRng::seed_from_u64(seed)
}

/// A random scalar between 0.0 and 1.0, in millionths.
pub fn draw_scalar(rng: &mut SmallRng) -> (r: i64)
    ensures
        0 <= r <= UNIT,
{
    draw_up_to(rng, UNIT as u64) as i64
}

/// A generator for one retry session: seeded by the operating system, or from a
/// fixed seed where the system has nothing to give.
pub fn session_rng() -> SmallRng {
    match rng_from_os() {
        Some(rng) => rng,
        None => rng_from_seed(0),
    }
}

} // verus!
