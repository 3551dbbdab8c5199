//! The random stream that palette construction and seeding draw from.
//!
//! The generator is `rand`'s and nothing here is proved of it. Each item
//! below states only what holds of every value the generator may hand out;
//! which value comes is left open, so whatever is proved of a function that
//! draws holds for every stream.

use rand::rngs::StdRng;
use rand::Rng;
use rand::SeedableRng;
use vstd::prelude::*;

verus! {

/// `rand::rngs::StdRng`, carried through the library as an opaque value.
#[verifier::external_type_specification]
#[verifier::external_body]
pub struct ExStdRng(StdRng);

/// Calls `SeedableRng::seed_from_u64` for `StdRng`. The generator that
/// comes back is opaque, so nothing is claimed of it.
#[verifier::external_body]
pub(crate) fn seeded_rng(seed: u64) -> StdRng {
    StdRng::seed_from_u64(seed)
}

/// Calls `Rng::gen_range` on the half-open range `low..high` of `usize`.
/// `gen_range` panics on an empty range, so the range must not be empty;
/// the value it returns lies in the range.
#[verifier::external_body]
pub(crate) fn gen_range_usize(rng: &mut StdRng, low: usize, high: usize) -> (drawn: usize)
    requires
        low < high,
    ensures
        low <= drawn < high,
{
    rng.gen_range(low..high)
}

/// Calls `Rng::gen_range` on the half-open range `low..high` of `u64`.
/// `gen_range` panics on an empty range, so the range must not be empty;
/// the value it returns lies in the range.
#[verifier::external_body]
pub(crate) fn gen_range_u64(rng: &mut StdRng, low: u64, high: u64) -> (drawn: u64)
    requires
        low < high,
    ensures
        low <= drawn < high,
{
    rng.gen_range(low..high)
}

/// Calls `Rng::gen_range` on the half-open range `low..high` of `i32`.
/// `gen_range` panics on an empty range, so the range must not be empty;
/// the value it returns lies in the range.
#[verifier::external_body]
pub(crate) fn gen_range_i32(rng: &mut StdRng, low: i32, high: i32) -> (drawn: i32)
    requires
        low < high,
    ensures
        low <= drawn < high,
{
    rng.gen_range(low..high)
}

} // verus!
