//! Random numbers, drawn from the outside xorshift generator.
//!
//! Nothing is assumed about which numbers come out beyond their range,
//! so everything proved about the callers holds for every outcome.

use vstd::prelude::*;

use bracket_random::prelude::RandomNumberGenerator;

verus! {

/// Declares the outside random-generator type to the verifier; its
/// values are opaque and carried through by reference.
#[verifier::external_type_specification]
#[verifier::external_body]
pub struct ExRandomNumberGenerator(RandomNumberGenerator);

/// A fresh generator seeded from process entropy.
/// Relies on bracket_random's `RandomNumberGenerator::new`.
#[verifier::external_body]
pub fn rng_new() -> RandomNumberGenerator {
    RandomNumberGenerator::new()
}

/// A generator with a fixed seed, for reproducible generation.
/// Relies on bracket_random's `RandomNumberGenerator::seeded`.
#[verifier::external_body]
pub fn rng_seeded(seed: u64) -> RandomNumberGenerator {
    RandomNumberGenerator::seeded(seed)
}

/// A number in `[min, max)`: inclusive of `min`, exclusive of `max`.
/// Relies on bracket_random's `RandomNumberGenerator::range`, which
/// draws uniformly from that half-open range and panics when it is
/// empty.
#[verifier::external_body]
pub fn rng_range(rng: &mut RandomNumberGenerator, min: i32, max: i32) -> (r: i32)
    requires
        min < max,
    ensures
        min <= r < max,
{
    rng.range(min, max)
}

/// A uniformly chosen index into a slice of the given length, or
/// nothing when the slice is empty.
pub fn random_slice_index(rng: &mut RandomNumberGenerator, len: usize) -> (r: Option<usize>)
    requires
        len <= i32::MAX,
    ensures
        len == 0 <==> r is None,
        r matches Some(i) ==> i < len,
{
    if len == 0 {
        None
    } else {
        Some(rng_range(rng, 0, len as i32) as usize)
    }
}

} // verus!
