//! The seeded pseudo-random generator, as far as the dungeon needs it.
//!
//! The generator itself is `rand`'s `StdRng`. Verus cannot look inside it, so
//! this module gives its state and each of its answers a name and states, as
//! trusted contracts, how the calls relate them. Nothing here is proved; the
//! rest of the crate is proved from it.

use rand::rngs::StdRng;
use rand::Rng;
use rand::SeedableRng;
use vstd::prelude::*;

verus! {

/// `rand`'s standard generator, made known to Verus as an opaque type.
#[verifier::external_type_specification]
#[verifier::external_body]
pub struct ExStdRng(StdRng);

/// The internal state of a generator: all that its future answers depend on.
pub uninterp spec fn rng_state(rng: StdRng) -> Seq<u8>;

/// The state in which `SeedableRng::seed_from_u64` leaves a fresh `StdRng`.
pub uninterp spec fn seeded_state(seed: u64) -> Seq<u8>;

/// What `Rng::gen_range(low..=high)`, sampling 64-bit integers, does from a
/// given state: the number it returns and the state it leaves behind.
pub uninterp spec fn uniform_draw(state: Seq<u8>, low: usize, high: usize) -> (usize, Seq<u8>);

/// What `Rng::gen_ratio(numerator, denominator)` does from a given state: the
/// answer it returns and the state it leaves behind.
pub uninterp spec fn ratio_draw(state: Seq<u8>, numerator: u32, denominator: u32) -> (
    bool,
    Seq<u8>,
);

/// Calls `StdRng::seed_from_u64`.
///
/// Trusted: the generator's state is a function of the seed alone. `rand`
/// expands the seed with a fixed PCG32 sequence and hands the resulting key to
/// ChaCha12; no clock and no other source of entropy enters.
#[verifier::external_body]
pub(crate) fn seeded_rng(seed: u64) -> (rng: StdRng)
    ensures
        rng_state(rng) == seeded_state(seed),
{
    StdRng::seed_from_u64(seed)
}

/// Calls `Rng::gen_range` on the inclusive range `low..=high`, sampled as
/// 64-bit integers so that every platform draws the same number.
///
/// Trusted: the call returns a number of the range, and both that number and
/// the state afterwards are functions of the state before and the two bounds.
/// `gen_range` panics on an empty range, which `requires` rules out.
#[verifier::external_body]
pub(crate) fn draw_in_range(rng: &mut StdRng, low: usize, high: usize) -> (value: usize)
    requires
        low <= high,
    ensures
        low <= value <= high,
        (value, rng_state(*final(rng))) == uniform_draw(rng_state(*old(rng)), low, high),
{
    rng.gen_range(low as u64..=high as u64) as usize
}

/// Calls `Rng::gen_ratio`.
///
/// Trusted: the answer and the state afterwards are functions of the state
/// before and the two arguments. `gen_ratio` panics when the denominator is
/// zero or smaller than the numerator, which `requires` rules out.
#[verifier::external_body]
pub(crate) fn draw_ratio(rng: &mut StdRng, numerator: u32, denominator: u32) -> (hit: bool)
    requires
        0 < denominator,
        numerator <= denominator,
    ensures
        (hit, rng_state(*final(rng))) == ratio_draw(
            rng_state(*old(rng)),
            numerator,
            denominator,
        ),
{
    rng.gen_ratio(numerator, denominator)
}

} // verus!
