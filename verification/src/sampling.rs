//! The source of randomness behind anti-aliasing jitter and rough surfaces.
//!
//! Samples are drawn on a grid: the unit interval is cut into `PRECISION`
//! equal steps, and a sample is the number of steps from zero.

use rand::Rng;
use vstd::prelude::*;

verus! {

/// The number of steps into which the unit interval is cut.
pub const PRECISION: i32 = 10000;

/// Calls `rand::Rng::gen_range` on the generator that `rand::thread_rng`
/// hands out, with the half-open range from zero to `bound`. rand panics on
/// an empty range, which the precondition excludes, and otherwise returns a
/// member of the range. Which member is left open: only the range is claimed,
/// and nothing about how the members are spread. The generator itself
/// panics where the operating system gives it no seed; no argument decides that.
#[verifier::external_body]
fn uniform_below(bound: i32) -> (n: i32)
    requires
        0 < bound,
    ensures
        0 <= n < bound,
{
    rand::thread_rng().gen_range(0..bound)
}

/// A random sample from the unit interval with zero and without one, as a
/// count of steps: the sample is the result divided by `PRECISION`.
pub fn random_from_0_to_1() -> (steps: i32)
    ensures
        0 <= steps < PRECISION,
{
    uniform_below(PRECISION)
}

} // verus!
