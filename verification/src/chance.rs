//! The random draws the simulation is built on.
//!
//! Nothing in this file is proved: each item states, for one function of the
//! `rand` crate, what that crate documents of it. A draw depends on chance, so
//! a contract here says only what holds of every outcome.

use rand::rngs::ThreadRng;
use rand::seq::IteratorRandom;
use rand::Rng;
use vstd::prelude::*;

verus! {

/// `rand::rngs::ThreadRng`, the generator every draw is taken from. Its state
/// is hidden: no contract speaks of it.
#[verifier::external_type_specification]
#[verifier::external_body]
pub struct ExThreadRng(ThreadRng);

/// `rand::thread_rng`: a handle to the thread's generator. Nothing is claimed
/// of it. Its first call on a thread seeds the generator from the operating
/// system and panics if that gives no entropy, which no `requires` can rule
/// out.
pub assume_specification[ rand::thread_rng ]() -> (rng: ThreadRng);

/// `Rng::gen_range` on `low..high`: some value of the half-open range. The
/// call panics on an empty range, which `requires` leaves out.
#[verifier::external_body]
pub(crate) fn uniform(rng: &mut ThreadRng, low: u64, high: u64) -> (drawn: u64)
    requires
        low < high,
    ensures
        low <= drawn < high,
{
    rng.gen_range(low..high)
}

/// `Rng::gen_ratio`: `true` with probability `numerator / denominator`. The
/// crate documents two certain cases, a numerator of zero and one equal to
/// the denominator; between them nothing holds of a single draw. The call
/// panics on a zero denominator and on a numerator above it.
#[verifier::external_body]
pub(crate) fn ratio(rng: &mut ThreadRng, numerator: u32, denominator: u32) -> (hit: bool)
    requires
        0 < denominator,
        numerator <= denominator,
    ensures
        numerator == 0 ==> !hit,
        numerator == denominator ==> hit,
{
    rng.gen_ratio(numerator, denominator)
}

/// `IteratorRandom::choose` on the range `0..count`: one of its items, and
/// `None` exactly when the range is empty.
#[verifier::external_body]
pub(crate) fn pick_below(rng: &mut ThreadRng, count: usize) -> (picked: Option<usize>)
    ensures
        picked is None <==> count == 0,
        picked matches Some(index) ==> index < count,
{
    (0..count).choose(rng)
}

} // verus!
