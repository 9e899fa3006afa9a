//! Trusted boundary to the random-number generator and the clock.
//!
//! The automaton owns a seeded generator; construction seeds it from the
//! wall clock. Nothing is assumed of a random draw beyond its range, and
//! nothing at all of the clock.

use vstd::prelude::*;

verus! {

#[verifier::external_type_specification]
#[verifier::external_body]
pub struct ExRng(fastrand::Rng);

/// Relies on fastrand::Rng::with_seed: builds a generator from the seed.
#[verifier::external_body]
pub(crate) fn rng_from_seed(seed: u64) -> fastrand::Rng {
    fastrand::Rng::with_seed(seed)
}

/// Relies on fastrand::Rng::usize: a draw from the range `..n` lies below
/// `n`; the call panics only on an empty range, which `n > 0` rules out.
#[verifier::external_body]
pub(crate) fn rng_below(rng: &mut fastrand::Rng, n: usize) -> (r: usize)
    requires
        n > 0,
    ensures
        r < n,
{
    rng.usize(..n)
}

/// Relies on fastrand::Rng::bool: a random draw, of which nothing is
/// assumed.
#[verifier::external_body]
pub(crate) fn rng_bool(rng: &mut fastrand::Rng) -> bool {
    rng.bool()
}

/// Relies on web_time::SystemTime::now (std::time outside the browser):
/// milliseconds since the Unix epoch, truncated to 64 bits, or 1000 when the
/// clock reads earlier than the epoch. Nothing is assumed of the value.
#[verifier::external_body]
pub(crate) fn now_millis() -> u64 {
    web_time::SystemTime::now()
        .duration_since(web_time::UNIX_EPOCH)
        .unwrap_or(web_time::Duration::new(1, 0))
        .as_millis() as u64
}

} // verus!
