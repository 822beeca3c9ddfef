//! How long the steps of a generation took.

use std::time::{Duration, Instant};
use vstd::prelude::*;

verus! {

/// `std::time::Instant`, handed on as it is: nothing is known of a reading of
/// the clock.
#[verifier::external_type_specification]
#[verifier::external_body]
pub struct ExInstant(Instant);

/// `Instant::now`: the present reading of the clock. Nothing is claimed of
/// it.
#[verifier::external_body]
pub(crate) fn now() -> Instant {
    Instant::now()
}

/// `Instant::elapsed`: the time that has passed since the reading was taken.
/// Nothing is claimed of it.
#[verifier::external_body]
pub(crate) fn elapsed(since: &Instant) -> Duration {
    since.elapsed()
}

/// How long the steps that made a generation took by the clock.
#[derive(Clone, Copy, Debug)]
pub struct Timings {
    /// The breeding of the population from the one before it; nothing for
    /// the first population, which is not bred.
    pub breeding: Option<Duration>,
    /// The evaluation of the population.
    pub evaluation: Duration,
    /// The ranking of the population.
    pub ranking: Duration,
}

} // verus!
