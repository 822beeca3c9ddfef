//! Lengths of the calendar units that candle intervals are built from, in
//! milliseconds.

use vstd::prelude::*;

verus! {

pub const MIN_MS: u64 = 60_000;

pub const HOUR_MS: u64 = 3_600_000;

pub const DAY_MS: u64 = 86_400_000;

pub const WEEK_MS: u64 = 604_800_000;

pub const YEAR_MS: u64 = 31_536_000_000;

/// Each unit is the stated multiple of the one below it.
pub proof fn lemma_time_units()
    ensures
        HOUR_MS == 60 * MIN_MS,
        DAY_MS == 24 * HOUR_MS,
        WEEK_MS == 7 * DAY_MS,
        YEAR_MS == 365 * DAY_MS,
{
}

} // verus!
