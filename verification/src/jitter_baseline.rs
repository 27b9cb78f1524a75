//! OS scheduling jitter: how late a short sleep wakes up.
use vstd::prelude::*;

verus! {

/// OS scheduling jitter statistics measured by repeated short sleeps, in
/// microseconds of wake-up overshoot.
#[derive(Debug, Clone, Copy)]
pub struct OsJitterReport {
    /// Median overshoot.
    pub p50_us: u64,
    /// 90th-percentile overshoot.
    pub p90_us: u64,
    /// 99th-percentile overshoot; deadlines below it are unachievable on this
    /// OS and hardware.
    pub p99_us: u64,
    /// Worst observed overshoot.
    pub max_us: u64,
}

/// Requested sleep of one jitter sample, in microseconds.
pub const JITTER_SLEEP_US: u64 = 100;

/// Highest overshoot the jitter histogram tracks: 1 s.
pub const JITTER_MAX_US: u64 = 1_000_000;

/// How much longer than requested a sleep took: `elapsed - requested`, or 0
/// when it woke on time or early.
pub fn overshoot_us(elapsed_us: u64, requested_us: u64) -> (r: u64)
    ensures
        r == (if elapsed_us > requested_us { elapsed_us - requested_us } else { 0 }),
{
    if elapsed_us > requested_us {
        elapsed_us - requested_us
    } else {
        0
    }
}

} // verus!
