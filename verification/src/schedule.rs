//! Per-event decisions of the dispatcher and the workers: priority routing,
//! degraded-mode shedding and the end-to-end deadline.
use crate::event::Priority;
use vstd::prelude::*;

verus! {

/// End-to-end deadline of an event, in microseconds.
pub const DEADLINE_US: u64 = 2_000;

/// Simulated processing time per event, in microseconds.
pub const PROCESSING_US: u64 = 100;

/// Where the dispatcher sends one dequeued payload.
#[derive(Debug, Clone, Copy, PartialEq, Eq, Structural)]
pub enum Route {
    /// The payload did not parse as an event: skip it.
    Unparsed,
    /// A bot event while degraded: shed it.
    ShedBot,
    /// To the high-priority channel.
    Human,
    /// To the low-priority channel.
    Bot,
}

/// The routing decision for a payload whose parse gave `parsed`.
pub open spec fn route_spec(parsed: Option<Priority>, degraded: bool) -> Route {
    match parsed {
        None => Route::Unparsed,
        Some(Priority::Human) => Route::Human,
        Some(Priority::Bot) => if degraded { Route::ShedBot } else { Route::Bot },
    }
}

/// Routes one payload: human events always go to the human channel, bot
/// events to the bot channel unless the pipeline is degraded, in which case
/// they are shed.
pub fn route(parsed: Option<Priority>, degraded: bool) -> (r: Route)
    ensures
        r == route_spec(parsed, degraded),
{
    match parsed {
        None => Route::Unparsed,
        Some(Priority::Human) => Route::Human,
        Some(Priority::Bot) => if degraded {
            Route::ShedBot
        } else {
            Route::Bot
        },
    }
}

/// Degraded mode never sheds a human event, and sheds every bot event.
pub proof fn law_humans_never_shed(parsed: Option<Priority>, degraded: bool)
    ensures
        parsed == Some(Priority::Human) ==> route_spec(parsed, degraded) == Route::Human,
        route_spec(parsed, degraded) == Route::ShedBot <==> (parsed == Some(Priority::Bot) && degraded),
{
}

/// Whether a worker records a processed event on the leaderboard: in
/// degraded mode leaderboard updates are skipped to shed load.
pub fn records_leaderboard(degraded: bool) -> (r: bool)
    ensures
        r == !degraded,
{
    !degraded
}

/// Microseconds from clock reading `from` to clock reading `to`; zero when
/// `to` is earlier.
pub fn elapsed_us(from: u64, to: u64) -> (r: u64)
    ensures
        r == (if to >= from { to - from } else { 0 }),
{
    if to >= from {
        to - from
    } else {
        0
    }
}

/// The outcome of processing one event.
#[derive(Debug, Clone, Copy, PartialEq, Eq, Structural)]
pub struct Completion {
    /// Microseconds from ingestion to completion.
    pub e2e_us: u64,
    /// The event finished later than the deadline.
    pub deadline_missed: bool,
}

/// The outcome of an event ingested at `ingest_us` and completed at
/// `complete_us`: it misses its deadline when it took more than 2000 µs.
pub fn complete(ingest_us: u64, complete_us: u64) -> (c: Completion)
    ensures
        c.e2e_us == (if complete_us >= ingest_us { complete_us - ingest_us } else { 0 }),
        c.deadline_missed == (c.e2e_us > DEADLINE_US),
{
    let e2e = elapsed_us(ingest_us, complete_us);
    Completion { e2e_us: e2e, deadline_missed: e2e > DEADLINE_US }
}

} // verus!
