//! Record types of the pipelines' event log: the full event shape, timed
//! payloads and the structured records of deadline misses and ring overflows.
use vstd::prelude::*;

verus! {

/// A recent-changes event including its page sizes, borrowed from the raw
/// payload.
#[derive(Debug, Clone)]
pub struct WikiEvent<'a> {
    pub wiki: &'a str,
    pub title: &'a str,
    pub event_type: &'a str,
    pub bot: bool,
    pub timestamp: i64,
    pub user: &'a str,
    pub length: Option<LengthInfo>,
}

/// Sizes of a page after and before an edit, in bytes.
#[derive(Debug, Clone, Copy)]
pub struct LengthInfo {
    pub new: Option<u64>,
    pub old: Option<u64>,
}

/// A raw payload with its ingest time (microseconds on the pipeline clock)
/// and its priority.
#[derive(Debug, Clone)]
pub struct TimedEvent {
    pub raw: String,
    pub ingested_at: u64,
    pub priority: Priority,
}

/// Scheduling class of an event; `Bot < Human`, so sorting by priority puts
/// human edits last and a max-selection picks them first.
#[derive(Debug, Clone, Copy, PartialEq, Eq, PartialOrd, Ord, Structural)]
pub enum Priority {
    Bot,
    Human,
}

impl Priority {
    /// The class of an event whose `bot` flag is `bot`.
    pub fn from_bot_flag(bot: bool) -> (p: Priority)
        ensures
            p == (if bot { Priority::Bot } else { Priority::Human }),
    {
        if bot {
            Priority::Bot
        } else {
            Priority::Human
        }
    }
}

/// Log record of an event that finished after its deadline.
#[derive(Debug, Clone, Copy)]
pub struct DeadlineMissEvent {
    pub event_type: &'static str,
    pub elapsed_us: u64,
    pub deadline_us: u64,
    pub baseline_jitter_us: u64,
    pub priority: &'static str,
    pub timestamp_unix: u64,
}

/// Log record of a payload dropped because the ring was full.
#[derive(Debug, Clone, Copy)]
pub struct OverflowEvent {
    pub event_type: &'static str,
    pub dropped_at_unix: u64,
    pub queue_capacity: usize,
}

} // verus!
