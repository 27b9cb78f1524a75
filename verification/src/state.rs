//! Process-wide pipeline flags and counters, shared by every stage.
use std::sync::atomic::{AtomicBool, AtomicU64, Ordering};
use vstd::prelude::*;

verus! {

/// The degraded-mode flag and the event counters of a running pipeline.
///
/// The fields are atomics shared between tasks or threads; their values are
/// whatever the last stores left, so no contract here speaks of them.
pub struct PipelineState {
    pub degraded: AtomicBool,
    pub overflow_count: AtomicU64,
    pub deadline_miss_count: AtomicU64,
    pub events_ingested: AtomicU64,
}

impl PipelineState {
    /// Normal mode, all counters at zero.
    pub fn new() -> (s: Self) {
        PipelineState {
            degraded: AtomicBool::new(false),
            overflow_count: AtomicU64::new(0),
            deadline_miss_count: AtomicU64::new(0),
            events_ingested: AtomicU64::new(0),
        }
    }

    /// Whether the pipeline is in degraded mode.
    pub fn is_degraded(&self) -> bool {
        self.degraded.load(Ordering::Relaxed)
    }
}

} // verus!
