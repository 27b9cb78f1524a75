//! Ingestion stage of the asynchronous pipeline: the bounded ring it fills and
//! the per-connection bookkeeping of the SSE reader.
use crate::backoff::{double_backoff, next_backoff, INITIAL_BACKOFF_SECS, MAX_BACKOFF_SECS};
use crate::ring::ring_push;
use crate::stress::window_contains;
use std::collections::VecDeque;
use vstd::prelude::*;

verus! {

/// Where to read events from, how large the ring is, and where to capture a
/// sample of the raw stream.
pub struct IngestionConfig {
    pub sse_url: String,
    pub capacity: usize,
    pub capture_path: Option<String>,
}

/// Bounded ring shared between the ingestion task (producer) and the
/// dispatcher (consumer); items are raw payloads with their ingest timestamp
/// in microseconds.  When the ring is full, the oldest item is discarded to
/// make room for the incoming one.
pub struct BoundedRing {
    inner: VecDeque<(String, u64)>,
    capacity: usize,
}

impl View for BoundedRing {
    type V = Seq<(String, u64)>;

    closed spec fn view(&self) -> Seq<(String, u64)> {
        self.inner@
    }
}

impl BoundedRing {
    /// The capacity the ring was made with.
    pub closed spec fn cap(&self) -> nat {
        self.capacity as nat
    }

    /// An empty ring of the given capacity.
    pub fn new(capacity: usize) -> (r: Self)
        ensures
            r@ == Seq::<(String, u64)>::empty(),
            r.cap() == capacity,
    {
        BoundedRing { inner: VecDeque::with_capacity(capacity), capacity }
    }

    /// Pushes an item.  Returns `true` if the ring was full, in which case the
    /// oldest item was dropped to make room.
    pub fn push(&mut self, item: (String, u64)) -> (dropped: bool)
        ensures
            (final(self)@, dropped) == ring_push(old(self)@, old(self).cap(), item),
            final(self).cap() == old(self).cap(),
    {
        let dropped = if self.inner.len() >= self.capacity {
            self.inner.pop_front();
            true
        } else {
            false
        };
        self.inner.push_back(item);
        proof {
            if dropped {
                assert(self.inner@ =~= old(self)@.skip(if old(self)@.len() > 0 { 1 } else { 0 }).push(item));
            }
        }
        dropped
    }

    /// Pops the oldest item, or `None` if the ring is empty.
    pub fn pop(&mut self) -> (r: Option<(String, u64)>)
        ensures
            match r {
                Some(x) => old(self)@.len() > 0 && x == old(self)@[0] && final(self)@ == old(self)@.drop_first(),
                None => old(self)@.len() == 0 && final(self)@ == old(self)@,
            },
            final(self).cap() == old(self).cap(),
    {
        let r = self.inner.pop_front();
        proof {
            if r is Some {
                assert(self.inner@ =~= old(self)@.drop_first());
            }
        }
        r
    }
}

/// Most raw events written to the capture file.
pub const CAPTURE_LIMIT: usize = 500;

/// What to do with one event received from the stream.
#[derive(Debug, Clone, Copy, PartialEq, Eq, Structural)]
pub struct EventPlan {
    /// Hand the payload to the ring.
    pub forward: bool,
    /// Write the payload to the capture file.
    pub capture: bool,
    /// This write completes the sample: flush the capture file.
    pub capture_complete: bool,
}

/// Reconnect back-off and capture progress of the SSE reader.
pub struct IngestionSession {
    backoff_secs: u64,
    captured: usize,
}

impl IngestionSession {
    pub closed spec fn backoff(&self) -> u64 {
        self.backoff_secs
    }

    pub closed spec fn captured_count(&self) -> nat {
        self.captured as nat
    }

    pub open spec fn wf(&self) -> bool {
        &&& 1 <= self.backoff() <= MAX_BACKOFF_SECS
        &&& self.captured_count() <= CAPTURE_LIMIT
    }

    /// A session before the first connection: back-off 1 s, nothing captured.
    pub fn new() -> (s: Self)
        ensures
            s.wf(),
            s.backoff() == INITIAL_BACKOFF_SECS,
            s.captured_count() == 0,
    {
        IngestionSession { backoff_secs: INITIAL_BACKOFF_SECS, captured: 0 }
    }

    /// The current back-off, in seconds.
    pub fn backoff_secs(&self) -> (b: u64)
        ensures
            b == self.backoff(),
    {
        self.backoff_secs
    }

    /// The connection attempt failed, or the stream errored, ended or went
    /// silent: returns how long to wait before reconnecting and doubles the
    /// back-off, up to 30 s.
    pub fn on_disconnect(&mut self) -> (wait_secs: u64)
        requires
            old(self).wf(),
        ensures
            final(self).wf(),
            wait_secs == old(self).backoff(),
            final(self).backoff() == next_backoff(old(self).backoff()),
            final(self).captured_count() == old(self).captured_count(),
    {
        let wait = self.backoff_secs;
        self.backoff_secs = double_backoff(wait);
        wait
    }

    /// An event arrived: the connection is healthy again, so the back-off is
    /// reset; a non-empty payload is forwarded, and captured while fewer than
    /// 500 have been and a capture file is open.
    pub fn on_event(&mut self, data_is_empty: bool, capture_open: bool) -> (plan: EventPlan)
        requires
            old(self).wf(),
        ensures
            final(self).wf(),
            final(self).backoff() == INITIAL_BACKOFF_SECS,
            plan.forward == !data_is_empty,
            plan.capture == (!data_is_empty && capture_open && old(self).captured_count() < CAPTURE_LIMIT),
            final(self).captured_count() == old(self).captured_count() + if plan.capture { 1nat } else { 0nat },
            plan.capture_complete == (plan.capture && final(self).captured_count() == CAPTURE_LIMIT),
    {
        self.backoff_secs = INITIAL_BACKOFF_SECS;
        if data_is_empty {
            return EventPlan { forward: false, capture: false, capture_complete: false };
        }
        let capture = capture_open && self.captured < CAPTURE_LIMIT;
        if capture {
            self.captured = self.captured + 1;
        }
        EventPlan { forward: true, capture, capture_complete: capture && self.captured == CAPTURE_LIMIT }
    }
}

/// The stretch of a run during which the mock stream stays silent: 25 s to
/// 38 s after start (in microseconds) in a scripted demonstration, none
/// otherwise.
pub fn silence_window(demo: bool) -> (w: Option<(u64, u64)>)
    ensures
        demo ==> w == Some((25_000_000u64, 38_000_000u64)),
        !demo ==> w is None,
{
    if demo {
        Some((25_000_000, 38_000_000))
    } else {
        None
    }
}

/// Whether the mock stream is silent `elapsed_us` after start: inside the
/// silence window it produces no events.
pub fn mock_is_silent(silence: Option<(u64, u64)>, elapsed_us: u64) -> (r: bool)
    ensures
        r == window_contains(silence, elapsed_us),
{
    match silence {
        Some((start, end)) => start <= elapsed_us && elapsed_us < end,
        None => false,
    }
}

} // verus!
