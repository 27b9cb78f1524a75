//! Optional latency injection used by the scripted demonstration.
use std::sync::atomic::{AtomicU64, Ordering};
use std::sync::Arc;
use vstd::prelude::*;

verus! {

/// Controls optional latency injection: inside the window, every
/// `every_nth`-th processed packet spins for 3 ms.
///
/// Times are microseconds on the pipeline clock; the window is relative to
/// `program_start`.
pub struct StressConfig {
    /// Elapsed-time window during which injection is active; `None` disables
    /// injection.
    pub inject_window: Option<(u64, u64)>,
    /// Clock reading at pipeline start.
    pub program_start: u64,
    /// Injection hits every `every_nth`-th packet inside the window.
    pub every_nth: u64,
    /// Packet counter shared by all workers.
    pub counter: Arc<AtomicU64>,
}

/// Length of one injected spin, in microseconds.
pub const INJECTED_SPIN_US: u64 = 3_000;

/// Whether `t` lies inside the window `w`.
pub open spec fn window_contains(w: Option<(u64, u64)>, t: u64) -> bool {
    match w {
        Some((start, end)) => start <= t && t < end,
        None => false,
    }
}

/// Microseconds from `start` to `now`, zero when `now` is earlier.
pub open spec fn since(start: u64, now: u64) -> u64 {
    if now >= start {
        (now - start) as u64
    } else {
        0
    }
}

impl StressConfig {
    /// The demo schedule: every 20th packet between t = 15 s and t = 25 s
    /// after `program_start`.
    pub fn demo(program_start: u64) -> (c: Arc<Self>)
        ensures
            c.inject_window == Some((15_000_000u64, 25_000_000u64)),
            c.program_start == program_start,
            c.every_nth == 20,
    {
        Arc::new(StressConfig {
            inject_window: Some((15_000_000, 25_000_000)),
            program_start,
            every_nth: 20,
            counter: Arc::new(AtomicU64::new(0)),
        })
    }

    /// Injection permanently disabled.
    pub fn disabled() -> (c: Arc<Self>)
        ensures
            c.inject_window is None,
            c.program_start == 0,
            c.every_nth == 1,
    {
        Arc::new(StressConfig {
            inject_window: None,
            program_start: 0,
            every_nth: 1,
            counter: Arc::new(AtomicU64::new(0)),
        })
    }

    /// Whether `elapsed_us` after start lies inside the injection window.
    pub fn in_window(&self, elapsed_us: u64) -> (r: bool)
        ensures
            r == window_contains(self.inject_window, elapsed_us),
    {
        match self.inject_window {
            Some((start, end)) => start <= elapsed_us && elapsed_us < end,
            None => false,
        }
    }

    /// Whether the packet numbered `packet` (counting from 1 within the
    /// window) is hit: every `every_nth`-th one is.
    pub fn hits_packet(&self, packet: u64) -> (r: bool)
        requires
            self.every_nth > 0,
        ensures
            r == (packet % self.every_nth == 0),
    {
        packet % self.every_nth == 0
    }

    /// Decides whether the packet processed at clock reading `now_us` gets an
    /// injected spin.  Inside the window, the shared counter is advanced and
    /// its new value numbers this packet; the packet is hit when
    /// `hits_packet` says so for that number.  Outside the window the counter
    /// is left alone.  Returns the decision and the packet number drawn, if
    /// any; the counter is shared between workers, so which number it hands
    /// out is not stated here.
    pub fn should_inject(&self, now_us: u64) -> (r: (bool, Option<u64>))
        requires
            window_contains(self.inject_window, since(self.program_start, now_us)) ==> self.every_nth > 0,
        ensures
            r.1 is Some <==> window_contains(self.inject_window, since(self.program_start, now_us)),
            r.0 == match r.1 {
                Some(n) => n % self.every_nth == 0,
                None => false,
            },
    {
        let elapsed = if now_us >= self.program_start { now_us - self.program_start } else { 0 };
        if !self.in_window(elapsed) {
            return (false, None);
        }
        let n = self.counter.fetch_add(1, Ordering::Relaxed).wrapping_add(1);
        (self.hits_packet(n), Some(n))
    }
}

} // verus!
