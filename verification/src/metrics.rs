//! Latency histograms, per-event latency samples and a shared event counter.
use crate::schedule::elapsed_us;
use hdrhistogram::{CreationError, Histogram, RecordError};
use std::sync::atomic::{AtomicU64, Ordering};
use vstd::prelude::*;

verus! {

/// An hdrhistogram `Histogram<u64>`; the library reads it only through the
/// names and wrappers below.
#[verifier::external_body]
pub struct SampleHistogram {
    pub hdr: Histogram<u64>,
}

#[verifier::external_type_specification]
#[verifier::external_body]
pub struct ExCreationError(CreationError);

#[verifier::external_type_specification]
#[verifier::external_body]
pub struct ExRecordError(RecordError);

/// The number of samples a histogram has recorded (`Histogram::len`).
pub uninterp spec fn hist_len(h: SampleHistogram) -> nat;

/// The highest value a histogram tracks (`Histogram::high`).
pub uninterp spec fn hist_high(h: SampleHistogram) -> u64;

/// The count a histogram holds at `value`: the number of samples recorded in
/// the bucket of values equivalent to it (`Histogram::count_at`).
pub uninterp spec fn hist_count_at(h: SampleHistogram, value: u64) -> u64;

/// Whether two values fall into the same bucket of a histogram, so that
/// samples of either are counted together (`Histogram::equivalent`).
pub uninterp spec fn hist_equivalent(h: SampleHistogram, a: u64, b: u64) -> bool;

/// A bucket count after one more sample, saturating at `u64::MAX`.
pub open spec fn bucket_plus_one(c: u64) -> u64 {
    if c < u64::MAX {
        (c + 1) as u64
    } else {
        u64::MAX
    }
}

/// `Histogram::new_with_max(high, sigfig)`: an empty histogram tracking
/// values from 1 to `high` with `sigfig` significant digits; it fails exactly
/// when `high` is below 2 (for `sigfig` at most 5, the other failure
/// conditions of the crate cannot arise).
#[verifier::external_body]
fn histogram_new_with_max(high: u64, sigfig: u8) -> (r: Result<SampleHistogram, CreationError>)
    requires
        sigfig <= 5,
    ensures
        r is Ok <==> high >= 2,
        r matches Ok(h) ==> hist_high(h) == high && hist_len(h) == 0,
        r matches Ok(h) ==> forall|w: u64| hist_count_at(h, w) == 0,
{
    Histogram::new_with_max(high, sigfig).map(|hdr| SampleHistogram { hdr })
}

/// `Histogram::high`.
#[verifier::external_body]
fn histogram_high(h: &SampleHistogram) -> (r: u64)
    ensures
        r == hist_high(*h),
{
    h.hdr.high()
}

/// `Histogram::len`.
#[verifier::external_body]
fn histogram_len(h: &SampleHistogram) -> (r: u64)
    ensures
        r == hist_len(*h),
{
    h.hdr.len()
}

/// `Histogram::count_at`.
#[verifier::external_body]
fn histogram_count_at(h: &SampleHistogram, value: u64) -> (r: u64)
    ensures
        r == hist_count_at(*h, value),
{
    h.hdr.count_at(value)
}

/// `Histogram::equivalent`.
#[verifier::external_body]
fn histogram_equivalent(h: &SampleHistogram, a: u64, b: u64) -> (r: bool)
    ensures
        r == hist_equivalent(*h, a, b),
{
    h.hdr.equivalent(a, b)
}

/// `Histogram::record`: a value no larger than the highest trackable one is
/// recorded.  The bucket of `value` gains one (saturating), every other
/// bucket up to the highest trackable value keeps its count, the sample
/// count goes up by one (saturating), and the bucket layout is unchanged.
#[verifier::external_body]
fn histogram_record(h: &mut SampleHistogram, value: u64) -> (r: Result<(), RecordError>)
    requires
        value <= hist_high(*old(h)),
    ensures
        r is Ok,
        hist_high(*final(h)) == hist_high(*old(h)),
        hist_len(*final(h)) == if hist_len(*old(h)) < u64::MAX { hist_len(*old(h)) + 1 } else { u64::MAX as nat },
        hist_equivalent(*old(h), value, value),
        forall|a: u64, b: u64| #[trigger] hist_equivalent(*final(h), a, b) == hist_equivalent(*old(h), a, b),
        forall|w: u64|
            w <= hist_high(*old(h)) ==> #[trigger] hist_count_at(*final(h), w) == if hist_equivalent(*old(h), value, w) {
                bucket_plus_one(hist_count_at(*old(h), w))
            } else {
                hist_count_at(*old(h), w)
            },
{
    h.hdr.record(value)
}

/// The sample count after one more sample, saturating at `u64::MAX`.
pub open spec fn one_more(n: nat) -> nat {
    if n < u64::MAX {
        n + 1
    } else {
        u64::MAX as nat
    }
}

/// The value a latency histogram records for `value_us`: the value itself, or
/// the highest trackable value `max_us` when it is larger.
pub open spec fn clamped(value_us: u64, max_us: u64) -> u64 {
    if value_us < max_us {
        value_us
    } else {
        max_us
    }
}

/// A latency histogram over microseconds that clamps values above its range
/// to the highest trackable value.
pub struct LatencyHistogram {
    inner: SampleHistogram,
}

/// `after` is `before` with one more sample of `v` (at most the highest
/// trackable value): the bucket of `v` gains one, the others are unchanged.
pub open spec fn records_sample(before: LatencyHistogram, after: LatencyHistogram, v: u64) -> bool {
    &&& after.max_us() == before.max_us()
    &&& after.count() == one_more(before.count())
    &&& before.same_bucket(v, v)
    &&& forall|a: u64, b: u64| #[trigger] after.same_bucket(a, b) == before.same_bucket(a, b)
    &&& forall|w: u64|
        w <= before.max_us() ==> #[trigger] after.count_at(w) == if before.same_bucket(v, w) {
            bucket_plus_one(before.count_at(w))
        } else {
            before.count_at(w)
        }
}

/// Clamping takes the smaller of the sample and the maximum: the recorded
/// value is at most both, and is one of them.  So a sample within range is
/// recorded as itself and a larger one as the maximum.
pub proof fn law_clamp_is_min(value_us: u64, max_us: u64)
    ensures
        clamped(value_us, max_us) <= value_us,
        clamped(value_us, max_us) <= max_us,
        clamped(value_us, max_us) == value_us || clamped(value_us, max_us) == max_us,
        value_us <= max_us ==> clamped(value_us, max_us) == value_us,
        value_us >= max_us ==> clamped(value_us, max_us) == max_us,
{
}

/// Recording a sample within range adds one to the count of its own bucket,
/// and leaves every bucket that does not hold it unchanged.
pub proof fn law_in_range_sample_counted(before: LatencyHistogram, after: LatencyHistogram, value_us: u64)
    requires
        records_sample(before, after, clamped(value_us, before.max_us())),
        value_us <= before.max_us(),
    ensures
        after.count_at(value_us) == bucket_plus_one(before.count_at(value_us)),
        forall|w: u64| w <= before.max_us() && !before.same_bucket(value_us, w) ==> #[trigger] after.count_at(w) == before.count_at(w),
        after.count() == one_more(before.count()),
{
    law_clamp_is_min(value_us, before.max_us());
}

impl LatencyHistogram {
    /// The highest trackable value.
    pub closed spec fn max_us(&self) -> u64 {
        hist_high(self.inner)
    }

    /// The number of samples recorded.
    pub closed spec fn count(&self) -> nat {
        hist_len(self.inner)
    }

    /// The number of samples recorded in the bucket of `value`.
    pub closed spec fn count_at(&self, value: u64) -> u64 {
        hist_count_at(self.inner, value)
    }

    /// Whether `a` and `b` share a bucket.
    pub closed spec fn same_bucket(&self, a: u64, b: u64) -> bool {
        hist_equivalent(self.inner, a, b)
    }

    /// An empty histogram tracking 1 to `max_us` microseconds with three
    /// significant digits; `max_us` must be at least 2.
    pub fn new(max_us: u64) -> (h: Self)
        requires
            max_us >= 2,
        ensures
            h.max_us() == max_us,
            h.count() == 0,
            forall|w: u64| #[trigger] h.count_at(w) == 0,
    {
        LatencyHistogram { inner: histogram_new_with_max(max_us, 3).unwrap() }
    }

    /// Records one sample, clamped to the highest trackable value.
    pub fn record(&mut self, value_us: u64)
        ensures
            records_sample(*old(self), *final(self), clamped(value_us, old(self).max_us())),
    {
        let cap = histogram_high(&self.inner);
        let v = if value_us < cap { value_us } else { cap };
        let _ = histogram_record(&mut self.inner, v);
    }

    /// The number of samples recorded.
    pub fn len(&self) -> (n: u64)
        ensures
            n == self.count(),
    {
        histogram_len(&self.inner)
    }

    /// The number of samples recorded in the bucket of `value`.
    pub fn count_at_value(&self, value: u64) -> (n: u64)
        ensures
            n == self.count_at(value),
    {
        histogram_count_at(&self.inner, value)
    }

    /// Whether samples of `a` and of `b` are counted in the same bucket.
    pub fn shares_bucket(&self, a: u64, b: u64) -> (r: bool)
        ensures
            r == self.same_bucket(a, b),
    {
        histogram_equivalent(&self.inner, a, b)
    }

    /// The underlying histogram, for percentile queries.
    pub fn histogram(&self) -> (h: &SampleHistogram)
        ensures
            hist_len(*h) == self.count(),
            hist_high(*h) == self.max_us(),
            forall|w: u64| hist_count_at(*h, w) == self.count_at(w),
    {
        &self.inner
    }
}

/// Percentile summary of a latency histogram, in microseconds.
#[derive(Debug, Clone, Copy)]
pub struct Percentiles {
    pub p50: u64,
    pub p90: u64,
    pub p99: u64,
    pub count: u64,
}

/// A monotonically increasing event counter shared between threads.
///
/// Its value lives in an atomic; no contract here speaks of it.
pub struct Counter(AtomicU64);

impl Counter {
    /// A counter at zero.
    pub fn new() -> Self {
        Counter(AtomicU64::new(0))
    }

    /// Adds one.
    pub fn inc(&self) {
        self.0.fetch_add(1, Ordering::Relaxed);
    }

    /// The current value.
    pub fn get(&self) -> u64 {
        self.0.load(Ordering::Relaxed)
    }
}

/// The timestamps of one processed event, in microseconds on the pipeline
/// clock.
#[derive(Debug, Clone, Copy)]
pub struct LatencySample {
    /// When the payload entered the ring.
    pub ingest_time: u64,
    /// When a worker took it off its channel.
    pub dequeue_time: u64,
    /// When the worker finished with it.
    pub complete_time: u64,
    /// When it was scheduled to start (its enqueue time).
    pub expected_start: u64,
    pub was_human: bool,
}

/// Microseconds between two clock readings, zero when `to` is earlier.
pub open spec fn span(from: u64, to: u64) -> u64 {
    if to >= from {
        (to - from) as u64
    } else {
        0
    }
}

/// Highest latency the aggregator tracks: 60 s.
pub const MAX_TRACKED_US: u64 = 60_000_000;

/// Six latency histograms: end-to-end latency, scheduling drift
/// (dequeue − expected start) and processing time (complete − dequeue), each
/// for human and for bot events.
pub struct HistogramAggregator {
    pub e2e_human: LatencyHistogram,
    pub e2e_bot: LatencyHistogram,
    pub drift_human: LatencyHistogram,
    pub drift_bot: LatencyHistogram,
    pub processing_human: LatencyHistogram,
    pub processing_bot: LatencyHistogram,
}

impl HistogramAggregator {
    /// Six empty histograms tracking up to 60 s.
    pub fn new() -> (a: Self)
        ensures
            a.e2e_human.count() == 0 && a.e2e_bot.count() == 0,
            a.drift_human.count() == 0 && a.drift_bot.count() == 0,
            a.processing_human.count() == 0 && a.processing_bot.count() == 0,
            a.e2e_human.max_us() == MAX_TRACKED_US && a.e2e_bot.max_us() == MAX_TRACKED_US,
            a.drift_human.max_us() == MAX_TRACKED_US && a.drift_bot.max_us() == MAX_TRACKED_US,
            a.processing_human.max_us() == MAX_TRACKED_US && a.processing_bot.max_us() == MAX_TRACKED_US,
            forall|w: u64| #[trigger] a.e2e_human.count_at(w) == 0 && a.e2e_bot.count_at(w) == 0,
            forall|w: u64| #[trigger] a.drift_human.count_at(w) == 0 && a.drift_bot.count_at(w) == 0,
            forall|w: u64| #[trigger] a.processing_human.count_at(w) == 0 && a.processing_bot.count_at(w) == 0,
    {
        HistogramAggregator {
            e2e_human: LatencyHistogram::new(MAX_TRACKED_US),
            e2e_bot: LatencyHistogram::new(MAX_TRACKED_US),
            drift_human: LatencyHistogram::new(MAX_TRACKED_US),
            drift_bot: LatencyHistogram::new(MAX_TRACKED_US),
            processing_human: LatencyHistogram::new(MAX_TRACKED_US),
            processing_bot: LatencyHistogram::new(MAX_TRACKED_US),
        }
    }

    /// Records one sample into the three histograms of its class: its
    /// end-to-end latency (ingest to completion), its scheduling drift
    /// (expected start to dequeue) and its processing time (dequeue to
    /// completion).  The other class is left alone.
    pub fn record(&mut self, s: &LatencySample)
        ensures
            s.was_human ==> {
                &&& records_sample(old(self).e2e_human, final(self).e2e_human, clamped(span(s.ingest_time, s.complete_time), old(self).e2e_human.max_us()))
                &&& records_sample(old(self).drift_human, final(self).drift_human, clamped(span(s.expected_start, s.dequeue_time), old(self).drift_human.max_us()))
                &&& records_sample(old(self).processing_human, final(self).processing_human, clamped(span(s.dequeue_time, s.complete_time), old(self).processing_human.max_us()))
                &&& final(self).e2e_bot == old(self).e2e_bot
                &&& final(self).drift_bot == old(self).drift_bot
                &&& final(self).processing_bot == old(self).processing_bot
            },
            !s.was_human ==> {
                &&& records_sample(old(self).e2e_bot, final(self).e2e_bot, clamped(span(s.ingest_time, s.complete_time), old(self).e2e_bot.max_us()))
                &&& records_sample(old(self).drift_bot, final(self).drift_bot, clamped(span(s.expected_start, s.dequeue_time), old(self).drift_bot.max_us()))
                &&& records_sample(old(self).processing_bot, final(self).processing_bot, clamped(span(s.dequeue_time, s.complete_time), old(self).processing_bot.max_us()))
                &&& final(self).e2e_human == old(self).e2e_human
                &&& final(self).drift_human == old(self).drift_human
                &&& final(self).processing_human == old(self).processing_human
            },
    {
        let e2e = elapsed_us(s.ingest_time, s.complete_time);
        let drift = elapsed_us(s.expected_start, s.dequeue_time);
        let processing = elapsed_us(s.dequeue_time, s.complete_time);
        if s.was_human {
            self.e2e_human.record(e2e);
            self.drift_human.record(drift);
            self.processing_human.record(processing);
        } else {
            self.e2e_bot.record(e2e);
            self.drift_bot.record(drift);
            self.processing_bot.record(processing);
        }
    }
}

} // verus!
