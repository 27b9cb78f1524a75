//! Fail-safe mode controller: a rolling window of end-to-end latencies whose
//! 99th percentile drives a hysteresis between normal and degraded mode.
use std::collections::VecDeque;
use vstd::prelude::*;
use vstd::relations::{sorted_by, total_ordering};
use vstd::seq_lib::lemma_sorted_unique;

verus! {

/// Number of most recent samples the controller looks at.
pub const WINDOW_LEN: usize = 1000;

/// Index of the 99th percentile in a sorted full window.
pub const P99_INDEX: usize = 989;

/// A full window whose p99 exceeds this many microseconds degrades the pipeline.
pub const DEGRADE_ABOVE_US: u64 = 5_000;

/// While degraded, a p99 below this many microseconds counts towards recovery.
pub const RECOVER_BELOW_US: u64 = 3_000;

/// Number of consecutive recovering observations that restore normal mode.
pub const RECOVERY_STREAK: u32 = 500;

/// A change of operating mode, with the p99 that caused it.
#[derive(Debug, Clone, Copy, PartialEq, Eq, Structural)]
pub enum ModeTransition {
    ToDegraded { p99_us: u64 },
    ToNormal { p99_us: u64 },
}

/// The abstract state of the controller.
pub struct FailSafeState {
    /// The retained samples, oldest first.
    pub window: Seq<u64>,
    pub degraded: bool,
    /// Consecutive full-window observations with p99 below the recovery bound
    /// while degraded.
    pub normal_streak: nat,
}

/// The natural order on samples.
pub open spec fn sample_le(a: u64, b: u64) -> bool {
    a <= b
}

/// The window after one more sample: the oldest is dropped once it is full.
pub open spec fn next_window(w: Seq<u64>, x: u64) -> Seq<u64> {
    if w.len() >= WINDOW_LEN {
        w.drop_first().push(x)
    } else {
        w.push(x)
    }
}

/// The 99th percentile of a full window: the element at index 989 of the
/// window sorted ascending.
pub open spec fn window_p99(w: Seq<u64>) -> u64 {
    w.sort_by(|a: u64, b: u64| sample_le(a, b))[P99_INDEX as int]
}

/// The mode decision taken on a full window with 99th percentile `p99`.
pub open spec fn decide(degraded: bool, streak: nat, p99: u64) -> (bool, nat, Option<ModeTransition>) {
    if !degraded && p99 > DEGRADE_ABOVE_US {
        (true, 0, Some(ModeTransition::ToDegraded { p99_us: p99 }))
    } else if degraded && p99 < RECOVER_BELOW_US {
        if streak + 1 >= RECOVERY_STREAK {
            (false, 0, Some(ModeTransition::ToNormal { p99_us: p99 }))
        } else {
            (true, streak + 1, None)
        }
    } else {
        (degraded, 0, None)
    }
}

/// One observation of the controller: the new state and the transition it
/// announces, if any.
pub open spec fn step(s: FailSafeState, x: u64) -> (FailSafeState, Option<ModeTransition>) {
    let w = next_window(s.window, x);
    if w.len() == WINDOW_LEN {
        let (d, k, t) = decide(s.degraded, s.normal_streak, window_p99(w));
        (FailSafeState { window: w, degraded: d, normal_streak: k }, t)
    } else {
        (FailSafeState { window: w, degraded: s.degraded, normal_streak: s.normal_streak }, None)
    }
}

/// The state after a series of observations.
pub open spec fn run(s: FailSafeState, xs: Seq<u64>) -> FailSafeState
    decreases xs.len(),
{
    if xs.len() == 0 {
        s
    } else {
        step(run(s, xs.drop_last()), xs.last()).0
    }
}

/// Well-formed abstract states: the window never exceeds its length and the
/// streak stays below the recovery threshold.
pub open spec fn state_wf(s: FailSafeState) -> bool {
    &&& s.window.len() <= WINDOW_LEN
    &&& s.normal_streak < RECOVERY_STREAK
}

/// The p99 of a full window is one of its samples.
pub proof fn law_p99_is_a_sample(w: Seq<u64>)
    requires
        w.len() == WINDOW_LEN,
    ensures
        w.contains(window_p99(w)),
{
    let leq = |a: u64, b: u64| sample_le(a, b);
    lemma_sample_le_total();
    w.lemma_sort_by_ensures(leq);
    let sorted = w.sort_by(leq);
    vstd::seq_lib::to_multiset_len(w);
    vstd::seq_lib::to_multiset_len(sorted);
    assert(sorted.contains(sorted[P99_INDEX as int]));
    vstd::seq_lib::to_multiset_contains(sorted, sorted[P99_INDEX as int]);
    vstd::seq_lib::to_multiset_contains(w, sorted[P99_INDEX as int]);
}

/// Number of samples no larger than `v`.
pub open spec fn count_at_most(s: Seq<u64>, v: u64) -> nat
    decreases s.len(),
{
    if s.len() == 0 {
        0
    } else {
        count_at_most(s.drop_last(), v) + if s.last() <= v { 1nat } else { 0nat }
    }
}

/// Number of samples no smaller than `v`.
pub open spec fn count_at_least(s: Seq<u64>, v: u64) -> nat
    decreases s.len(),
{
    if s.len() == 0 {
        0
    } else {
        count_at_least(s.drop_last(), v) + if s.last() >= v { 1nat } else { 0nat }
    }
}

proof fn lemma_count_split(s: Seq<u64>, k: int, v: u64)
    requires
        0 <= k <= s.len(),
    ensures
        count_at_most(s, v) == count_at_most(s.take(k), v) + count_at_most(s.skip(k), v),
        count_at_least(s, v) == count_at_least(s.take(k), v) + count_at_least(s.skip(k), v),
    decreases s.len(),
{
    if k == s.len() {
        assert(s.take(k) =~= s);
        assert(s.skip(k) =~= Seq::<u64>::empty());
    } else {
        let p = s.drop_last();
        lemma_count_split(p, k, v);
        assert(p.take(k) =~= s.take(k));
        assert(s.skip(k).drop_last() =~= p.skip(k));
        assert(s.skip(k).last() == s.last());
    }
}

proof fn lemma_count_bounded_by(s: Seq<u64>, v: u64)
    ensures
        (forall|i: int| 0 <= i < s.len() ==> s[i] <= v) ==> count_at_most(s, v) == s.len(),
        (forall|i: int| 0 <= i < s.len() ==> s[i] >= v) ==> count_at_least(s, v) == s.len(),
    decreases s.len(),
{
    if s.len() > 0 {
        let p = s.drop_last();
        lemma_count_bounded_by(p, v);
        assert forall|i: int| 0 <= i < p.len() implies p[i] == s[i] by {}
    }
}

proof fn lemma_count_remove(t: Seq<u64>, j: int, v: u64)
    requires
        0 <= j < t.len(),
    ensures
        count_at_most(t, v) == count_at_most(t.remove(j), v) + if t[j] <= v { 1nat } else { 0nat },
        count_at_least(t, v) == count_at_least(t.remove(j), v) + if t[j] >= v { 1nat } else { 0nat },
    decreases t.len(),
{
    if j == t.len() - 1 {
        assert(t.remove(j) =~= t.drop_last());
    } else {
        lemma_count_remove(t.drop_last(), j, v);
        assert(t.remove(j).drop_last() =~= t.drop_last().remove(j));
        assert(t.remove(j).last() == t.last());
    }
}

/// Counting is blind to order: permutations have the same counts.
proof fn lemma_count_permutation(s: Seq<u64>, t: Seq<u64>, v: u64)
    requires
        s.to_multiset() == t.to_multiset(),
    ensures
        count_at_most(s, v) == count_at_most(t, v),
        count_at_least(s, v) == count_at_least(t, v),
    decreases s.len(),
{
    vstd::seq_lib::to_multiset_len(s);
    vstd::seq_lib::to_multiset_len(t);
    if s.len() > 0 {
        let x = s.last();
        let p = s.drop_last();
        vstd::seq_lib::to_multiset_contains(s, x);
        assert(s.contains(x)) by {
            assert(s[s.len() - 1] == x);
        }
        vstd::seq_lib::to_multiset_contains(t, x);
        let j = choose|j: int| 0 <= j < t.len() && t[j] == x;
        let q = t.remove(j);
        assert(s =~= p.push(x));
        vstd::seq_lib::to_multiset_build(p, x);
        vstd::seq_lib::to_multiset_remove(t, j);
        assert(p.to_multiset() =~= q.to_multiset()) by {
            broadcast use vstd::multiset::group_multiset_axioms;

            assert(p.to_multiset().insert(x).remove(x) =~= p.to_multiset());
        }
        lemma_count_permutation(p, q, v);
        lemma_count_remove(t, j, v);
    }
}

/// The p99 of a full window is its 99th percentile: at least 990 of the 1000
/// samples are no larger than it, and at least 11 are no smaller.
pub proof fn law_p99_is_99th_percentile(w: Seq<u64>)
    requires
        w.len() == WINDOW_LEN,
    ensures
        count_at_most(w, window_p99(w)) >= 990,
        count_at_least(w, window_p99(w)) >= 11,
{
    let leq = |a: u64, b: u64| sample_le(a, b);
    lemma_sample_le_total();
    w.lemma_sort_by_ensures(leq);
    let t = w.sort_by(leq);
    vstd::seq_lib::to_multiset_len(w);
    vstd::seq_lib::to_multiset_len(t);
    let p = t[P99_INDEX as int];
    lemma_count_permutation(w, t, p);
    lemma_count_split(t, 990, p);
    let head = t.take(990);
    let tail = t.skip(989);
    assert forall|i: int| 0 <= i < head.len() implies head[i] <= p by {
        assert(leq(t[i], t[P99_INDEX as int]) || i == P99_INDEX);
    }
    lemma_count_bounded_by(head, p);
    lemma_count_split(t, 989, p);
    assert forall|i: int| 0 <= i < tail.len() implies tail[i] >= p by {
        assert(leq(t[P99_INDEX as int], t[i + 989]) || i == 0);
    }
    lemma_count_bounded_by(tail, p);
}

proof fn lemma_count_monotone(s: Seq<u64>, a: u64, b: u64)
    requires
        a <= b,
    ensures
        count_at_most(s, a) <= count_at_most(s, b),
        count_at_least(s, b) <= count_at_least(s, a),
    decreases s.len(),
{
    if s.len() > 0 {
        lemma_count_monotone(s.drop_last(), a, b);
    }
}

proof fn lemma_count_complement(s: Seq<u64>, v: u64)
    requires
        v < u64::MAX,
    ensures
        count_at_most(s, v) + count_at_least(s, (v + 1) as u64) == s.len(),
    decreases s.len(),
{
    if s.len() > 0 {
        lemma_count_complement(s.drop_last(), v);
    }
}

/// The p99 of a full window is at most `v` exactly when at least 990 of its
/// 1000 samples are at most `v`.
pub proof fn law_p99_at_most_iff(w: Seq<u64>, v: u64)
    requires
        w.len() == WINDOW_LEN,
        v < u64::MAX,
    ensures
        window_p99(w) <= v <==> count_at_most(w, v) >= 990,
{
    let p = window_p99(w);
    law_p99_is_99th_percentile(w);
    lemma_count_complement(w, v);
    if p <= v {
        lemma_count_monotone(w, p, v);
    } else {
        lemma_count_monotone(w, (v + 1) as u64, p);
    }
}

/// In normal mode, an observation that fills the window degrades the
/// pipeline exactly when more than 10 of the 1000 samples (over 1%) exceed
/// 5000 µs, that is when the p99 exceeds 5000 µs; the transition reports that
/// p99, and otherwise nothing is announced.
pub proof fn law_normal_mode_degrades_on_slow_window(s: FailSafeState, x: u64)
    requires
        state_wf(s),
        !s.degraded,
        next_window(s.window, x).len() == WINDOW_LEN,
    ensures
        ({
            let w = next_window(s.window, x);
            let slow = count_at_least(w, (DEGRADE_ABOVE_US + 1) as u64) > 10;
            &&& slow <==> window_p99(w) > DEGRADE_ABOVE_US
            &&& step(s, x).0.degraded <==> slow
            &&& slow ==> step(s, x).1 == Some(ModeTransition::ToDegraded { p99_us: window_p99(w) })
            &&& !slow ==> step(s, x).1 is None
            &&& step(s, x).0.normal_streak == 0
            &&& step(s, x).0.window == w
        }),
{
    let w = next_window(s.window, x);
    law_p99_at_most_iff(w, DEGRADE_ABOVE_US);
    lemma_count_complement(w, DEGRADE_ABOVE_US);
}

/// In degraded mode, an observation that fills the window counts towards
/// recovery exactly when at least 990 of the 1000 samples are below 3000 µs
/// (the p99 is below 3000 µs): the streak grows by one, and the 500th such
/// observation in a row restores normal mode, reporting the p99.  Any other
/// full-window observation keeps the pipeline degraded and restarts the
/// streak.
pub proof fn law_degraded_mode_recovers_on_fast_streak(s: FailSafeState, x: u64)
    requires
        state_wf(s),
        s.degraded,
        next_window(s.window, x).len() == WINDOW_LEN,
    ensures
        ({
            let w = next_window(s.window, x);
            let fast = count_at_most(w, (RECOVER_BELOW_US - 1) as u64) >= 990;
            &&& fast <==> window_p99(w) < RECOVER_BELOW_US
            &&& fast && s.normal_streak + 1 < RECOVERY_STREAK ==> {
                &&& step(s, x).0.degraded
                &&& step(s, x).0.normal_streak == s.normal_streak + 1
                &&& step(s, x).1 is None
            }
            &&& fast && s.normal_streak + 1 == RECOVERY_STREAK ==> {
                &&& !step(s, x).0.degraded
                &&& step(s, x).0.normal_streak == 0
                &&& step(s, x).1 == Some(ModeTransition::ToNormal { p99_us: window_p99(w) })
            }
            &&& !fast ==> {
                &&& step(s, x).0.degraded
                &&& step(s, x).0.normal_streak == 0
                &&& step(s, x).1 is None
            }
            &&& step(s, x).0.window == w
        }),
{
    let w = next_window(s.window, x);
    law_p99_at_most_iff(w, (RECOVER_BELOW_US - 1) as u64);
}

/// The window holds the most recent samples: after an observation it ends
/// with the new sample, the samples before it are the newest of the old
/// window in their order, and it never holds more than 1000.
pub proof fn law_window_keeps_newest(s: FailSafeState, x: u64)
    requires
        state_wf(s),
    ensures
        ({
            let w = next_window(s.window, x);
            let keep = if s.window.len() < WINDOW_LEN { s.window.len() as int } else { WINDOW_LEN - 1 };
            &&& w.len() == keep + 1
            &&& w.last() == x
            &&& w.drop_last() == s.window.skip(s.window.len() - keep)
            &&& w.len() <= WINDOW_LEN
        }),
{
    let w = next_window(s.window, x);
    if s.window.len() >= WINDOW_LEN {
        assert(w.drop_last() =~= s.window.skip(1));
    } else {
        assert(w.drop_last() =~= s.window.skip(0));
    }
}

/// Every observation keeps the controller well formed.
pub proof fn law_step_keeps_wf(s: FailSafeState, x: u64)
    requires
        state_wf(s),
    ensures
        state_wf(step(s, x).0),
{
}

/// No mode decision is taken until the window is full: before that, an
/// observation announces nothing and leaves the mode alone.
pub proof fn law_no_decision_before_full_window(s: FailSafeState, x: u64)
    requires
        state_wf(s),
        s.window.len() + 1 < WINDOW_LEN,
    ensures
        step(s, x).1 is None,
        step(s, x).0.degraded == s.degraded,
{
}

/// Transitions alternate: the pipeline degrades only from normal mode and only
/// on a full window whose p99 exceeds 5000 µs; it recovers only from degraded
/// mode, on a p99 below 3000 µs that completes a streak of 500.
pub proof fn law_transitions_alternate(s: FailSafeState, x: u64)
    requires
        state_wf(s),
    ensures
        step(s, x).1 matches Some(ModeTransition::ToDegraded { p99_us }) ==> {
            &&& !s.degraded
            &&& step(s, x).0.degraded
            &&& next_window(s.window, x).len() == WINDOW_LEN
            &&& p99_us == window_p99(next_window(s.window, x))
            &&& p99_us > DEGRADE_ABOVE_US
        },
        step(s, x).1 matches Some(ModeTransition::ToNormal { p99_us }) ==> {
            &&& s.degraded
            &&& !step(s, x).0.degraded
            &&& next_window(s.window, x).len() == WINDOW_LEN
            &&& p99_us == window_p99(next_window(s.window, x))
            &&& p99_us < RECOVER_BELOW_US
            &&& s.normal_streak + 1 == RECOVERY_STREAK
        },
        step(s, x).1 is None ==> step(s, x).0.degraded == s.degraded,
{
}

/// Recovery takes a full streak: from degraded mode with streak `k`, fewer than
/// `500 - k` further samples cannot restore normal mode, and the streak grows
/// by at most one per sample.
pub proof fn law_recovery_needs_streak(s: FailSafeState, xs: Seq<u64>)
    requires
        state_wf(s),
        s.degraded,
        s.normal_streak + xs.len() < RECOVERY_STREAK,
    ensures
        run(s, xs).degraded,
        run(s, xs).normal_streak <= s.normal_streak + xs.len(),
        state_wf(run(s, xs)),
    decreases xs.len(),
{
    if xs.len() > 0 {
        law_recovery_needs_streak(s, xs.drop_last());
    }
}

/// Rolling-window fail-safe controller.
pub struct FailSafe {
    rolling: VecDeque<u64>,
    degraded: bool,
    consecutive_normal: u32,
}

impl View for FailSafe {
    type V = FailSafeState;

    closed spec fn view(&self) -> FailSafeState {
        FailSafeState {
            window: self.rolling@,
            degraded: self.degraded,
            normal_streak: self.consecutive_normal as nat,
        }
    }
}

/// Sorts the samples ascending with `slice::sort_unstable`; std documents the
/// result as the same elements in non-decreasing order.
#[verifier::external_body]
fn sort_samples(v: &mut Vec<u64>)
    ensures
        final(v)@.to_multiset() == old(v)@.to_multiset(),
        sorted_by(final(v)@, |a: u64, b: u64| sample_le(a, b)),
{
    v.sort_unstable();
}

proof fn lemma_sample_le_total()
    ensures
        total_ordering(|a: u64, b: u64| sample_le(a, b)),
{
}

impl FailSafe {
    pub closed spec fn wf(&self) -> bool {
        state_wf(self@)
    }

    /// A controller in normal mode with an empty window.
    pub fn new() -> (f: FailSafe)
        ensures
            f.wf(),
            f@.window == Seq::<u64>::empty(),
            !f@.degraded,
            f@.normal_streak == 0,
    {
        FailSafe { rolling: VecDeque::with_capacity(WINDOW_LEN + 1), degraded: false, consecutive_normal: 0 }
    }

    /// Whether the controller currently holds the pipeline in degraded mode.
    pub fn is_degraded(&self) -> (d: bool)
        ensures
            d == self@.degraded,
    {
        self.degraded
    }

    /// The 99th percentile of the full window.
    fn rolling_p99(&self) -> (p: u64)
        requires
            self.rolling@.len() == WINDOW_LEN,
        ensures
            p == window_p99(self.rolling@),
    {
        let n = self.rolling.len();
        let mut sorted: Vec<u64> = Vec::with_capacity(n);
        let mut i: usize = 0;
        while i < n
            invariant
                n == self.rolling@.len(),
                i <= n,
                sorted@ == self.rolling@.subrange(0, i as int),
            decreases n - i,
        {
            sorted.push(self.rolling[i]);
            i = i + 1;
        }
        assert(sorted@ =~= self.rolling@);
        sort_samples(&mut sorted);
        proof {
            let leq = |a: u64, b: u64| sample_le(a, b);
            lemma_sample_le_total();
            self.rolling@.lemma_sort_by_ensures(leq);
            lemma_sorted_unique(sorted@, self.rolling@.sort_by(leq), leq);
            vstd::seq_lib::to_multiset_len(sorted@);
            vstd::seq_lib::to_multiset_len(self.rolling@);
        }
        sorted[P99_INDEX]
    }

    /// Records one end-to-end latency sample and applies the mode decision.
    ///
    /// Once the window holds 1000 samples, a p99 above 5000 µs in normal mode
    /// degrades the pipeline; in degraded mode, 500 consecutive observations
    /// with p99 below 3000 µs restore normal mode.
    pub fn observe(&mut self, e2e_us: u64) -> (t: Option<ModeTransition>)
        requires
            old(self).wf(),
        ensures
            final(self).wf(),
            (final(self)@, t) == step(old(self)@, e2e_us),
    {
        if self.rolling.len() >= WINDOW_LEN {
            self.rolling.pop_front();
        }
        self.rolling.push_back(e2e_us);
        proof {
            assert(self.rolling@ =~= next_window(old(self)@.window, e2e_us));
        }
        if self.rolling.len() == WINDOW_LEN {
            let p99 = self.rolling_p99();
            if !self.degraded && p99 > DEGRADE_ABOVE_US {
                self.degraded = true;
                self.consecutive_normal = 0;
                Some(ModeTransition::ToDegraded { p99_us: p99 })
            } else if self.degraded && p99 < RECOVER_BELOW_US {
                self.consecutive_normal = self.consecutive_normal + 1;
                if self.consecutive_normal >= RECOVERY_STREAK {
                    self.degraded = false;
                    self.consecutive_normal = 0;
                    Some(ModeTransition::ToNormal { p99_us: p99 })
                } else {
                    None
                }
            } else {
                self.consecutive_normal = 0;
                None
            }
        } else {
            None
        }
    }
}

} // verus!
