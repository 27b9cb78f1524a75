use rts_core::failsafe::{FailSafe, ModeTransition};

#[test]
fn degrades_on_first_full_slow_window_and_recovers_after_streak() {
    let mut f = FailSafe::new();
    for i in 1..1000 {
        assert_eq!(f.observe(6_000), None, "sample {i}");
    }
    assert_eq!(f.observe(6_000), Some(ModeTransition::ToDegraded { p99_us: 6_000 }));
    assert!(f.is_degraded());
    // window now holds 1000 slow samples; feed fast ones
    let mut recovered_at = None;
    for k in 1..=2000u32 {
        if let Some(t) = f.observe(100) {
            assert_eq!(t, ModeTransition::ToNormal { p99_us: 100 });
            recovered_at = Some(k);
            break;
        }
    }
    // p99 drops below 3000 once at most 10 slow samples remain (k = 990);
    // the 500th such observation restores normal mode.
    assert_eq!(recovered_at, Some(990 + 499));
    assert!(!f.is_degraded());
}

#[test]
fn no_decision_before_the_window_is_full() {
    let mut f = FailSafe::new();
    for _ in 0..999 {
        assert_eq!(f.observe(1_000_000), None);
    }
    assert!(!f.is_degraded());
}

#[test]
fn p99_is_the_990th_smallest_sample() {
    let mut f = FailSafe::new();
    // 989 fast samples and 11 slow ones in shuffled order: index 989 is slow
    for i in 0..1000u64 {
        let v = if i % 90 == 7 && i / 90 < 11 { 9_000 + i } else { 10 };
        let t = f.observe(v);
        if i == 999 {
            assert_eq!(t, Some(ModeTransition::ToDegraded { p99_us: 9_007 }));
        }
    }
}

#[test]
fn slow_sample_while_degraded_resets_the_streak() {
    let mut f = FailSafe::new();
    for _ in 0..1000 {
        f.observe(10_000);
    }
    assert!(f.is_degraded());
    for _ in 0..990 {
        f.observe(1);
    }
    // 1 recovering observation so far; 400 more, then a slow burst
    for _ in 0..400 {
        assert_eq!(f.observe(1), None);
    }
    // the first ten burst samples still leave p99 at 1; the eleventh lifts it
    // to 4000, which ends the streak without restoring normal mode
    for _ in 0..11 {
        assert_eq!(f.observe(4_000), None);
    }
    assert!(f.is_degraded());
    // the burst leaves the window after 990 more samples; a fresh streak of
    // 500 is needed from there
    let mut recovered_at = None;
    for m in 1..=2000u32 {
        if f.observe(1).is_some() {
            recovered_at = Some(m);
            break;
        }
    }
    assert_eq!(recovered_at, Some(990 + 499));
}
