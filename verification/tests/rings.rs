use rts_core::async_pipeline::ingestion::{
    mock_is_silent, silence_window, BoundedRing as AsyncRing, IngestionSession,
};
use rts_core::mock_stream::mock_interval_us;
use rts_core::threaded_pipeline::ingestion::BoundedRing as ThreadedRing;

fn item(s: &str, t: u64) -> (String, u64) {
    (s.to_string(), t)
}

#[test]
fn async_ring_drops_oldest_when_full() {
    let mut r = AsyncRing::new(2);
    assert!(!r.push(item("a", 1)));
    assert!(!r.push(item("b", 2)));
    assert!(r.push(item("c", 3)));
    assert_eq!(r.pop(), Some(item("b", 2)));
    assert_eq!(r.pop(), Some(item("c", 3)));
    assert_eq!(r.pop(), None);
}

#[test]
fn async_ring_of_zero_capacity_keeps_the_latest_item() {
    let mut r = AsyncRing::new(0);
    assert!(r.push(item("a", 1)));
    assert!(r.push(item("b", 2)));
    assert_eq!(r.pop(), Some(item("b", 2)));
    assert_eq!(r.pop(), None);
}

#[test]
fn threaded_ring_evicts_oldest_when_full() {
    let mut r = ThreadedRing::new(2);
    assert!(!r.push(item("a", 1)));
    assert!(!r.push(item("b", 2)));
    assert!(r.push(item("c", 3)));
    assert!(r.push(item("d", 4)));
    assert_eq!(r.pop(), Some(item("c", 3)));
    assert!(!r.push(item("e", 5)));
    assert_eq!(r.pop(), Some(item("d", 4)));
    assert_eq!(r.pop(), Some(item("e", 5)));
    assert_eq!(r.pop(), None);
}

#[test]
fn rings_keep_the_newest_items() {
    let mut a = AsyncRing::new(3);
    let mut t = ThreadedRing::new(3);
    let mut drops = 0;
    for i in 0..10u64 {
        let da = a.push(item("x", i));
        let dt = t.push(item("x", i));
        assert_eq!(da, dt);
        if da {
            drops += 1;
        }
    }
    assert_eq!(drops, 7);
    for i in 7..10u64 {
        assert_eq!(a.pop(), Some(item("x", i)));
        assert_eq!(t.pop(), Some(item("x", i)));
    }
}

#[test]
fn mock_interval_for_2000_events_per_second() {
    assert_eq!(mock_interval_us(2000), 500);
    assert_eq!(mock_interval_us(0), 1_000_000);
    assert_eq!(mock_interval_us(3), 333_333);
}

#[test]
fn async_session_backoff_doubles_to_thirty_and_resets_on_event() {
    let mut s = IngestionSession::new();
    let waits: Vec<u64> = (0..7).map(|_| s.on_disconnect()).collect();
    assert_eq!(waits, vec![1, 2, 4, 8, 16, 30, 30]);
    let plan = s.on_event(false, false);
    assert!(plan.forward && !plan.capture && !plan.capture_complete);
    assert_eq!(s.backoff_secs(), 1);
}

#[test]
fn async_session_captures_exactly_500_events() {
    let mut s = IngestionSession::new();
    let empty = s.on_event(true, true);
    assert!(!empty.forward && !empty.capture);
    let mut completes = 0;
    let mut captures = 0;
    for _ in 0..600 {
        let p = s.on_event(false, true);
        assert!(p.forward);
        if p.capture {
            captures += 1;
        }
        if p.capture_complete {
            completes += 1;
            assert_eq!(captures, 500);
        }
    }
    assert_eq!(captures, 500);
    assert_eq!(completes, 1);
}

#[test]
fn demo_silence_spans_25_to_38_seconds() {
    assert_eq!(silence_window(true), Some((25_000_000, 38_000_000)));
    assert_eq!(silence_window(false), None);
    let w = silence_window(true);
    assert!(!mock_is_silent(w, 24_999_999));
    assert!(mock_is_silent(w, 25_000_000));
    assert!(mock_is_silent(w, 37_999_999));
    assert!(!mock_is_silent(w, 38_000_000));
    assert!(!mock_is_silent(None, 30_000_000));
}
