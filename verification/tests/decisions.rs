use rts_core::allocator::AllocSnapshot;
use rts_core::backoff::{double_backoff, STALL_TIMEOUT_SECS};
use rts_core::compare::{p99_winner, winner_label, Winner};
use rts_core::event::{Priority, WikiEvent};
use rts_core::jitter_baseline::overshoot_us;
use rts_core::schedule::{complete, elapsed_us, route, Route};
use rts_core::state::PipelineState;
use rts_core::stress::StressConfig;
use rts_core::types;

fn event(bot: bool) -> WikiEvent<'static> {
    WikiEvent {
        user: "Alice",
        bot,
        server_name: "en.wikipedia.org",
        wiki: "enwiki",
        title: "Test Article",
        timestamp: Some(1_700_000_000),
        event_type: "edit",
    }
}

#[test]
fn priority_from_event_follows_bot_flag() {
    assert_eq!(Priority::from(&event(false)), Priority::Human);
    assert_eq!(Priority::from(&event(true)), Priority::Bot);
}

#[test]
fn typed_priority_from_bot_flag_and_order() {
    assert_eq!(types::Priority::from_bot_flag(true), types::Priority::Bot);
    assert_eq!(types::Priority::from_bot_flag(false), types::Priority::Human);
    assert!(types::Priority::Bot < types::Priority::Human);
}

#[test]
fn routing_sheds_only_bots_in_degraded_mode() {
    assert_eq!(route(None, false), Route::Unparsed);
    assert_eq!(route(None, true), Route::Unparsed);
    assert_eq!(route(Some(Priority::Human), false), Route::Human);
    assert_eq!(route(Some(Priority::Human), true), Route::Human);
    assert_eq!(route(Some(Priority::Bot), false), Route::Bot);
    assert_eq!(route(Some(Priority::Bot), true), Route::ShedBot);
}

#[test]
fn deadline_is_missed_only_beyond_2000_us() {
    let c = complete(1_000, 3_000);
    assert_eq!(c.e2e_us, 2_000);
    assert!(!c.deadline_missed);
    let c = complete(1_000, 3_001);
    assert_eq!(c.e2e_us, 2_001);
    assert!(c.deadline_missed);
    let c = complete(5_000, 4_000);
    assert_eq!(c.e2e_us, 0);
    assert!(!c.deadline_missed);
    assert_eq!(elapsed_us(10, 15), 5);
}

#[test]
fn backoff_doubles_and_caps() {
    assert_eq!(double_backoff(1), 2);
    assert_eq!(double_backoff(16), 30);
    assert_eq!(double_backoff(30), 30);
    assert_eq!(double_backoff(14), 28);
    assert_eq!(double_backoff(15), 30);
    assert_eq!(STALL_TIMEOUT_SECS, 10);
}

#[test]
fn snapshot_difference_wraps() {
    let a = AllocSnapshot { alloc_count: 10, alloc_bytes: 100, dealloc_count: 3, dealloc_bytes: 30 };
    let b = AllocSnapshot { alloc_count: 4, alloc_bytes: 40, dealloc_count: 3, dealloc_bytes: 31 };
    let d = a - b;
    assert_eq!(d.alloc_count, 6);
    assert_eq!(d.alloc_bytes, 60);
    assert_eq!(d.dealloc_count, 0);
    assert_eq!(d.dealloc_bytes, usize::MAX);
    let wrapped = AllocSnapshot { alloc_count: 2, ..AllocSnapshot::default() };
    let before = AllocSnapshot { alloc_count: usize::MAX - 2, ..AllocSnapshot::default() };
    assert_eq!((wrapped - before).alloc_count, 5);
}

#[test]
fn overshoot_is_saturating() {
    assert_eq!(overshoot_us(350, 100), 250);
    assert_eq!(overshoot_us(100, 100), 0);
    assert_eq!(overshoot_us(20, 100), 0);
}

#[test]
fn comparison_verdicts() {
    assert_eq!(p99_winner(Some(5), Some(9)), Winner::Async);
    assert_eq!(p99_winner(Some(9), Some(5)), Winner::Threaded);
    assert_eq!(p99_winner(Some(7), Some(7)), Winner::Tie);
    assert_eq!(p99_winner(None, Some(7)), Winner::NotAvailable);
    assert_eq!(winner_label(Winner::Tie), "Tie");
    assert_eq!(winner_label(Winner::NotAvailable), "N/A");
}

#[test]
fn stress_configs() {
    let demo = StressConfig::demo(0);
    assert_eq!(demo.inject_window, Some((15_000_000, 25_000_000)));
    assert_eq!(demo.every_nth, 20);
    assert!(!demo.in_window(14_999_999));
    assert!(demo.in_window(15_000_000));
    assert!(!demo.in_window(25_000_000));
    let hits = (0..40).filter(|_| demo.should_inject(20_000_000).0).count();
    assert_eq!(hits, 2);
    assert_eq!(demo.should_inject(30_000_000), (false, None));
    assert!(demo.hits_packet(20));
    assert!(demo.hits_packet(40));
    assert!(!demo.hits_packet(21));
    let off = StressConfig::disabled();
    assert_eq!(off.inject_window, None);
    assert_eq!(off.should_inject(20_000_000), (false, None));
}

#[test]
fn every_packet_in_window_is_hit_when_every_nth_is_one() {
    let c = StressConfig {
        inject_window: Some((10, 20)),
        program_start: 100,
        every_nth: 1,
        counter: std::sync::Arc::new(std::sync::atomic::AtomicU64::new(0)),
    };
    assert_eq!(c.should_inject(115), (true, Some(1)));
    assert_eq!(c.should_inject(115), (true, Some(2)));
    assert!((0..5).all(|_| c.should_inject(115).0));
    assert_eq!(c.should_inject(105), (false, None));
    assert_eq!(c.should_inject(125), (false, None));
    let off = StressConfig {
        inject_window: None,
        program_start: 0,
        every_nth: 0,
        counter: std::sync::Arc::new(std::sync::atomic::AtomicU64::new(0)),
    };
    assert_eq!(off.should_inject(5), (false, None));
}

#[test]
fn pipeline_state_starts_normal() {
    let s = PipelineState::new();
    assert!(!s.is_degraded());
    s.degraded.store(true, std::sync::atomic::Ordering::Relaxed);
    assert!(s.is_degraded());
}

const SAMPLE_JSON: &str = r#"{"user":"Alice","bot":false,"server_name":"en.wikipedia.org","wiki":"enwiki","title":"Test Article","timestamp":1700000000,"type":"edit"}"#;

/// Builds the event that a payload describes, borrowing from the decoded
/// JSON value.
fn event_of(v: &serde_json::Value) -> WikiEvent<'_> {
    WikiEvent {
        user: v["user"].as_str().unwrap(),
        bot: v["bot"].as_bool().unwrap(),
        server_name: v["server_name"].as_str().unwrap(),
        wiki: v["wiki"].as_str().unwrap(),
        title: v["title"].as_str().unwrap(),
        timestamp: v["timestamp"].as_i64(),
        event_type: v["type"].as_str().unwrap(),
    }
}

#[test]
fn priority_from_bot_false() {
    let v: serde_json::Value = serde_json::from_str(SAMPLE_JSON).unwrap();
    let event = event_of(&v);
    assert_eq!(Priority::from(&event), Priority::Human);
}

#[test]
fn priority_from_bot_true() {
    let src = r#"{"user":"SomeBot","bot":true,"server_name":"en.wikipedia.org","wiki":"enwiki","title":"Bot Page","timestamp":1700000001,"type":"edit"}"#.to_owned();
    let v: serde_json::Value = serde_json::from_str(&src).unwrap();
    let event = event_of(&v);
    assert_eq!(Priority::from(&event), Priority::Bot);
}
