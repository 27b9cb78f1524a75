use rts_core::threaded_pipeline::ingestion::{sse_data, IngestionSession};

#[test]
fn data_lines_yield_their_trimmed_payload() {
    assert_eq!(sse_data("data: {\"a\":1}"), Some("{\"a\":1}".to_string()));
    assert_eq!(sse_data("data:x"), Some("x".to_string()));
    assert_eq!(sse_data("data:\t payload \r"), Some("payload".to_string()));
    assert_eq!(sse_data("data: ä b\u{3000}"), Some("ä b".to_string()));
}

#[test]
fn other_lines_yield_nothing() {
    assert_eq!(sse_data(""), None);
    assert_eq!(sse_data(":heartbeat"), None);
    assert_eq!(sse_data("event: message"), None);
    assert_eq!(sse_data("id: 42"), None);
    assert_eq!(sse_data("data:"), None);
    assert_eq!(sse_data("data:   \u{a0}"), None);
    assert_eq!(sse_data("Data: x"), None);
    assert_eq!(sse_data(" data: x"), None);
}

#[test]
fn threaded_session_backoff_and_capture() {
    let mut s = IngestionSession::new();
    assert_eq!(s.on_disconnect(), 1);
    assert_eq!(s.on_disconnect(), 2);
    s.on_connected();
    assert_eq!(s.backoff_secs(), 1);
    assert!(!s.wants_capture(false));
    let mut n = 0;
    while s.wants_capture(true) {
        s.on_captured();
        n += 1;
    }
    assert_eq!(n, 500);
}
