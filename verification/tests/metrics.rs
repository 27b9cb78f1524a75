use rts_core::metrics::{Counter, HistogramAggregator, LatencyHistogram, LatencySample};

#[test]
fn histogram_counts_and_clamps() {
    let mut h = LatencyHistogram::new(1_000);
    assert_eq!(h.len(), 0);
    h.record(10);
    h.record(5_000);
    assert_eq!(h.len(), 2);
    assert_eq!(h.histogram().hdr.max(), 1_000);
    assert_eq!(h.count_at_value(10), 1);
    assert_eq!(h.count_at_value(1_000), 1);
    assert_eq!(h.count_at_value(0), 0);
    assert_eq!(h.count_at_value(500), 0);
}

#[test]
fn samples_land_in_their_own_buckets() {
    let mut h = LatencyHistogram::new(60_000_000);
    h.record(2_500);
    h.record(2_500);
    h.record(7);
    assert_eq!(h.count_at_value(2_500), 2);
    assert_eq!(h.count_at_value(7), 1);
    assert_eq!(h.count_at_value(8), 0);
    assert!(h.shares_bucket(7, 7));
    assert!(!h.shares_bucket(7, 8));
    assert!(h.shares_bucket(1_000_000, 1_000_001));
    h.record(90_000_000);
    assert!(h.count_at_value(60_000_000) >= 1);
}

#[test]
fn bot_samples_do_not_pollute_human_histograms() {
    let mut agg = HistogramAggregator::new();
    agg.record(&LatencySample { ingest_time: 0, dequeue_time: 300, complete_time: 500, expected_start: 100, was_human: false });
    agg.record(&LatencySample { ingest_time: 0, dequeue_time: 300, complete_time: 500, expected_start: 100, was_human: false });
    agg.record(&LatencySample { ingest_time: 10, dequeue_time: 40, complete_time: 1_010, expected_start: 20, was_human: true });
    assert_eq!(agg.e2e_human.len(), 1);
    assert_eq!(agg.e2e_bot.len(), 2);
    assert_eq!(agg.drift_bot.len(), 2);
    assert_eq!(agg.processing_human.len(), 1);
    assert_eq!(agg.e2e_human.histogram().hdr.max(), 1_000);
    assert_eq!(agg.drift_human.histogram().hdr.max(), 20);
    assert_eq!(agg.processing_bot.histogram().hdr.max(), 200);
    assert_eq!(agg.e2e_human.count_at_value(1_000), 1);
    assert_eq!(agg.drift_human.count_at_value(20), 1);
    assert_eq!(agg.processing_human.count_at_value(970), 1);
    assert_eq!(agg.e2e_human.count_at_value(20), 0);
    assert_eq!(agg.e2e_bot.count_at_value(500), 2);
    assert_eq!(agg.drift_bot.count_at_value(200), 2);
    assert_eq!(agg.processing_bot.count_at_value(200), 2);
}

#[test]
fn counter_counts() {
    let c = Counter::new();
    c.inc();
    c.inc();
    assert_eq!(c.get(), 2);
}
