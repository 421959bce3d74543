use std::time::Instant;
use stream_pipeline::{PercentileTracker, StageMetrics};

#[test]
fn test_percentile_tracker() {
    let mut tracker = PercentileTracker::new(10);
    for i in 1..=10u64 {
        tracker.record(i * 1000); // 1us to 10us in nanos
    }
    let p50_us = tracker.p50_nanos() as f64 / 1000.0;
    let p99_us = tracker.p99_nanos() as f64 / 1000.0;
    assert!(p50_us > 0.0);
    assert!(p99_us >= p50_us);
}

#[test]
fn test_stage_metrics() {
    let start = Instant::now();
    let mut metrics = StageMetrics::new();
    for _ in 0..100 {
        metrics.record_processed();
        metrics.record_latency(1000);
    }
    assert_eq!(metrics.total_processed(), 100);
    let elapsed = start.elapsed().as_secs_f64();
    assert!(metrics.total_processed() as f64 / elapsed > 0.0);
}

#[test]
fn percentiles_are_order_statistics_of_unsorted_input() {
    let mut tracker = PercentileTracker::new(10);
    for i in (1..=10u64).rev() {
        tracker.record(i * 1000);
    }
    assert_eq!(tracker.count(), 10);
    assert_eq!(tracker.p50_nanos(), 5000);
    assert_eq!(tracker.p95_nanos(), 10000);
    assert_eq!(tracker.p99_nanos(), 10000);
    assert_eq!(tracker.percentile_nanos(0), 1000);
    assert_eq!(tracker.percentile_nanos(100), 10000);
}

#[test]
fn empty_tracker_reports_zero() {
    let tracker = PercentileTracker::new(5);
    assert_eq!(tracker.count(), 0);
    assert_eq!(tracker.p50_nanos(), 0);
    assert_eq!(tracker.p99_nanos(), 0);
}

#[test]
fn window_keeps_the_newest_measurements() {
    let mut tracker = PercentileTracker::new(3);
    for x in [50u64, 10, 40, 30, 20] {
        tracker.record(x);
    }
    // The window holds 40, 30, 20.
    assert_eq!(tracker.count(), 3);
    assert_eq!(tracker.percentile_nanos(0), 20);
    assert_eq!(tracker.p50_nanos(), 30);
    assert_eq!(tracker.p99_nanos(), 40);
    let mut single = PercentileTracker::new(0);
    single.record(7);
    single.record(9);
    assert_eq!(single.count(), 1);
    assert_eq!(single.p50_nanos(), 9);
}

#[test]
fn counters_and_merging() {
    let mut a = StageMetrics::default();
    a.record_processed();
    a.record_dropped();
    a.record_dropped();
    a.record_block();
    assert_eq!(a.total_processed(), 1);
    assert_eq!(a.total_dropped(), 2);
    assert_eq!(a.total_blocks(), 1);
    let mut b = StageMetrics::new();
    b.record_processed();
    b.record_block();
    b.add_counts_from(&a);
    assert_eq!(b.total_processed(), 2);
    assert_eq!(b.total_dropped(), 2);
    assert_eq!(b.total_blocks(), 1);
    b.record_latency(300);
    b.record_latency(100);
    b.record_latency(200);
    assert_eq!(b.latency_percentile_nanos(50), 200);
}

#[test]
fn latencies_can_be_copied_into_another_window() {
    let mut stage_local = StageMetrics::new();
    stage_local.record_latency(500);
    stage_local.record_latency(100);
    stage_local.record_latency(300);
    let mut shared = StageMetrics::new();
    shared.record_latency(900);
    shared.record_latencies_from(&stage_local);
    // The window now holds 900, 500, 100, 300.
    assert_eq!(shared.latency_percentile_nanos(0), 100);
    assert_eq!(shared.latency_percentile_nanos(50), 300);
    assert_eq!(shared.latency_percentile_nanos(100), 900);
    assert_eq!(shared.total_processed(), 0);
}
