use four_corners::metrics::{Metrics, RESERVOIR_CAPACITY};

#[test]
fn fresh_metrics_are_empty() {
    let m = Metrics::new();
    let t = m.snapshot();
    assert_eq!(t.total_ops, 0);
    assert_eq!(t.total_bytes, 0);
    assert_eq!(t.latency_sum_ns, 0);
    assert_eq!(t.latency_samples, 0);
    assert_eq!(m.reservoir_len(), 0);
}

#[test]
fn counters_add_up() {
    let mut m = Metrics::new();
    m.add_ops(3);
    m.add_ops(4);
    m.add_bytes(4096);
    m.add_bytes(8192);
    let t = m.snapshot();
    assert_eq!(t.total_ops, 7);
    assert_eq!(t.total_bytes, 12288);
}

#[test]
fn counters_wrap_like_atomic_adds() {
    let mut m = Metrics::new();
    m.add_ops(u64::MAX);
    m.add_ops(2);
    assert_eq!(m.snapshot().total_ops, 1);
}

#[test]
fn percentile_of_empty_reservoir_is_zero() {
    let mut m = Metrics::new();
    assert_eq!(m.percentile(50), 0);
    assert_eq!(m.percentile(99), 0);
    assert_eq!(m.mean_latency_ns(), 0);
}

#[test]
fn percentile_reads_sorted_rank() {
    let mut m = Metrics::new();
    for ns in [500u64, 100, 400, 200, 300] {
        m.record_latency(ns);
    }
    // floor(0.50 * 4) = 2, floor(0.99 * 4) = 3
    assert_eq!(m.percentile(50), 300);
    assert_eq!(m.percentile(99), 400);
    assert_eq!(m.percentile(100), 500);
    assert_eq!(m.percentile(0), 100);
    assert_eq!(m.percentile(250), 500);
    assert_eq!(m.mean_latency_ns(), 300);
    assert_eq!(m.snapshot().latency_samples, 5);
    assert_eq!(m.snapshot().latency_sum_ns, 1500);
}

#[test]
fn percentile_is_monotone() {
    let mut m = Metrics::new();
    for i in 0..1000u64 {
        m.record_latency((i * 7919) % 1009);
    }
    let p50 = m.percentile(50);
    let p99 = m.percentile(99);
    assert!(p50 <= p99);
}

#[test]
fn reservoir_stops_growing_at_capacity() {
    let mut m = Metrics::new();
    for i in 0..RESERVOIR_CAPACITY as u64 {
        m.record_latency(i);
    }
    assert_eq!(m.reservoir_len(), RESERVOIR_CAPACITY);
    for _ in 0..1000 {
        m.record_latency(7_000_000);
    }
    assert_eq!(m.reservoir_len(), RESERVOIR_CAPACITY);
    assert_eq!(m.snapshot().latency_samples, RESERVOIR_CAPACITY as u64 + 1000);
    assert!(m.reservoir_len() as u64 <= m.snapshot().latency_samples);
    // the replacements landed somewhere
    assert_eq!(m.percentile(100), 7_000_000);
}

#[test]
fn full_reservoir_replaces_the_picked_entry() {
    let mut m = Metrics::new();
    for _ in 0..RESERVOIR_CAPACITY {
        m.record_latency_with(10, 0);
    }
    m.record_latency_with(99, RESERVOIR_CAPACITY as u64 + 5);
    assert_eq!(m.reservoir_len(), RESERVOIR_CAPACITY);
    assert_eq!(m.percentile(100), 99);
    assert_eq!(m.percentile(99), 10);
}
