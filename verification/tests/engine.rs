use four_corners::engine::{
    plan_workers, summarize, ConfigError, DeviceSurvey, Supervisor, TestConfig, WorkerSpec,
    REPORT_INTERVAL_NS,
};
use four_corners::metrics::Metrics;
use four_corners::run::run_worker;
use four_corners::worker::Completion;

fn config(paths: &[&str], io_size: u64) -> TestConfig {
    TestConfig {
        device_paths: paths.iter().map(|p| p.to_string()).collect(),
        io_size,
        threads: 2,
        queue_depth: 4,
        duration_secs: 3,
        is_write: false,
    }
}

#[test]
fn test_without_devices_is_refused() {
    assert_eq!(config(&[], 4096).check(), Err(ConfigError::NoDevices));
    assert_eq!(config(&["/dev/nvme0n1"], 4096).check(), Ok(()));
}

#[test]
fn device_of_size_zero_is_refused() {
    let mut s = DeviceSurvey::new();
    assert_eq!(s.add_device(1 << 30), Ok(()));
    assert_eq!(s.add_device(0), Err(ConfigError::EmptyDevice { index: 1 }));
    assert_eq!(s.add_device(1 << 29), Ok(()));
    assert_eq!(s.sizes(), &vec![1u64 << 30, 1 << 29]);
    assert_eq!(s.total_size(), (1u128 << 30) + (1 << 29));
}

#[test]
fn total_size_does_not_overflow() {
    let mut s = DeviceSurvey::new();
    for _ in 0..3 {
        s.add_device(u64::MAX).unwrap();
    }
    assert_eq!(s.total_size(), 3 * (u64::MAX as u128));
}

#[test]
fn workers_are_laid_out_device_by_device() {
    let workers = plan_workers(&vec![100, 200], 2);
    assert_eq!(
        workers,
        vec![
            WorkerSpec { thread_id: 0, device: 0, device_size: 100 },
            WorkerSpec { thread_id: 1, device: 0, device_size: 100 },
            WorkerSpec { thread_id: 2, device: 1, device_size: 200 },
            WorkerSpec { thread_id: 3, device: 1, device_size: 200 },
        ]
    );
    assert!(plan_workers(&vec![100, 200], 0).is_empty());
    assert!(plan_workers(&Vec::new(), 8).is_empty());
}

#[test]
fn fan_out_is_devices_times_threads() {
    // two devices, two workers each, queue depth two: eight slots in flight
    let workers = plan_workers(&vec![512 << 20, 512 << 20], 2);
    assert_eq!(workers.len(), 4);
    let mut in_flight = 0;
    for _ in &workers {
        let mut w = four_corners::worker::Worker::new(64 * 1024, 2, false, 512 << 20);
        in_flight += w.prime(0).len();
    }
    assert_eq!(in_flight, 8);
}

#[test]
fn supervisor_runs_for_the_duration() {
    let s = Supervisor::new(3);
    assert!(!s.expired(0));
    assert!(!s.expired(2_999_999_999));
    assert!(s.expired(3_000_000_000));
    assert!(Supervisor::new(0).expired(0));
    assert!(!Supervisor::new(u32::MAX).expired(4_294_967_294_999_999_999));
    assert!(Supervisor::new(u32::MAX).expired(4_294_967_295_000_000_000));
}

#[test]
fn supervisor_reports_every_five_seconds() {
    let mut s = Supervisor::new(30);
    let mut reports = Vec::new();
    let mut elapsed = 0u64;
    while !s.expired(elapsed) {
        elapsed += 100_000_000;
        if s.report_due(elapsed) {
            reports.push(elapsed);
        }
    }
    assert_eq!(
        reports,
        vec![
            REPORT_INTERVAL_NS,
            2 * REPORT_INTERVAL_NS,
            3 * REPORT_INTERVAL_NS,
            4 * REPORT_INTERVAL_NS,
            5 * REPORT_INTERVAL_NS,
            6 * REPORT_INTERVAL_NS
        ]
    );
}

#[test]
fn late_report_does_not_skip_ahead() {
    let mut s = Supervisor::new(60);
    // the first look at the clock comes 12 s in: two reports are owed
    assert!(s.report_due(12_000_000_000));
    assert!(s.report_due(12_100_000_000));
    assert!(!s.report_due(12_200_000_000));
    assert!(s.report_due(15_000_000_000));
}

#[test]
fn summary_of_an_idle_test_is_all_zero() {
    let mut m = Metrics::new();
    let r = summarize(&config(&["a"], 4096), &mut m, 1_000_000_000);
    assert_eq!(r.total_ops, 0);
    assert_eq!(r.total_bytes, 0);
    assert_eq!(r.latency_avg_ns, 0);
    assert_eq!(r.latency_p50_ns, 0);
    assert_eq!(r.latency_p99_ns, 0);
    assert_eq!(r.elapsed_ns, 1_000_000_000);
}

#[test]
fn summary_echoes_the_parameters() {
    let mut m = Metrics::new();
    let r = summarize(&config(&["a", "b"], 128 * 1024), &mut m, 5);
    assert_eq!((r.threads, r.queue_depth, r.block_size_kb, r.duration_secs), (2, 4, 128, 3));
    let r = summarize(&config(&["a"], 1023), &mut m, 5);
    assert_eq!(r.block_size_kb, 0);
    let r = summarize(&config(&["a"], u64::MAX), &mut m, 5);
    // 2^54 - 1 KiB, cut to 32 bits
    assert_eq!(r.block_size_kb, u32::MAX);
}

#[test]
fn summary_reads_the_metrics() {
    let mut m = Metrics::new();
    m.add_ops(1000);
    m.add_bytes(1000 * 4096);
    for ns in [900u64, 100, 500, 300, 700] {
        m.record_latency(ns);
    }
    let r = summarize(&config(&["a"], 4096), &mut m, 2_000_000_000);
    assert_eq!(r.total_ops, 1000);
    assert_eq!(r.total_bytes, 4_096_000);
    assert_eq!(r.latency_samples, 5);
    assert_eq!(r.latency_sum_ns, 2500);
    assert_eq!(r.latency_avg_ns, 500);
    assert_eq!(r.latency_p50_ns, 500);
    assert_eq!(r.latency_p99_ns, 700);
    assert!(r.latency_p50_ns <= r.latency_p99_ns);
}

#[test]
fn one_worker_one_slot_publishes_what_it_completed() {
    let mut m = Metrics::new();
    let cs: Vec<Completion> =
        (1..=128u64).map(|k| Completion { slot: 0, result: 4096, now_ns: k * 1_000 }).collect();
    let issued = run_worker(0, 4096, 1, false, 1 << 30, 0, &cs, &mut m);
    assert_eq!(issued.len(), 129);
    let mut cfg = config(&["file"], 4096);
    cfg.threads = 1;
    cfg.queue_depth = 1;
    cfg.duration_secs = 1;
    let r = summarize(&cfg, &mut m, 1_000_000_000);
    assert!(r.total_ops >= 1);
    assert_eq!(r.total_ops, 128);
    assert_eq!(r.latency_samples, 2);
    assert_eq!(r.latency_avg_ns, 1_000);
    assert!(r.latency_avg_ns > 0);
}

#[test]
fn configuration_errors_say_what_is_wrong() {
    let cfg = config(&["/dev/sda", "/dev/sdb"], 4096);
    assert_eq!(ConfigError::NoDevices.message(&cfg), "No devices specified");
    assert_eq!(ConfigError::EmptyDevice { index: 1 }.message(&cfg), "Device /dev/sdb size is 0");
    assert_eq!(ConfigError::EmptyDevice { index: 0 }.message(&cfg), "Device /dev/sda size is 0");
}
