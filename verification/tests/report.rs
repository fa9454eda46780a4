use four_corners::cli::Workload;
use four_corners::report::{
    decimal_text, device_label, format_result, report_file_name, BenchmarkReport, ReportEntry,
};

fn entry(threads: u32, throughput: &str) -> ReportEntry {
    ReportEntry {
        threads,
        queue_depth: 4,
        block_size_kb: 128,
        duration_secs: 30,
        throughput_mbps: throughput.to_string(),
        iops: "     12346".to_string(),
        latency_avg_us: "     80.50".to_string(),
        latency_p50_us: "     75.00".to_string(),
        latency_p99_us: "    210.25".to_string(),
    }
}

#[test]
fn numbers_are_written_in_decimal() {
    for n in [0u64, 1, 9, 10, 11, 99, 100, 101, 4096, 1_000_000, u32::MAX as u64, u64::MAX] {
        assert_eq!(decimal_text(n), n.to_string());
    }
}

#[test]
fn one_device_is_named_by_its_path() {
    assert_eq!(device_label(&vec!["/dev/nvme0n1".to_string()]), "/dev/nvme0n1");
    assert_eq!(device_label(&vec!["a".to_string(), "b".to_string()]), "2 devices");
    assert_eq!(device_label(&vec![String::new(); 12]), "12 devices");
    assert_eq!(device_label(&Vec::new()), "0 devices");
}

#[test]
fn report_files_carry_the_stamp() {
    assert_eq!(report_file_name("20240131-235959", "txt"), "4c-report-20240131-235959.txt");
    assert_eq!(report_file_name("20240131-235959", "json"), "4c-report-20240131-235959.json");
}

#[test]
fn result_lines() {
    let mut s = String::from("Read IOPS Test:\n");
    format_result(&mut s, &entry(16, "   1234.57"));
    assert_eq!(
        s,
        "Read IOPS Test:\n\
         \x20 Threads:         16\n\
         \x20 Queue Depth:     4\n\
         \x20 Block Size:      128 KB\n\
         \x20 Duration:        30 seconds\n\
         \x20 Throughput:       1234.57 MB/s\n\
         \x20 IOPS:               12346\n\
         \x20 Avg Latency:        80.50 us\n\
         \x20 P50 Latency:        75.00 us\n\
         \x20 P99 Latency:       210.25 us\n\
         \n"
    );
}

#[test]
fn empty_report() {
    let r = BenchmarkReport::new("/dev/sda", "2024-01-31 23:59:59");
    assert_eq!(
        r.generate_text_report(),
        "========================================\n\
         4Corners Disk Benchmark Report\n\
         ========================================\n\
         \n\
         Test Date: 2024-01-31 23:59:59\n\
         Device: /dev/sda\n\
         \n\
         ========================================\n"
    );
}

#[test]
fn sections_come_in_a_fixed_order() {
    let mut r = BenchmarkReport::new("2 devices", "2024-01-31 23:59:59");
    r.set(Workload::WriteIops, entry(4, "d"));
    r.set(Workload::ReadThroughput, entry(1, "a"));
    r.set(Workload::ReadIops, entry(3, "c"));
    let text = r.generate_text_report();
    let read_tp = text.find("Read Throughput Test:\n  Threads:         1\n").unwrap();
    let read_iops = text.find("Read IOPS Test:\n  Threads:         3\n").unwrap();
    let write_iops = text.find("Write IOPS Test:\n  Threads:         4\n").unwrap();
    assert!(read_tp < read_iops && read_iops < write_iops);
    assert!(!text.contains("Write Throughput Test:"));
    assert!(text.ends_with(" us\n\n========================================\n"));
    r.set(Workload::WriteThroughput, entry(2, "b"));
    r.set(Workload::ReadThroughput, entry(9, "a"));
    let text = r.generate_text_report();
    let read_tp = text.find("Read Throughput Test:\n  Threads:         9\n").unwrap();
    let write_tp = text.find("Write Throughput Test:\n  Threads:         2\n").unwrap();
    let read_iops = text.find("Read IOPS Test:\n").unwrap();
    assert!(read_tp < write_tp && write_tp < read_iops);
    assert!(!text.contains("Threads:         1\n"));
}
