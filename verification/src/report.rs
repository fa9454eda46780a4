//! The text of a benchmark report.
//!
//! Figures that carry a fraction arrive here as text; whole numbers are
//! written out here.

use vstd::prelude::*;
use vstd::string::*;
use crate::cli::Workload;

verus! {

/// The character of the decimal digit `d`.
pub open spec fn digit_char(d: nat) -> char {
    ('0' as nat + d) as char
}

/// `n` in decimal, without leading zeros.
pub open spec fn decimal(n: nat) -> Seq<char>
    decreases n,
{
    if n < 10 {
        seq![digit_char(n)]
    } else {
        decimal(n / 10).push(digit_char(n % 10))
    }
}

/// The one-character text of the digit `d`.
fn digit_text(d: u8) -> (t: &'static str)
    requires
        d < 10,
    ensures
        t@ == seq![digit_char(d as nat)],
{
    proof {
        reveal_strlit("0");
        reveal_strlit("1");
        reveal_strlit("2");
        reveal_strlit("3");
        reveal_strlit("4");
        reveal_strlit("5");
        reveal_strlit("6");
        reveal_strlit("7");
        reveal_strlit("8");
        reveal_strlit("9");
    }
    let t = match d {
        0 => "0",
        1 => "1",
        2 => "2",
        3 => "3",
        4 => "4",
        5 => "5",
        6 => "6",
        7 => "7",
        8 => "8",
        _ => "9",
    };
    assert(t@ =~= seq![digit_char(d as nat)]);
    t
}

/// `n` in decimal, without leading zeros.
pub fn decimal_text(n: u64) -> (text: String)
    ensures
        text@ == decimal(n as nat),
    decreases n,
{
    if n < 10 {
        String::from_str(digit_text(n as u8))
    } else {
        let mut text = decimal_text(n / 10);
        text.append(digit_text((n % 10) as u8));
        text
    }
}

/// How the devices of a run are named in its report: a single device by its
/// path, several by their number.
pub open spec fn device_label_of(devices: Seq<String>) -> Seq<char> {
    if devices.len() == 1 {
        devices[0]@
    } else {
        decimal(devices.len()) + " devices"@
    }
}

/// How the devices of a run are named in its report.
pub fn device_label(devices: &Vec<String>) -> (label: String)
    ensures
        label@ == device_label_of(devices@),
{
    if devices.len() == 1 {
        devices[0].clone()
    } else {
        let mut label = decimal_text(devices.len() as u64);
        label.append(" devices");
        label
    }
}

/// The name of a report file: `stamp` tells when the tests ran, `extension`
/// the kind of file.
pub open spec fn report_file_name_of(stamp: Seq<char>, extension: Seq<char>) -> Seq<char> {
    "4c-report-"@ + stamp + "."@ + extension
}

/// The name of a report file.
pub fn report_file_name(stamp: &str, extension: &str) -> (name: String)
    ensures
        name@ == report_file_name_of(stamp@, extension@),
{
    let mut name = String::from_str("4c-report-");
    name.append(stamp);
    name.append(".");
    name.append(extension);
    name
}

/// One result as the report prints it. The parameters are whole numbers;
/// the measured figures are text already.
pub struct ReportEntry {
    pub threads: u32,
    pub queue_depth: u32,
    pub block_size_kb: u32,
    pub duration_secs: u32,
    pub throughput_mbps: String,
    pub iops: String,
    pub latency_avg_us: String,
    pub latency_p50_us: String,
    pub latency_p99_us: String,
}

/// The lines that the report prints for `r`, closed by an empty line.
pub open spec fn result_text(r: &ReportEntry) -> Seq<char> {
    "  Threads:         "@ + decimal(r.threads as nat) + "\n"@ + "  Queue Depth:     "@ + decimal(
        r.queue_depth as nat,
    ) + "\n"@ + "  Block Size:      "@ + decimal(r.block_size_kb as nat) + " KB\n"@
        + "  Duration:        "@ + decimal(r.duration_secs as nat) + " seconds\n"@
        + "  Throughput:    "@ + r.throughput_mbps@ + " MB/s\n"@ + "  IOPS:          "@ + r.iops@
        + "\n"@ + "  Avg Latency:   "@ + r.latency_avg_us@ + " us\n"@ + "  P50 Latency:   "@
        + r.latency_p50_us@ + " us\n"@ + "  P99 Latency:   "@ + r.latency_p99_us@ + " us\n"@
        + "\n"@
}

/// Appends the lines of `r` to `s`.
pub fn format_result(s: &mut String, r: &ReportEntry)
    ensures
        final(s)@ == old(s)@ + result_text(r),
{
    let mut t = String::from_str("  Threads:         ");
    t.append(decimal_text(r.threads as u64).as_str());
    t.append("\n");
    t.append("  Queue Depth:     ");
    t.append(decimal_text(r.queue_depth as u64).as_str());
    t.append("\n");
    t.append("  Block Size:      ");
    t.append(decimal_text(r.block_size_kb as u64).as_str());
    t.append(" KB\n");
    t.append("  Duration:        ");
    t.append(decimal_text(r.duration_secs as u64).as_str());
    t.append(" seconds\n");
    t.append("  Throughput:    ");
    t.append(r.throughput_mbps.as_str());
    t.append(" MB/s\n");
    t.append("  IOPS:          ");
    t.append(r.iops.as_str());
    t.append("\n");
    t.append("  Avg Latency:   ");
    t.append(r.latency_avg_us.as_str());
    t.append(" us\n");
    t.append("  P50 Latency:   ");
    t.append(r.latency_p50_us.as_str());
    t.append(" us\n");
    t.append("  P99 Latency:   ");
    t.append(r.latency_p99_us.as_str());
    t.append(" us\n");
    t.append("\n");
    s.append(t.as_str());
}

/// The results of one invocation: when it ran, on what, and what each
/// workload that ran measured.
pub struct BenchmarkReport {
    pub test_date: String,
    pub device: String,
    pub read_throughput: Option<ReportEntry>,
    pub write_throughput: Option<ReportEntry>,
    pub read_iops: Option<ReportEntry>,
    pub write_iops: Option<ReportEntry>,
}

/// The section of the report for one workload: its title and its lines if
/// it ran, nothing if it did not.
pub open spec fn section_text(title: Seq<char>, entry: Option<ReportEntry>) -> Seq<char> {
    match entry {
        Some(r) => title + result_text(&r),
        None => Seq::<char>::empty(),
    }
}

/// The whole report as text.
pub open spec fn report_text(report: &BenchmarkReport) -> Seq<char> {
    "========================================\n"@ + "4Corners Disk Benchmark Report\n"@
        + "========================================\n\n"@ + "Test Date: "@ + report.test_date@
        + "\n"@ + "Device: "@ + report.device@ + "\n\n"@ + section_text(
        "Read Throughput Test:\n"@,
        report.read_throughput,
    ) + section_text("Write Throughput Test:\n"@, report.write_throughput) + section_text(
        "Read IOPS Test:\n"@,
        report.read_iops,
    ) + section_text("Write IOPS Test:\n"@, report.write_iops)
        + "========================================\n"@
}

/// Appends the section of one workload to `s`.
fn format_section(s: &mut String, title: &str, entry: &Option<ReportEntry>)
    ensures
        final(s)@ == old(s)@ + section_text(title@, *entry),
{
    match entry {
        Some(r) => {
            let mut t = String::from_str(title);
            format_result(&mut t, r);
            s.append(t.as_str());
        },
        None => {
            assert(s@ =~= old(s)@ + section_text(title@, *entry));
        },
    }
}

impl BenchmarkReport {
    /// A report on `device`, dated `test_date`, with no results yet.
    pub fn new(device: &str, test_date: &str) -> (report: Self)
        ensures
            report.device@ == device@,
            report.test_date@ == test_date@,
            report.read_throughput.is_none(),
            report.write_throughput.is_none(),
            report.read_iops.is_none(),
            report.write_iops.is_none(),
    {
        BenchmarkReport {
            test_date: String::from_str(test_date),
            device: String::from_str(device),
            read_throughput: None,
            write_throughput: None,
            read_iops: None,
            write_iops: None,
        }
    }

    /// Files `entry` as the result of `workload`.
    pub fn set(&mut self, workload: Workload, entry: ReportEntry)
        ensures
            final(self).test_date == old(self).test_date,
            final(self).device == old(self).device,
            final(self).read_throughput == if workload == Workload::ReadThroughput {
                Some(entry)
            } else {
                old(self).read_throughput
            },
            final(self).write_throughput == if workload == Workload::WriteThroughput {
                Some(entry)
            } else {
                old(self).write_throughput
            },
            final(self).read_iops == if workload == Workload::ReadIops {
                Some(entry)
            } else {
                old(self).read_iops
            },
            final(self).write_iops == if workload == Workload::WriteIops {
                Some(entry)
            } else {
                old(self).write_iops
            },
    {
        match workload {
            Workload::ReadThroughput => self.read_throughput = Some(entry),
            Workload::WriteThroughput => self.write_throughput = Some(entry),
            Workload::ReadIops => self.read_iops = Some(entry),
            Workload::WriteIops => self.write_iops = Some(entry),
        }
    }

    /// The report as text: a heading, the date and the device, and one
    /// section for every workload that ran, in the order read throughput,
    /// write throughput, read IOPS, write IOPS.
    pub fn generate_text_report(&self) -> (text: String)
        ensures
            text@ == report_text(self),
    {
        let mut s = String::from_str("========================================\n");
        s.append("4Corners Disk Benchmark Report\n");
        s.append("========================================\n\n");
        s.append("Test Date: ");
        s.append(self.test_date.as_str());
        s.append("\n");
        s.append("Device: ");
        s.append(self.device.as_str());
        s.append("\n\n");
        format_section(&mut s, "Read Throughput Test:\n", &self.read_throughput);
        format_section(&mut s, "Write Throughput Test:\n", &self.write_throughput);
        format_section(&mut s, "Read IOPS Test:\n", &self.read_iops);
        format_section(&mut s, "Write IOPS Test:\n", &self.write_iops);
        s.append("========================================\n");
        s
    }
}

} // verus!
