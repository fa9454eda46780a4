//! The options of a benchmark invocation and what they ask for.

use vstd::prelude::*;
use vstd::string::*;
use crate::engine::TestConfig;
use crate::text::{contains, contains_text, same_text};

verus! {

/// The four workloads of the benchmark.
#[derive(Clone, Copy, Debug, PartialEq, Eq, Structural)]
pub enum Workload {
    ReadThroughput,
    WriteThroughput,
    ReadIops,
    WriteIops,
}

/// The name by which the command line selects a workload.
pub open spec fn workload_name(w: Workload) -> Seq<char> {
    match w {
        Workload::ReadThroughput => "read-tp"@,
        Workload::WriteThroughput => "write-tp"@,
        Workload::ReadIops => "read-iops"@,
        Workload::WriteIops => "write-iops"@,
    }
}

impl Workload {
    /// The name by which the command line selects this workload.
    pub fn name(&self) -> (name: &'static str)
        ensures
            name@ == workload_name(*self),
    {
        match self {
            Workload::ReadThroughput => "read-tp",
            Workload::WriteThroughput => "write-tp",
            Workload::ReadIops => "read-iops",
            Workload::WriteIops => "write-iops",
        }
    }

    /// Whether this workload writes to the device.
    pub fn is_write(&self) -> (w: bool)
        ensures
            w == (*self == Workload::WriteThroughput || *self == Workload::WriteIops),
    {
        match self {
            Workload::ReadThroughput => false,
            Workload::WriteThroughput => true,
            Workload::ReadIops => false,
            Workload::WriteIops => true,
        }
    }
}

/// Seconds a test runs unless told otherwise.
pub const DEFAULT_DURATION: u32 = 30;

/// Workers per device of the read throughput test unless told otherwise.
pub const DEFAULT_READ_TP_THREADS: u32 = 30;

/// Workers per device of the write throughput test unless told otherwise.
pub const DEFAULT_WRITE_TP_THREADS: u32 = 16;

/// Workers per device of either IOPS test unless told otherwise.
pub const DEFAULT_IOPS_THREADS: u32 = 120;

/// Queue depth per worker unless told otherwise.
pub const DEFAULT_QUEUE_DEPTH: u32 = 1;

/// Block size of the read throughput test in KiB unless told otherwise.
pub const DEFAULT_READ_TP_BLOCK_KB: u32 = 128;

/// Block size of the write throughput test in KiB unless told otherwise.
pub const DEFAULT_WRITE_TP_BLOCK_KB: u32 = 64;

/// Block size of either IOPS test in KiB unless told otherwise.
pub const DEFAULT_IOPS_BLOCK_KB: u32 = 4;

/// Size in GiB of a file device unless told otherwise.
pub const DEFAULT_FILE_SIZE_GIB: u64 = 10;

/// The options of one invocation.
pub struct Args {
    /// Device or file paths; an entry may list several, separated by commas.
    pub device: Vec<String>,
    /// Duration of each test in seconds.
    pub duration: u32,
    pub read_tp_threads: u32,
    pub write_tp_threads: u32,
    pub read_iops_threads: u32,
    pub write_iops_threads: u32,
    pub read_tp_qd: u32,
    pub write_tp_qd: u32,
    pub read_iops_qd: u32,
    pub write_iops_qd: u32,
    /// Block sizes in KiB.
    pub read_tp_bs: u32,
    pub write_tp_bs: u32,
    pub read_iops_bs: u32,
    pub write_iops_bs: u32,
    /// Fill the devices with random data before testing.
    pub prep: bool,
    /// Create the first device as a file before testing.
    pub create_file: bool,
    /// Size of the file to create, in GiB.
    pub file_size: u64,
    /// The workloads to run: `all`, or a list of their names.
    pub tests: String,
}

/// Whether a selection of `tests` runs the workload `w`: `all` runs every
/// workload, and otherwise a workload runs if its name stands in the
/// selection.
pub open spec fn selects(tests: Seq<char>, w: Workload) -> bool {
    tests == "all"@ || contains_text(tests, workload_name(w))
}

impl Default for Args {
    /// The options of an invocation that names none: a profile for NVMe
    /// devices with large blocks for throughput and 4 KiB blocks for IOPS.
    fn default() -> (a: Self)
        ensures
            a.device@.len() == 0,
            a.duration == 30,
            a.read_tp_threads == 30,
            a.write_tp_threads == 16,
            a.read_iops_threads == 120,
            a.write_iops_threads == 120,
            a.read_tp_qd == 1,
            a.write_tp_qd == 1,
            a.read_iops_qd == 1,
            a.write_iops_qd == 1,
            a.read_tp_bs == 128,
            a.write_tp_bs == 64,
            a.read_iops_bs == 4,
            a.write_iops_bs == 4,
            !a.prep,
            !a.create_file,
            a.file_size == 10,
            a.tests@ == "all"@,
    {
        Args {
            device: Vec::new(),
            duration: DEFAULT_DURATION,
            read_tp_threads: DEFAULT_READ_TP_THREADS,
            write_tp_threads: DEFAULT_WRITE_TP_THREADS,
            read_iops_threads: DEFAULT_IOPS_THREADS,
            write_iops_threads: DEFAULT_IOPS_THREADS,
            read_tp_qd: DEFAULT_QUEUE_DEPTH,
            write_tp_qd: DEFAULT_QUEUE_DEPTH,
            read_iops_qd: DEFAULT_QUEUE_DEPTH,
            write_iops_qd: DEFAULT_QUEUE_DEPTH,
            read_tp_bs: DEFAULT_READ_TP_BLOCK_KB,
            write_tp_bs: DEFAULT_WRITE_TP_BLOCK_KB,
            read_iops_bs: DEFAULT_IOPS_BLOCK_KB,
            write_iops_bs: DEFAULT_IOPS_BLOCK_KB,
            prep: false,
            create_file: false,
            file_size: DEFAULT_FILE_SIZE_GIB,
            tests: String::from_str("all"),
        }
    }
}

impl Args {
    /// Workers per device for `w`.
    pub open spec fn threads_of(&self, w: Workload) -> u32 {
        match w {
            Workload::ReadThroughput => self.read_tp_threads,
            Workload::WriteThroughput => self.write_tp_threads,
            Workload::ReadIops => self.read_iops_threads,
            Workload::WriteIops => self.write_iops_threads,
        }
    }

    /// Queue depth per worker for `w`.
    pub open spec fn queue_depth_of(&self, w: Workload) -> u32 {
        match w {
            Workload::ReadThroughput => self.read_tp_qd,
            Workload::WriteThroughput => self.write_tp_qd,
            Workload::ReadIops => self.read_iops_qd,
            Workload::WriteIops => self.write_iops_qd,
        }
    }

    /// Block size of `w` in KiB.
    pub open spec fn block_kb_of(&self, w: Workload) -> u32 {
        match w {
            Workload::ReadThroughput => self.read_tp_bs,
            Workload::WriteThroughput => self.write_tp_bs,
            Workload::ReadIops => self.read_iops_bs,
            Workload::WriteIops => self.write_iops_bs,
        }
    }

    /// Whether these options ask for the workload `w`.
    pub fn runs(&self, w: Workload) -> (b: bool)
        ensures
            b == selects(self.tests@, w),
    {
        same_text(self.tests.as_str(), "all") || contains(self.tests.as_str(), w.name())
    }

    /// The configuration of the workload `w` over `devices`.
    pub fn config_for(&self, w: Workload, devices: Vec<String>) -> (config: TestConfig)
        ensures
            config.device_paths == devices,
            config.io_size == self.block_kb_of(w) * 1024,
            config.threads == self.threads_of(w),
            config.queue_depth == self.queue_depth_of(w),
            config.duration_secs == self.duration,
            config.is_write == (w == Workload::WriteThroughput || w == Workload::WriteIops),
    {
        let (block_kb, threads, queue_depth) = match w {
            Workload::ReadThroughput => (self.read_tp_bs, self.read_tp_threads, self.read_tp_qd),
            Workload::WriteThroughput => (
                self.write_tp_bs,
                self.write_tp_threads,
                self.write_tp_qd,
            ),
            Workload::ReadIops => (self.read_iops_bs, self.read_iops_threads, self.read_iops_qd),
            Workload::WriteIops => (
                self.write_iops_bs,
                self.write_iops_threads,
                self.write_iops_qd,
            ),
        };
        TestConfig {
            device_paths: devices,
            io_size: block_kb as u64 * 1024,
            threads,
            queue_depth,
            duration_secs: self.duration,
            is_write: w.is_write(),
        }
    }
}

} // verus!
