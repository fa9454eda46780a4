//! What surrounds the workers of one timed run: checking the configuration,
//! laying out the workers over the devices, pacing the progress reports, and
//! publishing the result.

use vstd::prelude::*;
use vstd::string::*;
use crate::metrics::{lemma_sorted_percentile, Metrics, MetricsView};
use crate::worker::{Phase, WorkerView};

verus! {

/// Time between two looks at the clock while a test runs, in milliseconds.
pub const POLL_INTERVAL_MS: u64 = 100;

/// Time between two progress reports, in nanoseconds.
pub const REPORT_INTERVAL_NS: u64 = 5_000_000_000;

/// Nanoseconds in a second.
pub const NANOS_PER_SEC: u64 = 1_000_000_000;

/// Configuration of one workload over one or more devices.
pub struct TestConfig {
    pub device_paths: Vec<String>,
    pub io_size: u64,
    /// Workers per device.
    pub threads: u32,
    pub queue_depth: u32,
    pub duration_secs: u32,
    pub is_write: bool,
}

/// Why a test cannot start.
#[derive(Clone, Copy, Debug, PartialEq, Eq, Structural)]
pub enum ConfigError {
    /// No device was named.
    NoDevices,
    /// The device at this position reports a size of zero.
    EmptyDevice { index: usize },
}

impl ConfigError {
    /// The text that tells the user of this error, given the devices of
    /// the configuration it was found in.
    pub open spec fn message_of(self, device_paths: Seq<String>) -> Seq<char> {
        match self {
            ConfigError::NoDevices => "No devices specified"@,
            ConfigError::EmptyDevice { index } => "Device "@ + device_paths[index as int]@
                + " size is 0"@,
        }
    }

    /// The text that tells the user of this error.
    pub fn message(&self, config: &TestConfig) -> (text: String)
        requires
            self matches ConfigError::EmptyDevice { index } ==> index < config.device_paths@.len(),
        ensures
            text@ == self.message_of(config.device_paths@),
    {
        match self {
            ConfigError::NoDevices => String::from_str("No devices specified"),
            ConfigError::EmptyDevice { index } => {
                let mut text = String::from_str("Device ");
                text.append(config.device_paths[*index].as_str());
                text.append(" size is 0");
                text
            },
        }
    }
}

impl TestConfig {
    /// Whether the configuration names a device at all.
    pub fn check(&self) -> (r: Result<(), ConfigError>)
        ensures
            self.device_paths@.len() == 0 ==> r == Err::<(), ConfigError>(ConfigError::NoDevices),
            self.device_paths@.len() > 0 ==> r.is_ok(),
    {
        if self.device_paths.len() == 0 {
            Err(ConfigError::NoDevices)
        } else {
            Ok(())
        }
    }

    /// The block size in KiB as the result echoes it: whole KiB, in 32 bits.
    pub fn block_size_kb(&self) -> (kb: u32)
        ensures
            kb == block_size_kb_of(self.io_size),
    {
        ((self.io_size / 1024) % 0x1_0000_0000) as u32
    }
}

/// Whole KiB in `io_size`, cut to 32 bits.
pub open spec fn block_size_kb_of(io_size: u64) -> u32 {
    ((io_size as int / 1024) % 0x1_0000_0000) as u32
}

/// Sum of `sizes`.
pub open spec fn total_size(sizes: Seq<u64>) -> nat
    decreases sizes.len(),
{
    if sizes.len() == 0 {
        0
    } else {
        total_size(sizes.drop_last()) + sizes.last() as nat
    }
}

/// The sizes of the devices taken into a test so far, in the order of the
/// configuration.
pub struct DeviceSurvey {
    sizes: Vec<u64>,
}

impl View for DeviceSurvey {
    type V = Seq<u64>;

    closed spec fn view(&self) -> Seq<u64> {
        self.sizes@
    }
}

/// A sum of sizes is at most as many times the largest size there is.
pub proof fn lemma_total_size_bound(sizes: Seq<u64>)
    ensures
        total_size(sizes) <= sizes.len() * 0xffff_ffff_ffff_ffff,
    decreases sizes.len(),
{
    if sizes.len() > 0 {
        lemma_total_size_bound(sizes.drop_last());
        assert(sizes.len() * 0xffff_ffff_ffff_ffff == (sizes.len() - 1) * 0xffff_ffff_ffff_ffff
            + 0xffff_ffff_ffff_ffff) by (nonlinear_arith);
    }
}

impl DeviceSurvey {
    /// Every device taken has room for data.
    pub open spec fn wf(&self) -> bool {
        forall|i: int| 0 <= i < self@.len() ==> #[trigger] self@[i] > 0
    }

    /// A survey that has taken no device yet.
    pub fn new() -> (s: Self)
        ensures
            s@ == Seq::<u64>::empty(),
            s.wf(),
    {
        DeviceSurvey { sizes: Vec::new() }
    }

    /// Takes the size the next device of the configuration reported. A size
    /// of zero is refused and leaves the survey as it was.
    pub fn add_device(&mut self, size: u64) -> (r: Result<(), ConfigError>)
        requires
            old(self).wf(),
        ensures
            final(self).wf(),
            size == 0 ==> r == Err::<(), ConfigError>(
                ConfigError::EmptyDevice { index: old(self)@.len() as usize },
            ) && final(self)@ == old(self)@,
            size > 0 ==> r.is_ok() && final(self)@ == old(self)@.push(size),
    {
        if size == 0 {
            return Err(ConfigError::EmptyDevice { index: self.sizes.len() });
        }
        self.sizes.push(size);
        proof {
            assert forall|i: int| 0 <= i < self@.len() implies #[trigger] self@[i] > 0 by {
                if i < old(self)@.len() {
                    assert(self@[i] == old(self)@[i]);
                }
            }
        }
        Ok(())
    }

    /// Combined size of the devices taken in bytes.
    pub fn total_size(&self) -> (total: u128)
        ensures
            total == total_size(self@),
    {
        let mut total: u128 = 0;
        let mut i: usize = 0;
        proof {
            assert(self.sizes@.take(0) =~= Seq::<u64>::empty());
        }
        while i < self.sizes.len()
            invariant
                i <= self.sizes@.len(),
                total == total_size(self.sizes@.take(i as int)),
            decreases self.sizes@.len() - i,
        {
            proof {
                lemma_total_size_bound(self.sizes@.take(i as int));
                assert(i * 0xffff_ffff_ffff_ffff + 0xffff_ffff_ffff_ffff
                    <= 0xffff_ffff_ffff_ffff_ffff_ffff_ffff_ffff) by (nonlinear_arith)
                    requires
                        i <= 0xffff_ffff_ffff_ffff,
                ;
                assert(self.sizes@.take(i + 1).drop_last() =~= self.sizes@.take(i as int));
            }
            total = total + self.sizes[i] as u128;
            i += 1;
        }
        proof {
            assert(self.sizes@.take(i as int) =~= self.sizes@);
        }
        total
    }

    /// The sizes taken, in order.
    pub fn sizes(&self) -> (sizes: &Vec<u64>)
        ensures
            sizes@ == self@,
    {
        &self.sizes
    }
}

/// One worker of a test: its number among all workers of the test as 32
/// bits hold it, the device it drives by position in the configuration, and
/// that device's size.
#[derive(Clone, Copy, Debug, PartialEq, Eq, Structural)]
pub struct WorkerSpec {
    pub thread_id: u32,
    pub device: usize,
    pub device_size: u64,
}

/// The `k`-th worker of a test with `threads` workers per device: it drives
/// device `k / threads`, and its number is `k` as 32 bits hold it.
pub open spec fn worker_at(sizes: Seq<u64>, threads: u32, k: int) -> WorkerSpec {
    WorkerSpec {
        thread_id: (k % 0x1_0000_0000) as u32,
        device: (k / threads as int) as usize,
        device_size: sizes[k / threads as int],
    }
}

/// The workers of a test: `threads` per device, device by device, numbered
/// from zero in that order.
pub open spec fn workers_of(sizes: Seq<u64>, threads: u32) -> Seq<WorkerSpec> {
    Seq::new(sizes.len() * threads as nat, |k: int| worker_at(sizes, threads, k))
}

/// Lays out the workers of a test over its devices.
pub fn plan_workers(sizes: &Vec<u64>, threads: u32) -> (workers: Vec<WorkerSpec>)
    ensures
        workers@ == workers_of(sizes@, threads),
        workers@.len() == sizes@.len() * threads,
{
    let mut workers: Vec<WorkerSpec> = Vec::new();
    let mut next_id: u32 = 0;
    let mut device: usize = 0;
    while device < sizes.len()
        invariant
            device <= sizes@.len(),
            workers@.len() == device * threads,
            next_id == (device * threads) % 0x1_0000_0000,
            forall|k: int| 0 <= k < workers@.len() ==> #[trigger] workers@[k] == worker_at(
                sizes@,
                threads,
                k,
            ),
        decreases sizes@.len() - device,
    {
        let device_size = sizes[device];
        let mut t: u32 = 0;
        while t < threads
            invariant
                device < sizes@.len(),
                device_size == sizes@[device as int],
                t <= threads,
                workers@.len() == device * threads + t,
                next_id == (device * threads + t) % 0x1_0000_0000,
                forall|k: int| 0 <= k < workers@.len() ==> #[trigger] workers@[k] == worker_at(
                    sizes@,
                    threads,
                    k,
                ),
            decreases threads - t,
        {
            proof {
                lemma_worker_position(sizes@.len() as int, threads as int, device as int, t as int);
                vstd::arithmetic::div_mod::lemma_add_mod_noop(
                    device * threads + t,
                    1,
                    0x1_0000_0000,
                );
            }
            workers.push(WorkerSpec { thread_id: next_id, device, device_size });
            next_id = next_id.wrapping_add(1);
            t = t + 1;
        }
        proof {
            assert((device + 1) * threads == device * threads + threads) by (nonlinear_arith);
        }
        device = device + 1;
    }
    assert(workers@ =~= workers_of(sizes@, threads));
    workers
}

/// Worker `t` of device `d` is worker `d * threads + t` of the test.
pub proof fn lemma_worker_position(devices: int, threads: int, d: int, t: int)
    requires
        0 <= d < devices,
        0 <= t < threads,
    ensures
        0 <= d * threads + t < devices * threads,
        (d * threads + t) / threads == d,
        (d * threads + t) % threads == t,
{
    assert(0 <= d * threads + t < devices * threads) by (nonlinear_arith)
        requires
            0 <= d < devices,
            0 <= t < threads,
    ;
    vstd::arithmetic::div_mod::lemma_fundamental_div_mod_converse(d * threads + t, threads, d, t);
}

/// Every device gets its `threads` workers and no others: worker `t` of
/// device `d` stands at place `d * threads + t` of the layout, drives device
/// `d` and is given that device's size.
pub proof fn lemma_workers_per_device(sizes: Seq<u64>, threads: u32, d: int, t: int)
    requires
        sizes.len() <= usize::MAX,
        0 <= d < sizes.len(),
        0 <= t < threads,
    ensures
        workers_of(sizes, threads).len() == sizes.len() * threads,
        0 <= d * threads + t < workers_of(sizes, threads).len(),
        workers_of(sizes, threads)[d * threads + t].device == d,
        workers_of(sizes, threads)[d * threads + t].device_size == sizes[d],
{
    lemma_worker_position(sizes.len() as int, threads as int, d, t);
}

/// Every worker of the layout is one of the `threads` workers of one of the
/// devices.
pub proof fn lemma_worker_has_device(sizes: Seq<u64>, threads: u32, k: int)
    requires
        sizes.len() <= usize::MAX,
        0 <= k < workers_of(sizes, threads).len(),
    ensures
        threads > 0,
        0 <= k / (threads as int) < sizes.len(),
        0 <= k % (threads as int) < threads,
        workers_of(sizes, threads)[k].device == k / (threads as int),
        workers_of(sizes, threads)[k].device_size == sizes[k / (threads as int)],
{
    let n = sizes.len() as int;
    let th = threads as int;
    assert(th > 0) by (nonlinear_arith)
        requires
            0 <= k < n * th,
            n >= 0,
            th >= 0,
    ;
    vstd::arithmetic::div_mod::lemma_fundamental_div_mod(k, th);
    vstd::arithmetic::div_mod::lemma_mod_bound(k, th);
    assert(0 <= k / th < n) by (nonlinear_arith)
        requires
            0 <= k < n * th,
            th > 0,
            k == th * (k / th) + k % th,
            0 <= k % th < th,
    ;
}

/// I/Os outstanding over all of `workers`.
pub open spec fn total_outstanding(workers: Seq<WorkerView>) -> int
    decreases workers.len(),
{
    if workers.len() == 0 {
        0
    } else {
        total_outstanding(workers.drop_last()) + workers.last().outstanding()
    }
}

/// While all workers of a test run, the I/Os outstanding over the whole test
/// number devices times workers per device times queue depth.
pub proof fn lemma_fleet_outstanding(
    workers: Seq<WorkerView>,
    sizes: Seq<u64>,
    threads: u32,
    queue_depth: u32,
)
    requires
        workers.len() == workers_of(sizes, threads).len(),
        forall|k: int|
            0 <= k < workers.len() ==> {
                &&& (#[trigger] workers[k]).wf()
                &&& workers[k].phase == Phase::Running
                &&& workers[k].queue_depth == queue_depth
            },
    ensures
        total_outstanding(workers) == sizes.len() * threads * queue_depth,
{
    lemma_running_outstanding(workers, queue_depth);
}

/// Workers that all run at the same queue depth have that many I/Os
/// outstanding each.
pub proof fn lemma_running_outstanding(workers: Seq<WorkerView>, queue_depth: u32)
    requires
        forall|k: int|
            0 <= k < workers.len() ==> {
                &&& (#[trigger] workers[k]).wf()
                &&& workers[k].phase == Phase::Running
                &&& workers[k].queue_depth == queue_depth
            },
    ensures
        total_outstanding(workers) == workers.len() * queue_depth,
    decreases workers.len(),
{
    if workers.len() > 0 {
        lemma_running_outstanding(workers.drop_last(), queue_depth);
        assert(workers.len() * queue_depth == (workers.len() - 1) * queue_depth + queue_depth)
            by (nonlinear_arith);
    }
}

/// What a `Supervisor` stands for: how long the test is to run, and when the
/// next progress report is due, both since the start of the test.
pub struct SupervisorView {
    pub duration_ns: u64,
    pub next_report_ns: u64,
}

/// Paces one test: it runs for a fixed time and reports progress at a fixed
/// interval.
pub struct Supervisor {
    duration_ns: u64,
    next_report_ns: u64,
}

impl View for Supervisor {
    type V = SupervisorView;

    closed spec fn view(&self) -> SupervisorView {
        SupervisorView { duration_ns: self.duration_ns, next_report_ns: self.next_report_ns }
    }
}

impl Supervisor {
    /// A supervisor for a test of `duration_secs` seconds that starts now.
    pub fn new(duration_secs: u32) -> (s: Self)
        ensures
            s@.duration_ns == duration_secs * NANOS_PER_SEC,
            s@.next_report_ns == REPORT_INTERVAL_NS,
    {
        Supervisor {
            duration_ns: duration_secs as u64 * NANOS_PER_SEC,
            next_report_ns: REPORT_INTERVAL_NS,
        }
    }

    /// Whether the test has run its time, `elapsed_ns` after its start.
    pub fn expired(&self, elapsed_ns: u64) -> (done: bool)
        ensures
            done == (elapsed_ns >= self@.duration_ns),
    {
        elapsed_ns >= self.duration_ns
    }

    /// Whether a progress report is due `elapsed_ns` after the start. If one
    /// is, the next becomes due one interval after this one was.
    pub fn report_due(&mut self, elapsed_ns: u64) -> (due: bool)
        ensures
            due == (elapsed_ns >= old(self)@.next_report_ns),
            final(self)@.duration_ns == old(self)@.duration_ns,
            !due ==> final(self)@.next_report_ns == old(self)@.next_report_ns,
            due ==> final(self)@.next_report_ns == if old(self)@.next_report_ns
                + REPORT_INTERVAL_NS > u64::MAX {
                u64::MAX
            } else {
                (old(self)@.next_report_ns + REPORT_INTERVAL_NS) as u64
            },
    {
        if elapsed_ns >= self.next_report_ns {
            self.next_report_ns = self.next_report_ns.saturating_add(REPORT_INTERVAL_NS);
            true
        } else {
            false
        }
    }
}

/// The published record of one workload, in exact units: what was counted,
/// over how long, the latency figures in nanoseconds, and the parameters the
/// test ran with.
#[derive(Clone, Copy, Debug, PartialEq, Eq, Structural)]
pub struct TestResult {
    pub total_ops: u64,
    pub total_bytes: u64,
    pub elapsed_ns: u64,
    pub latency_sum_ns: u64,
    pub latency_samples: u64,
    pub latency_avg_ns: u64,
    pub latency_p50_ns: u64,
    pub latency_p99_ns: u64,
    pub threads: u32,
    pub queue_depth: u32,
    pub block_size_kb: u32,
    pub duration_secs: u32,
}

/// The record that a test under `config` publishes when its workers left
/// `metrics` behind after `elapsed_ns`.
pub open spec fn result_of(config: &TestConfig, metrics: MetricsView, elapsed_ns: u64) -> TestResult {
    TestResult {
        total_ops: metrics.total_ops,
        total_bytes: metrics.total_bytes,
        elapsed_ns,
        latency_sum_ns: metrics.latency_sum_ns,
        latency_samples: metrics.latency_samples,
        latency_avg_ns: metrics.mean_latency_ns(),
        latency_p50_ns: metrics.percentile(50),
        latency_p99_ns: metrics.percentile(99),
        threads: config.threads,
        queue_depth: config.queue_depth,
        block_size_kb: block_size_kb_of(config.io_size),
        duration_secs: config.duration_secs,
    }
}

/// Reads the final figures of a test off its metrics. The reservoir is left
/// sorted.
pub fn summarize(config: &TestConfig, metrics: &mut Metrics, elapsed_ns: u64) -> (result:
    TestResult)
    ensures
        result == result_of(config, old(metrics)@, elapsed_ns),
        final(metrics)@ == old(metrics)@.sorted(),
        result.latency_p50_ns <= result.latency_p99_ns,
        old(metrics)@.latency_samples == 0 ==> result.latency_avg_ns == 0,
        old(metrics)@.reservoir.len() == 0 ==> result.latency_p50_ns == 0 && result.latency_p99_ns
            == 0,
{
    proof {
        lemma_sorted_percentile(old(metrics)@, 99);
        crate::metrics::lemma_percentile_monotone(old(metrics)@, 50, 99);
    }
    let totals = metrics.snapshot();
    let latency_avg_ns = metrics.mean_latency_ns();
    let latency_p50_ns = metrics.percentile(50);
    let latency_p99_ns = metrics.percentile(99);
    TestResult {
        total_ops: totals.total_ops,
        total_bytes: totals.total_bytes,
        elapsed_ns,
        latency_sum_ns: totals.latency_sum_ns,
        latency_samples: totals.latency_samples,
        latency_avg_ns,
        latency_p50_ns,
        latency_p99_ns,
        threads: config.threads,
        queue_depth: config.queue_depth,
        block_size_kb: config.block_size_kb(),
        duration_secs: config.duration_secs,
    }
}

} // verus!
