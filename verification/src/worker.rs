//! The per-device submitter as a state machine.
//!
//! A worker owns `queue_depth` slots. Priming issues one I/O per slot; from
//! then on every completion that is reaped is answered at once with a new
//! submission on the same slot, so the number of outstanding I/Os never
//! moves. Counters are kept locally and handed over in batches. The caller
//! performs the submissions and feeds the completions back.

use vstd::prelude::*;
use crate::counter::wrapped_sum;
use crate::offsets::{offset_in_range, OffsetTable, OffsetTableView, OFFSET_TABLE_LEN};

verus! {

/// Local operations after which the counters are due to be handed over.
pub const FLUSH_BATCH: u64 = 256;

/// One latency sample is taken per this many counted completions.
pub const LATENCY_STRIDE: u64 = 64;

/// Most completions taken from the device in one wait.
pub const REAP_BATCH: usize = 64;

/// Longest wait for a completion before the stop flag is looked at again, in
/// milliseconds.
pub const WAIT_TIMEOUT_MS: u32 = 1;

/// An I/O for the caller to submit: `len` bytes at `offset`, read or written
/// through the buffer of `slot`, and tagged with `slot`.
#[derive(Clone, Copy, Debug, PartialEq, Eq, Structural)]
pub struct Submission {
    pub slot: u32,
    pub offset: u64,
    pub len: u64,
    pub is_write: bool,
}

/// A completion the caller reaped: the tag it carried, the transferred byte
/// count or a non-positive error result, and the time it was reaped at.
#[derive(Clone, Copy, Debug, PartialEq, Eq, Structural)]
pub struct Completion {
    pub slot: u64,
    pub result: i64,
    pub now_ns: u64,
}

/// Counters handed over to the shared metrics in one go.
#[derive(Clone, Copy, Debug, PartialEq, Eq, Structural)]
pub struct Batch {
    pub ops: u64,
    pub bytes: u64,
}

/// What reaping one completion asks of the caller: the submission that
/// refills the slot, and a latency sample to record if this completion was
/// chosen for one.
#[derive(Clone, Copy, Debug, PartialEq, Eq, Structural)]
pub struct Reaped {
    pub reissue: Submission,
    pub latency_ns: Option<u64>,
}

/// Where a worker is in its life.
#[derive(Clone, Copy, Debug, PartialEq, Eq, Structural)]
pub enum Phase {
    /// Nothing submitted yet.
    Created,
    /// Primed; every slot is in flight.
    Running,
    /// Stopped; what is still outstanding is cancelled and discarded.
    Stopped,
}

/// Time from `issued_ns` to `now_ns`, zero if the clock stepped back.
pub open spec fn elapsed_ns(issued_ns: u64, now_ns: u64) -> u64 {
    if now_ns >= issued_ns {
        (now_ns - issued_ns) as u64
    } else {
        0
    }
}

/// What a `Worker` stands for.
pub struct WorkerView {
    pub phase: Phase,
    pub io_size: u64,
    pub queue_depth: u32,
    pub is_write: bool,
    pub usable_range: u64,
    pub table: OffsetTableView,
    /// When the I/O now in flight on each slot was issued.
    pub issue_time: Seq<u64>,
    pub local_ops: u64,
    pub local_bytes: u64,
    /// Completions counted so far, modulo 2^64; paces the latency samples.
    pub op_count: u64,
    /// Submissions handed to the caller so far.
    pub issued: nat,
    /// Completions taken from the caller while running.
    pub reaped: nat,
}

impl WorkerView {
    /// A worker that has not submitted anything yet.
    pub open spec fn created(
        io_size: u64,
        queue_depth: u32,
        is_write: bool,
        usable_range: u64,
        table: OffsetTableView,
    ) -> WorkerView {
        WorkerView {
            phase: Phase::Created,
            io_size,
            queue_depth,
            is_write,
            usable_range,
            table,
            issue_time: Seq::new(queue_depth as nat, |i: int| 0u64),
            local_ops: 0,
            local_bytes: 0,
            op_count: 0,
            issued: 0,
            reaped: 0,
        }
    }

    /// The ring of offsets is in order and fits the device, every slot has
    /// its issue time, and the submissions and completions counted so far
    /// agree with the phase: none before priming, and while running exactly
    /// `queue_depth` more submissions than completions.
    pub open spec fn wf(self) -> bool {
        &&& self.table.wf()
        &&& self.table.covers(self.io_size, self.usable_range)
        &&& self.issue_time.len() == self.queue_depth
        &&& self.phase == Phase::Created ==> self.issued == 0 && self.reaped == 0
        &&& self.phase == Phase::Running ==> self.issued == self.reaped + self.queue_depth
    }

    /// I/Os submitted and not yet reaped or cancelled.
    pub open spec fn outstanding(self) -> int {
        if self.phase == Phase::Stopped {
            0
        } else {
            self.issued - self.reaped
        }
    }

    /// The submission that puts the next offset of the ring on `slot`.
    pub open spec fn submission_for(self, slot: u32) -> Submission {
        Submission {
            slot,
            offset: self.table.peek(),
            len: self.io_size,
            is_write: self.is_write,
        }
    }

    /// `s` is an I/O this worker may issue: on one of its slots, of its
    /// block size and kind, block-aligned and inside the usable range.
    pub open spec fn admits(self, s: Submission) -> bool {
        &&& s.slot < self.queue_depth
        &&& s.len == self.io_size
        &&& s.is_write == self.is_write
        &&& offset_in_range(s.offset, self.io_size, self.usable_range)
    }

    /// A completion is taken up if the worker is running and the tag names
    /// one of its slots.
    pub open spec fn accepts(self, c: Completion) -> bool {
        self.phase == Phase::Running && c.slot < self.queue_depth
    }

    /// The state after `slot` was issued at `now_ns`.
    pub open spec fn issue(self, slot: u32, now_ns: u64) -> WorkerView {
        WorkerView {
            table: self.table.advanced(),
            issue_time: self.issue_time.update(slot as int, now_ns),
            issued: self.issued + 1,
            ..self
        }
    }

    /// The latency sample that `c` yields: every `LATENCY_STRIDE`-th counted
    /// completion is timed against the issue of its slot.
    pub open spec fn sample_of(self, c: Completion) -> Option<u64> {
        if c.result > 0 && wrapped_sum(self.op_count, 1) % LATENCY_STRIDE == 0 {
            Some(elapsed_ns(self.issue_time[c.slot as int], c.now_ns))
        } else {
            None
        }
    }

    /// The counters after `c` was counted: a positive result is one more
    /// operation and that many more bytes, anything else counts for nothing.
    pub open spec fn count(self, c: Completion) -> WorkerView {
        if c.result > 0 {
            WorkerView {
                op_count: wrapped_sum(self.op_count, 1),
                local_ops: wrapped_sum(self.local_ops, 1),
                local_bytes: wrapped_sum(self.local_bytes, c.result as u64),
                ..self
            }
        } else {
            self
        }
    }

    /// The state after `c` was reaped: counted, and its slot issued again.
    /// A completion that is not taken up changes nothing.
    pub open spec fn reap(self, c: Completion) -> WorkerView {
        if self.accepts(c) {
            let counted = self.count(c);
            WorkerView { reaped: self.reaped + 1, ..counted }.issue(c.slot as u32, c.now_ns)
        } else {
            self
        }
    }

    /// What reaping `c` hands to the caller, if `c` is taken up.
    pub open spec fn reaped_of(self, c: Completion) -> Option<Reaped> {
        if self.accepts(c) {
            Some(
                Reaped {
                    reissue: self.submission_for(c.slot as u32),
                    latency_ns: self.sample_of(c),
                },
            )
        } else {
            None
        }
    }

    /// The local counters as a batch.
    pub open spec fn pending(self) -> Batch {
        Batch { ops: self.local_ops, bytes: self.local_bytes }
    }

    /// The state after the local counters were handed over.
    pub open spec fn flushed(self) -> WorkerView {
        WorkerView { local_ops: 0, local_bytes: 0, ..self }
    }

    /// The batch that is due, if `FLUSH_BATCH` operations have gathered.
    pub open spec fn batch_due(self) -> Option<Batch> {
        if self.local_ops >= FLUSH_BATCH {
            Some(self.pending())
        } else {
            None
        }
    }

    /// The state after the batch that was due, if any, was handed over.
    pub open spec fn without_batch(self) -> WorkerView {
        if self.local_ops >= FLUSH_BATCH {
            self.flushed()
        } else {
            self
        }
    }

    /// The state after slots `0..n` were issued in order at `now_ns`.
    pub open spec fn primed(self, n: nat, now_ns: u64) -> WorkerView
        decreases n,
    {
        if n == 0 {
            self
        } else {
            self.primed((n - 1) as nat, now_ns).issue((n - 1) as u32, now_ns)
        }
    }

    /// The submissions that priming hands out: slot `i` gets the `i`-th
    /// offset from the cursor on.
    pub open spec fn prime_submissions(self, now_ns: u64) -> Seq<Submission> {
        Seq::new(
            self.queue_depth as nat,
            |i: int| self.primed(i as nat, now_ns).submission_for(i as u32),
        )
    }

    /// The state after priming: every slot issued once, and running.
    pub open spec fn started(self, now_ns: u64) -> WorkerView {
        WorkerView { phase: Phase::Running, ..self.primed(self.queue_depth as nat, now_ns) }
    }

    /// The state after stopping: counters handed over, nothing outstanding.
    pub open spec fn halted(self) -> WorkerView {
        WorkerView { phase: Phase::Stopped, ..self.flushed() }
    }
}

/// One submitter: the slots of one device handle, the ring of offsets they
/// are issued at, and the counters not yet handed over.
pub struct Worker {
    phase: Phase,
    io_size: u64,
    queue_depth: u32,
    is_write: bool,
    usable_range: u64,
    table: OffsetTable,
    issue_time: Vec<u64>,
    local_ops: u64,
    local_bytes: u64,
    op_count: u64,
    issued: Ghost<nat>,
    reaped: Ghost<nat>,
}

impl View for Worker {
    type V = WorkerView;

    closed spec fn view(&self) -> WorkerView {
        WorkerView {
            phase: self.phase,
            io_size: self.io_size,
            queue_depth: self.queue_depth,
            is_write: self.is_write,
            usable_range: self.usable_range,
            table: self.table@,
            issue_time: self.issue_time@,
            local_ops: self.local_ops,
            local_bytes: self.local_bytes,
            op_count: self.op_count,
            issued: self.issued@,
            reaped: self.reaped@,
        }
    }
}

/// Priming keeps everything but the ring's cursor, the issue times and the
/// count of submissions, and leaves the worker well formed.
pub proof fn lemma_primed(w: WorkerView, n: nat, now_ns: u64)
    requires
        w.wf(),
        w.phase == Phase::Created,
        n <= w.queue_depth,
    ensures
        w.primed(n, now_ns).table.wf(),
        w.primed(n, now_ns).table.offsets == w.table.offsets,
        w.primed(n, now_ns).issue_time.len() == w.queue_depth,
        w.primed(n, now_ns).issued == n,
        w.primed(n, now_ns).reaped == 0,
        w.primed(n, now_ns) == (WorkerView {
            table: w.primed(n, now_ns).table,
            issue_time: w.primed(n, now_ns).issue_time,
            issued: n,
            ..w
        }),
        forall|i: int| 0 <= i < n ==> w.primed(n, now_ns).issue_time[i] == now_ns,
    decreases n,
{
    if n > 0 {
        lemma_primed(w, (n - 1) as nat, now_ns);
    }
}

impl Worker {
    /// A worker over a ring of offsets drawn beforehand.
    pub fn with_table(
        io_size: u64,
        queue_depth: u32,
        is_write: bool,
        usable_range: u64,
        table: OffsetTable,
    ) -> (w: Self)
        requires
            table@.wf(),
            table@.covers(io_size, usable_range),
        ensures
            w@.wf(),
            w@ == WorkerView::created(io_size, queue_depth, is_write, usable_range, table@),
    {
        let issue_time = vec![0u64; queue_depth as usize];
        assert(issue_time@ =~= Seq::new(queue_depth as nat, |i: int| 0u64));
        Worker {
            phase: Phase::Created,
            io_size,
            queue_depth,
            is_write,
            usable_range,
            table,
            issue_time,
            local_ops: 0,
            local_bytes: 0,
            op_count: 0,
            issued: Ghost(0),
            reaped: Ghost(0),
        }
    }

    /// A worker for I/O of `io_size` bytes below `usable_range`, with a
    /// freshly drawn ring of offsets.
    pub fn new(io_size: u64, queue_depth: u32, is_write: bool, usable_range: u64) -> (w: Self)
        requires
            0 < io_size <= usable_range,
        ensures
            w@.wf(),
            w@ == WorkerView::created(io_size, queue_depth, is_write, usable_range, w@.table),
            w@.table.offsets.len() == OFFSET_TABLE_LEN,
            w@.table.cursor == 0,
            exists|draws: Seq<u64>|
                w@.table.offsets == crate::offsets::offsets_of_draws(draws, io_size, usable_range),
            w@.outstanding() == 0,
    {
        let table = OffsetTable::generate(io_size, usable_range);
        Worker::with_table(io_size, queue_depth, is_write, usable_range, table)
    }

    /// Issues one I/O on every slot, in slot order, and starts the worker.
    pub fn prime(&mut self, now_ns: u64) -> (submissions: Vec<Submission>)
        requires
            old(self)@.wf(),
            old(self)@.phase == Phase::Created,
        ensures
            final(self)@ == old(self)@.started(now_ns),
            final(self)@.wf(),
            final(self)@.outstanding() == old(self)@.queue_depth,
            submissions@ == old(self)@.prime_submissions(now_ns),
            forall|i: int|
                0 <= i < submissions@.len() ==> old(self)@.admits(#[trigger] submissions@[i]),
    {
        let mut submissions: Vec<Submission> = Vec::with_capacity(self.queue_depth as usize);
        let mut slot: u32 = 0;
        while slot < self.queue_depth
            invariant
                old(self)@.wf(),
                old(self)@.phase == Phase::Created,
                slot <= self.queue_depth,
                self.queue_depth == old(self)@.queue_depth,
                self@ == old(self)@.primed(slot as nat, now_ns),
                submissions@.len() == slot,
                forall|i: int|
                    0 <= i < slot ==> #[trigger] submissions@[i] == old(self)@.primed(
                        i as nat,
                        now_ns,
                    ).submission_for(i as u32),
                forall|i: int| 0 <= i < slot ==> old(self)@.admits(#[trigger] submissions@[i]),
            decreases self.queue_depth - slot,
        {
            proof {
                lemma_primed(old(self)@, slot as nat, now_ns);
            }
            let offset = self.table.next();
            self.issue_time[slot as usize] = now_ns;
            self.issued = Ghost(self.issued@ + 1);
            submissions.push(
                Submission { slot, offset, len: self.io_size, is_write: self.is_write },
            );
            slot += 1;
        }
        proof {
            lemma_primed(old(self)@, self.queue_depth as nat, now_ns);
        }
        assert(submissions@ =~= old(self)@.prime_submissions(now_ns));
        self.phase = Phase::Running;
        submissions
    }

    /// Takes up one completion: counts it, decides whether it is timed, and
    /// refills its slot with the next offset of the ring. A completion that
    /// arrives while the worker is not running, or whose tag names no slot,
    /// is dropped and changes nothing.
    pub fn reap(&mut self, c: Completion) -> (r: Option<Reaped>)
        requires
            old(self)@.wf(),
        ensures
            final(self)@ == old(self)@.reap(c),
            r == old(self)@.reaped_of(c),
            final(self)@.wf(),
            final(self)@.outstanding() == old(self)@.outstanding(),
            r matches Some(out) ==> old(self)@.admits(out.reissue),
    {
        if !(self.phase == Phase::Running) || c.slot >= self.queue_depth as u64 {
            return None;
        }
        let slot = c.slot as u32;
        let mut latency_ns: Option<u64> = None;
        if c.result > 0 {
            self.op_count = self.op_count.wrapping_add(1);
            if self.op_count % LATENCY_STRIDE == 0 {
                let issued_ns = self.issue_time[slot as usize];
                latency_ns = Some(if c.now_ns >= issued_ns {
                    c.now_ns - issued_ns
                } else {
                    0
                });
            }
            self.local_ops = self.local_ops.wrapping_add(1);
            self.local_bytes = self.local_bytes.wrapping_add(c.result as u64);
        }
        self.reaped = Ghost(self.reaped@ + 1);
        let offset = self.table.next();
        self.issue_time[slot as usize] = c.now_ns;
        self.issued = Ghost(self.issued@ + 1);
        Some(
            Reaped {
                reissue: Submission { slot, offset, len: self.io_size, is_write: self.is_write },
                latency_ns,
            },
        )
    }

    /// Hands over the local counters once `FLUSH_BATCH` operations have
    /// gathered, and resets them; until then nothing is handed over.
    pub fn take_batch(&mut self) -> (batch: Option<Batch>)
        requires
            old(self)@.wf(),
        ensures
            batch == old(self)@.batch_due(),
            final(self)@ == old(self)@.without_batch(),
            final(self)@.wf(),
    {
        if self.local_ops >= FLUSH_BATCH {
            let batch = Batch { ops: self.local_ops, bytes: self.local_bytes };
            self.local_ops = 0;
            self.local_bytes = 0;
            Some(batch)
        } else {
            None
        }
    }

    /// Stops the worker and hands over what was counted since the last
    /// batch; whatever is still in flight is the caller's to cancel.
    pub fn stop(&mut self) -> (batch: Batch)
        requires
            old(self)@.wf(),
        ensures
            final(self)@ == old(self)@.halted(),
            final(self)@.wf(),
            final(self)@.outstanding() == 0,
            batch == old(self)@.pending(),
    {
        let batch = Batch { ops: self.local_ops, bytes: self.local_bytes };
        self.local_ops = 0;
        self.local_bytes = 0;
        self.phase = Phase::Stopped;
        batch
    }
}

/// A stopped worker takes up nothing more: whatever completes afterwards is
/// dropped, and nothing is issued in answer.
pub proof fn lemma_stopped_is_final(w: WorkerView, c: Completion)
    requires
        w.phase == Phase::Stopped,
    ensures
        w.reap(c) == w,
        w.reaped_of(c).is_none(),
        w.outstanding() == 0,
{
}

} // verus!
