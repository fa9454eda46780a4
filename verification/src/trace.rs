//! What holds of a worker over everything a caller can do with it.

use vstd::prelude::*;
use crate::counter::{lemma_mod_step, lemma_wrapped_step, wrapped_sum, wrapped_total};
use crate::worker::{Batch, Completion, Phase, Submission, WorkerView};

verus! {

/// One thing a caller does with a worker.
pub enum WorkerStep {
    /// Prime it at the given time; only a worker that was never primed takes
    /// this up.
    Prime(u64),
    /// Feed it a completion.
    Reap(Completion),
    /// Ask for the batch that is due.
    TakeBatch,
    /// Stop it.
    Stop,
}

impl WorkerView {
    /// The state after the caller did `step`.
    pub open spec fn after(self, step: WorkerStep) -> WorkerView {
        match step {
            WorkerStep::Prime(now_ns) => if self.phase == Phase::Created {
                self.started(now_ns)
            } else {
                self
            },
            WorkerStep::Reap(c) => self.reap(c),
            WorkerStep::TakeBatch => self.without_batch(),
            WorkerStep::Stop => self.halted(),
        }
    }

    /// The counters that `step` hands to the caller, zero if it hands over
    /// none.
    pub open spec fn hands_over(self, step: WorkerStep) -> Batch {
        match step {
            WorkerStep::Prime(now_ns) => Batch { ops: 0, bytes: 0 },
            WorkerStep::Reap(c) => Batch { ops: 0, bytes: 0 },
            WorkerStep::TakeBatch => match self.batch_due() {
                Some(batch) => batch,
                None => Batch { ops: 0, bytes: 0 },
            },
            WorkerStep::Stop => self.pending(),
        }
    }

    /// The state after the caller did `steps` in order.
    pub open spec fn driven(self, steps: Seq<WorkerStep>) -> WorkerView
        decreases steps.len(),
    {
        if steps.len() == 0 {
            self
        } else {
            self.driven(steps.drop_last()).after(steps.last())
        }
    }

    /// The operations handed to the caller over `steps`.
    pub open spec fn ops_handed_over(self, steps: Seq<WorkerStep>) -> nat
        decreases steps.len(),
    {
        if steps.len() == 0 {
            0
        } else {
            self.ops_handed_over(steps.drop_last()) + self.driven(steps.drop_last()).hands_over(
                steps.last(),
            ).ops as nat
        }
    }

    /// The bytes handed to the caller over `steps`.
    pub open spec fn bytes_handed_over(self, steps: Seq<WorkerStep>) -> nat
        decreases steps.len(),
    {
        if steps.len() == 0 {
            0
        } else {
            self.bytes_handed_over(steps.drop_last()) + self.driven(steps.drop_last()).hands_over(
                steps.last(),
            ).bytes as nat
        }
    }

    /// The completions among `steps` that the worker took up and that
    /// transferred data.
    pub open spec fn ops_completed(self, steps: Seq<WorkerStep>) -> nat
        decreases steps.len(),
    {
        if steps.len() == 0 {
            0
        } else {
            let at = self.driven(steps.drop_last());
            self.ops_completed(steps.drop_last()) + match steps.last() {
                WorkerStep::Reap(c) => if at.accepts(c) && c.result > 0 {
                    1nat
                } else {
                    0nat
                },
                _ => 0nat,
            }
        }
    }

    /// The bytes that those completions transferred.
    pub open spec fn bytes_completed(self, steps: Seq<WorkerStep>) -> nat
        decreases steps.len(),
    {
        if steps.len() == 0 {
            0
        } else {
            let at = self.driven(steps.drop_last());
            self.bytes_completed(steps.drop_last()) + match steps.last() {
                WorkerStep::Reap(c) => if at.accepts(c) && c.result > 0 {
                    c.result as nat
                } else {
                    0nat
                },
                _ => 0nat,
            }
        }
    }
}

/// Whatever a caller does with a worker, in whatever order, the worker stays
/// well formed: while it runs exactly `queue_depth` I/Os are outstanding, and
/// once it is stopped none are.
pub proof fn lemma_driven_keeps_depth(w: WorkerView, steps: Seq<WorkerStep>)
    requires
        w.wf(),
    ensures
        w.driven(steps).wf(),
        w.driven(steps).queue_depth == w.queue_depth,
        w.driven(steps).phase == Phase::Running ==> w.driven(steps).outstanding() == w.queue_depth,
        w.driven(steps).phase == Phase::Stopped ==> w.driven(steps).outstanding() == 0,
    decreases steps.len(),
{
    if steps.len() > 0 {
        lemma_driven_keeps_depth(w, steps.drop_last());
        let at = w.driven(steps.drop_last());
        if steps.last() is Prime && at.phase == Phase::Created {
            lemma_started(at, steps.last()->Prime_0);
        }
    }
}

/// What a worker has handed over and what it still holds add up to what it
/// held at first and what completed since, operations and bytes alike,
/// modulo 2^64. After a stop it holds nothing, so everything that completed
/// has been handed over.
#[verifier::rlimit(40)]
pub proof fn lemma_nothing_lost(w: WorkerView, steps: Seq<WorkerStep>)
    requires
        w.wf(),
    ensures
        (w.ops_handed_over(steps) + w.driven(steps).local_ops) % 0x1_0000_0000_0000_0000 == (
        w.local_ops + w.ops_completed(steps)) % 0x1_0000_0000_0000_0000,
        (w.bytes_handed_over(steps) + w.driven(steps).local_bytes) % 0x1_0000_0000_0000_0000 == (
        w.local_bytes + w.bytes_completed(steps)) % 0x1_0000_0000_0000_0000,
        steps.len() > 0 && steps.last() is Stop ==> w.driven(steps).local_ops == 0 && w.driven(
            steps,
        ).local_bytes == 0,
    decreases steps.len(),
{
    let m = 0x1_0000_0000_0000_0000int;
    if steps.len() > 0 {
        let head = steps.drop_last();
        lemma_nothing_lost(w, head);
        let at = w.driven(head);
        lemma_driven_keeps_depth(w, head);
        match steps.last() {
            WorkerStep::Prime(now_ns) => {
                if at.phase == Phase::Created {
                    lemma_started(at, now_ns);
                }
            },
            WorkerStep::Reap(c) => {
                if at.accepts(c) && c.result > 0 {
                    lemma_mod_step(w.ops_handed_over(head) as int, at.local_ops, 1);
                    lemma_mod_step(w.bytes_handed_over(head) as int, at.local_bytes, c.result as u64);
                    vstd::arithmetic::div_mod::lemma_add_mod_noop(
                        w.ops_handed_over(head) + at.local_ops,
                        1,
                        m,
                    );
                    vstd::arithmetic::div_mod::lemma_add_mod_noop(
                        w.local_ops + w.ops_completed(head),
                        1,
                        m,
                    );
                    vstd::arithmetic::div_mod::lemma_add_mod_noop(
                        w.bytes_handed_over(head) + at.local_bytes,
                        c.result as int,
                        m,
                    );
                    vstd::arithmetic::div_mod::lemma_add_mod_noop(
                        w.local_bytes + w.bytes_completed(head),
                        c.result as int,
                        m,
                    );
                }
            },
            _ => {},
        }
    }
}

/// While what a worker counts fits in 64 bits nothing wraps: what it has
/// handed over and what it still holds are exactly what it held at first and
/// the operations that completed since. After a stop it holds nothing, so the
/// operations handed over are exactly those that completed.
pub proof fn lemma_ops_handed_over_exactly(w: WorkerView, steps: Seq<WorkerStep>)
    requires
        w.wf(),
        w.local_ops + w.ops_completed(steps) <= u64::MAX,
    ensures
        w.ops_handed_over(steps) + w.driven(steps).local_ops == w.local_ops + w.ops_completed(
            steps,
        ),
        steps.len() > 0 && steps.last() is Stop ==> w.ops_handed_over(steps) == w.local_ops
            + w.ops_completed(steps),
    decreases steps.len(),
{
    if steps.len() > 0 {
        let head = steps.drop_last();
        lemma_ops_handed_over_exactly(w, head);
        lemma_driven_keeps_depth(w, head);
        let at = w.driven(head);
        match steps.last() {
            WorkerStep::Prime(now_ns) => {
                if at.phase == Phase::Created {
                    lemma_started(at, now_ns);
                }
            },
            WorkerStep::Reap(c) => {
                if at.accepts(c) && c.result > 0 {
                    vstd::arithmetic::div_mod::lemma_small_mod(
                        (at.local_ops + 1) as nat,
                        0x1_0000_0000_0000_0000nat,
                    );
                }
            },
            _ => {},
        }
    }
}

/// While what a worker counts fits in 64 bits nothing wraps: what it has
/// handed over and what it still holds are exactly what it held at first and
/// the bytes that completed since. After a stop it holds nothing, so the
/// bytes handed over are exactly those that completed.
pub proof fn lemma_bytes_handed_over_exactly(w: WorkerView, steps: Seq<WorkerStep>)
    requires
        w.wf(),
        w.local_bytes + w.bytes_completed(steps) <= u64::MAX,
    ensures
        w.bytes_handed_over(steps) + w.driven(steps).local_bytes == w.local_bytes
            + w.bytes_completed(steps),
        steps.len() > 0 && steps.last() is Stop ==> w.bytes_handed_over(steps) == w.local_bytes
            + w.bytes_completed(steps),
    decreases steps.len(),
{
    if steps.len() > 0 {
        let head = steps.drop_last();
        lemma_bytes_handed_over_exactly(w, head);
        lemma_driven_keeps_depth(w, head);
        let at = w.driven(head);
        match steps.last() {
            WorkerStep::Prime(now_ns) => {
                if at.phase == Phase::Created {
                    lemma_started(at, now_ns);
                }
            },
            WorkerStep::Reap(c) => {
                if at.accepts(c) && c.result > 0 {
                    vstd::arithmetic::div_mod::lemma_small_mod(
                        (at.local_bytes + c.result) as nat,
                        0x1_0000_0000_0000_0000nat,
                    );
                }
            },
            _ => {},
        }
    }
}

impl WorkerView {
    /// The latency sample that reaping `c` yields, if `c` is taken up and
    /// chosen for one.
    pub open spec fn yields(self, c: Completion) -> Option<u64> {
        if self.accepts(c) {
            self.sample_of(c)
        } else {
            None
        }
    }

    /// The state after the completions `cs` were reaped in order.
    pub open spec fn reap_all(self, cs: Seq<Completion>) -> WorkerView
        decreases cs.len(),
    {
        if cs.len() == 0 {
            self
        } else {
            self.reap_all(cs.drop_last()).reap(cs.last())
        }
    }

    /// The submissions that reaping `cs` in order hands out.
    pub open spec fn reissues(self, cs: Seq<Completion>) -> Seq<Submission>
        decreases cs.len(),
    {
        if cs.len() == 0 {
            Seq::empty()
        } else {
            let before = self.reissues(cs.drop_last());
            match self.reap_all(cs.drop_last()).reaped_of(cs.last()) {
                Some(out) => before.push(out.reissue),
                None => before,
            }
        }
    }

    /// The latency samples that reaping `cs` in order yields.
    pub open spec fn samples(self, cs: Seq<Completion>) -> Seq<u64>
        decreases cs.len(),
    {
        if cs.len() == 0 {
            Seq::empty()
        } else {
            let before = self.samples(cs.drop_last());
            match self.reap_all(cs.drop_last()).reaped_of(cs.last()) {
                Some(out) => match out.latency_ns {
                    Some(ns) => before.push(ns),
                    None => before,
                },
                None => before,
            }
        }
    }
}

/// A completion that counts as an operation: it names one of the
/// `queue_depth` slots and transferred at least one byte.
pub open spec fn counts(c: Completion, queue_depth: u32) -> bool {
    c.slot < queue_depth && c.result > 0
}

/// How many of `cs` name one of the `queue_depth` slots.
pub open spec fn taken(cs: Seq<Completion>, queue_depth: u32) -> nat
    decreases cs.len(),
{
    if cs.len() == 0 {
        0
    } else {
        taken(cs.drop_last(), queue_depth) + if cs.last().slot < queue_depth {
            1nat
        } else {
            0nat
        }
    }
}

/// How many of `cs` count as operations.
pub open spec fn counted_ops(cs: Seq<Completion>, queue_depth: u32) -> nat
    decreases cs.len(),
{
    if cs.len() == 0 {
        0
    } else {
        counted_ops(cs.drop_last(), queue_depth) + if counts(cs.last(), queue_depth) {
            1nat
        } else {
            0nat
        }
    }
}

/// The bytes transferred by those of `cs` that count as operations.
pub open spec fn counted_bytes(cs: Seq<Completion>, queue_depth: u32) -> nat
    decreases cs.len(),
{
    if cs.len() == 0 {
        0
    } else {
        counted_bytes(cs.drop_last(), queue_depth) + if counts(cs.last(), queue_depth) {
            cs.last().result as nat
        } else {
            0nat
        }
    }
}

/// While a worker runs, reaping keeps it running and well formed with
/// exactly `queue_depth` I/Os outstanding: every completion taken up was
/// answered with one submission.
pub proof fn lemma_queue_depth_sustained(w: WorkerView, cs: Seq<Completion>)
    requires
        w.wf(),
        w.phase == Phase::Running,
    ensures
        w.reap_all(cs).wf(),
        w.reap_all(cs).phase == Phase::Running,
        w.reap_all(cs).outstanding() == w.queue_depth,
        w.reap_all(cs).issued == w.issued + taken(cs, w.queue_depth),
        w.reap_all(cs).reaped == w.reaped + taken(cs, w.queue_depth),
        w.reissues(cs).len() == taken(cs, w.queue_depth),
        w.reap_all(cs) == (WorkerView {
            table: w.reap_all(cs).table,
            issue_time: w.reap_all(cs).issue_time,
            local_ops: w.reap_all(cs).local_ops,
            local_bytes: w.reap_all(cs).local_bytes,
            op_count: w.reap_all(cs).op_count,
            issued: w.reap_all(cs).issued,
            reaped: w.reap_all(cs).reaped,
            ..w
        }),
        w.reap_all(cs).table.offsets == w.table.offsets,
    decreases cs.len(),
{
    if cs.len() > 0 {
        lemma_queue_depth_sustained(w, cs.drop_last());
    }
}

/// The local counters of a running worker grow by exactly the operations and
/// bytes of the completions that count, modulo 2^64.
pub proof fn lemma_local_counters(w: WorkerView, cs: Seq<Completion>)
    requires
        w.wf(),
        w.phase == Phase::Running,
    ensures
        w.reap_all(cs).local_ops == wrapped_total(w.local_ops, counted_ops(cs, w.queue_depth)),
        w.reap_all(cs).op_count == wrapped_total(w.op_count, counted_ops(cs, w.queue_depth)),
        w.reap_all(cs).local_bytes == wrapped_total(
            w.local_bytes,
            counted_bytes(cs, w.queue_depth),
        ),
    decreases cs.len(),
{
    if cs.len() > 0 {
        let head = cs.drop_last();
        let c = cs.last();
        let q = w.queue_depth;
        lemma_queue_depth_sustained(w, head);
        lemma_local_counters(w, head);
        let before = w.reap_all(head);
        if counts(c, q) {
            lemma_wrapped_step(w.local_ops, counted_ops(head, q), 1);
            lemma_wrapped_step(w.op_count, counted_ops(head, q), 1);
            lemma_wrapped_step(w.local_bytes, counted_bytes(head, q), c.result as u64);
            assert(before.accepts(c));
            assert(before.reap(c).local_ops == wrapped_sum(before.local_ops, 1));
            assert(before.reap(c).op_count == wrapped_sum(before.op_count, 1));
            assert(before.reap(c).local_bytes == wrapped_sum(before.local_bytes, c.result as u64));
        } else {
            assert(before.reap(c).local_ops == before.local_ops);
            assert(before.reap(c).op_count == before.op_count);
            assert(before.reap(c).local_bytes == before.local_bytes);
        }
    }
}

/// Every submission a running worker hands out is on one of its slots, of its
/// block size and kind, at a block-aligned offset at which the whole I/O lies
/// inside the usable range.
pub proof fn lemma_reissues_in_range(w: WorkerView, cs: Seq<Completion>)
    requires
        w.wf(),
        w.phase == Phase::Running,
    ensures
        forall|i: int| 0 <= i < w.reissues(cs).len() ==> w.admits(#[trigger] w.reissues(cs)[i]),
    decreases cs.len(),
{
    if cs.len() > 0 {
        lemma_queue_depth_sustained(w, cs.drop_last());
        lemma_reissues_in_range(w, cs.drop_last());
    }
}

/// A primed worker is running, well formed, and has issued one admissible
/// I/O per slot.
pub proof fn lemma_started(fresh: WorkerView, start_ns: u64)
    requires
        fresh.wf(),
        fresh.phase == Phase::Created,
    ensures
        fresh.started(start_ns).wf(),
        fresh.started(start_ns).phase == Phase::Running,
        fresh.started(start_ns).outstanding() == fresh.queue_depth,
        fresh.started(start_ns).queue_depth == fresh.queue_depth,
        fresh.started(start_ns).io_size == fresh.io_size,
        fresh.started(start_ns).is_write == fresh.is_write,
        fresh.started(start_ns).usable_range == fresh.usable_range,
        fresh.started(start_ns).local_ops == fresh.local_ops,
        fresh.started(start_ns).local_bytes == fresh.local_bytes,
        fresh.started(start_ns).op_count == fresh.op_count,
        fresh.prime_submissions(start_ns).len() == fresh.queue_depth,
        forall|i: int|
            0 <= i < fresh.queue_depth ==> fresh.admits(
                #[trigger] fresh.prime_submissions(start_ns)[i],
            ),
{
    crate::worker::lemma_primed(fresh, fresh.queue_depth as nat, start_ns);
    assert forall|i: int| 0 <= i < fresh.queue_depth implies fresh.admits(
        #[trigger] fresh.prime_submissions(start_ns)[i],
    ) by {
        crate::worker::lemma_primed(fresh, i as nat, start_ns);
    }
}

} // verus!
