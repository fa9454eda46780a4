//! A worker run from its first submission to its stop, as a function of the
//! completions the device handed back.

use vstd::prelude::*;
use crate::counter::{
    lemma_wrapped_assoc, lemma_wrapped_exact, lemma_wrapped_step, lemma_wrapped_zero, wrapped_sum,
    wrapped_total,
};
use crate::metrics::{Metrics, MetricsView};
use crate::offsets::{offset_in_range, OffsetTableView, OFFSET_TABLE_LEN};
use crate::trace::{
    counted_bytes, counted_ops, counts, lemma_queue_depth_sustained, lemma_reissues_in_range,
    lemma_started, taken,
};
use crate::worker::{Completion, Phase, Submission, Worker, WorkerView};

verus! {

/// `after` and `issued` are what one worker leaves behind that was created
/// over the ring `table`, primed at `start_ns`, fed the completions `cs` and
/// then stopped, with `picks` choosing the reservoir entries its latency
/// samples overwrote: the submissions in the order they were handed out, and
/// the metrics grown by everything the worker counted and sampled.
pub open spec fn run_outcome(
    io_size: u64,
    queue_depth: u32,
    is_write: bool,
    usable_range: u64,
    start_ns: u64,
    cs: Seq<Completion>,
    table: OffsetTableView,
    picks: Seq<u64>,
    before: MetricsView,
    after: MetricsView,
    issued: Seq<Submission>,
) -> bool {
    let fresh = WorkerView::created(io_size, queue_depth, is_write, usable_range, table);
    let run = fresh.started(start_ns);
    &&& table.wf()
    &&& table.covers(io_size, usable_range)
    &&& table.offsets.len() == OFFSET_TABLE_LEN
    &&& table.cursor == 0
    &&& picks.len() == run.samples(cs).len()
    &&& issued == fresh.prime_submissions(start_ns) + run.reissues(cs)
    &&& after == (MetricsView {
        total_ops: wrapped_total(before.total_ops, counted_ops(cs, queue_depth)),
        total_bytes: wrapped_total(before.total_bytes, counted_bytes(cs, queue_depth)),
        ..before.recorded(run.samples(cs), picks)
    })
}

/// Runs one worker against the completions its device handed back, from the
/// first submission to the stop, and returns every submission it made.
///
/// The worker draws its ring of offsets, primes its `queue_depth` slots at
/// `start_ns`, and then takes the completions in the order given: each one
/// that names a slot is counted if it transferred data, timed if it is the
/// 64th such since the last timed one, and answered with a new submission on
/// the same slot. Counters reach `metrics` in batches and, at the end, in
/// full.
pub fn run_worker(
    _thread_id: u32,
    io_size: u64,
    queue_depth: u32,
    is_write: bool,
    test_range: u64,
    start_ns: u64,
    completions: &Vec<Completion>,
    metrics: &mut Metrics,
) -> (issued: Vec<Submission>)
    requires
        0 < io_size <= test_range,
    ensures
        exists|table: OffsetTableView, picks: Seq<u64>| #[trigger]
            run_outcome(
                io_size,
                queue_depth,
                is_write,
                test_range,
                start_ns,
                completions@,
                table,
                picks,
                old(metrics)@,
                final(metrics)@,
                issued@,
            ),
        issued@.len() == queue_depth + taken(completions@, queue_depth),
        forall|i: int|
            0 <= i < issued@.len() ==> {
                &&& (#[trigger] issued@[i]).slot < queue_depth
                &&& issued@[i].len == io_size
                &&& issued@[i].is_write == is_write
                &&& offset_in_range(issued@[i].offset, io_size, test_range)
            },
        final(metrics)@.total_ops == wrapped_total(
            old(metrics)@.total_ops,
            counted_ops(completions@, queue_depth),
        ),
        final(metrics)@.total_bytes == wrapped_total(
            old(metrics)@.total_bytes,
            counted_bytes(completions@, queue_depth),
        ),
        old(metrics)@.total_ops + counted_ops(completions@, queue_depth) <= u64::MAX
            ==> final(metrics)@.total_ops == old(metrics)@.total_ops + counted_ops(
            completions@,
            queue_depth,
        ),
        old(metrics)@.total_bytes + counted_bytes(completions@, queue_depth) <= u64::MAX
            ==> final(metrics)@.total_bytes == old(metrics)@.total_bytes + counted_bytes(
            completions@,
            queue_depth,
        ),
        old(metrics)@.bounded() ==> final(metrics)@.bounded(),
{
    let mut worker = Worker::new(io_size, queue_depth, is_write, test_range);
    let ghost table = worker@.table;
    let mut issued = worker.prime(start_ns);
    let ghost before = metrics@;
    let ghost mut picks: Seq<u64> = Seq::empty();
    proof {
        lemma_progress_start(
            io_size,
            queue_depth,
            is_write,
            test_range,
            start_ns,
            table,
            before,
            issued@,
        );
        assert(completions@.take(0) =~= Seq::<Completion>::empty());
    }
    let mut i: usize = 0;
    while i < completions.len()
        invariant
            i <= completions@.len(),
            worker@.wf(),
            run_progress(
                io_size,
                queue_depth,
                is_write,
                test_range,
                start_ns,
                completions@.take(i as int),
                table,
                picks,
                before,
                metrics@,
                worker@,
                issued@,
            ),
            before.bounded() ==> metrics@.bounded(),
        decreases completions@.len() - i,
    {
        let c = completions[i];
        let ghost m0 = metrics@;
        let ghost w0 = worker@;
        let ghost issued0 = issued@;
        let pick = take_up(&mut worker, c, metrics, &mut issued);
        hand_over(&mut worker, metrics);
        proof {
            lemma_progress_step(
                io_size,
                queue_depth,
                is_write,
                test_range,
                start_ns,
                completions@,
                i as int,
                table,
                picks,
                pick@,
                before,
                m0,
                w0,
                issued0,
                metrics@,
                worker@,
                issued@,
            );
            if w0.yields(c) is Some {
                picks = picks.push(pick@);
            }
        }
        i += 1;
    }
    let ghost m0 = metrics@;
    let ghost w0 = worker@;
    proof {
        assert(completions@.take(i as int) =~= completions@);
        if before.total_ops + counted_ops(completions@, queue_depth) <= u64::MAX {
            lemma_wrapped_exact(before.total_ops, counted_ops(completions@, queue_depth));
        }
        if before.total_bytes + counted_bytes(completions@, queue_depth) <= u64::MAX {
            lemma_wrapped_exact(before.total_bytes, counted_bytes(completions@, queue_depth));
        }
    }
    let batch = worker.stop();
    metrics.add_ops(batch.ops);
    metrics.add_bytes(batch.bytes);
    proof {
        lemma_progress_end(
            io_size,
            queue_depth,
            is_write,
            test_range,
            start_ns,
            completions@,
            table,
            picks,
            before,
            m0,
            w0,
            issued@,
            metrics@,
        );
        reveal(run_progress);
    }
    issued
}

/// Feeds one completion to `worker`: records the latency sample it yields
/// and notes the submission that refills its slot. Returns the reservoir
/// entry that the sample was given to overwrite.
fn take_up(
    worker: &mut Worker,
    c: Completion,
    metrics: &mut Metrics,
    issued: &mut Vec<Submission>,
) -> (pick: Ghost<u64>)
    requires
        old(worker)@.wf(),
    ensures
        final(worker)@.wf(),
        final(worker)@ == old(worker)@.reap(c),
        final(issued)@ == match old(worker)@.reaped_of(c) {
            Some(out) => old(issued)@.push(out.reissue),
            None => old(issued)@,
        },
        final(metrics)@ == match old(worker)@.yields(c) {
            Some(ns) => old(metrics)@.with_latency(ns, pick@),
            None => old(metrics)@,
        },
        old(metrics)@.bounded() ==> final(metrics)@.bounded(),
{
    let ghost mut pick: u64 = 0;
    match worker.reap(c) {
        Some(out) => {
            match out.latency_ns {
                Some(ns) => {
                    let ghost prev = metrics@;
                    metrics.record_latency(ns);
                    proof {
                        pick = choose|pick: u64| metrics@ == prev.with_latency(ns, pick);
                    }
                },
                None => {},
            }
            issued.push(out.reissue);
        },
        None => {},
    }
    Ghost(pick)
}

/// Hands the counters of `worker` over to `metrics` if a batch is due.
fn hand_over(worker: &mut Worker, metrics: &mut Metrics)
    requires
        old(worker)@.wf(),
    ensures
        final(worker)@.wf(),
        final(worker)@ == old(worker)@.without_batch(),
        final(metrics)@ == (MetricsView {
            total_ops: final(metrics)@.total_ops,
            total_bytes: final(metrics)@.total_bytes,
            ..old(metrics)@
        }),
        wrapped_sum(final(metrics)@.total_ops, final(worker)@.local_ops) == wrapped_sum(
            old(metrics)@.total_ops,
            old(worker)@.local_ops,
        ),
        wrapped_sum(final(metrics)@.total_bytes, final(worker)@.local_bytes) == wrapped_sum(
            old(metrics)@.total_bytes,
            old(worker)@.local_bytes,
        ),
{
    match worker.take_batch() {
        Some(batch) => {
            metrics.add_ops(batch.ops);
            metrics.add_bytes(batch.bytes);
            proof {
                lemma_wrapped_zero(metrics@.total_ops);
                lemma_wrapped_zero(metrics@.total_bytes);
            }
        },
        None => {},
    }
}

/// The metrics after a worker reaped one completion and handed over what was
/// due: `sample` recorded if there was one, with `pick` choosing the entry it
/// overwrites in a full reservoir, and the counters as the hand-over left them.
spec fn metrics_after(
    before: MetricsView,
    sample: Option<u64>,
    pick: u64,
    total_ops: u64,
    total_bytes: u64,
) -> MetricsView {
    let sampled = match sample {
        Some(ns) => before.with_latency(ns, pick),
        None => before,
    };
    MetricsView { total_ops, total_bytes, ..sampled }
}

/// Where a run stands after the completions `cs`: `worker`, `now` and
/// `issued` are what the worker created over `table` and primed at `start_ns`
/// has become, has added to the metrics `before`, and has submitted.
#[verifier::opaque]
spec fn run_progress(
    io_size: u64,
    queue_depth: u32,
    is_write: bool,
    usable_range: u64,
    start_ns: u64,
    cs: Seq<Completion>,
    table: OffsetTableView,
    picks: Seq<u64>,
    before: MetricsView,
    now: MetricsView,
    worker: WorkerView,
    issued: Seq<Submission>,
) -> bool {
    let fresh = WorkerView::created(io_size, queue_depth, is_write, usable_range, table);
    let run = fresh.started(start_ns);
    &&& table.wf()
    &&& table.covers(io_size, usable_range)
    &&& table.offsets.len() == OFFSET_TABLE_LEN
    &&& table.cursor == 0
    &&& worker.wf()
    &&& worker == (WorkerView {
        local_ops: worker.local_ops,
        local_bytes: worker.local_bytes,
        ..run.reap_all(cs)
    })
    &&& issued == fresh.prime_submissions(start_ns) + run.reissues(cs)
    &&& picks.len() == run.samples(cs).len()
    &&& now == (MetricsView {
        total_ops: now.total_ops,
        total_bytes: now.total_bytes,
        ..before.recorded(run.samples(cs), picks)
    })
    &&& wrapped_sum(now.total_ops, worker.local_ops) == wrapped_total(
        before.total_ops,
        counted_ops(cs, queue_depth),
    )
    &&& wrapped_sum(now.total_bytes, worker.local_bytes) == wrapped_total(
        before.total_bytes,
        counted_bytes(cs, queue_depth),
    )
}

/// One more completion extends what a running worker reaped, reissued and
/// sampled by that completion's share.
proof fn lemma_trace_step(w: WorkerView, cs: Seq<Completion>, n: int)
    requires
        w.wf(),
        w.phase == Phase::Running,
        0 <= n < cs.len(),
    ensures
        w.reap_all(cs.take(n + 1)) == w.reap_all(cs.take(n)).reap(cs[n]),
        w.reissues(cs.take(n + 1)) == match w.reap_all(cs.take(n)).reaped_of(cs[n]) {
            Some(out) => w.reissues(cs.take(n)).push(out.reissue),
            None => w.reissues(cs.take(n)),
        },
        w.samples(cs.take(n + 1)) == match w.reap_all(cs.take(n)).reaped_of(cs[n]) {
            Some(out) => match out.latency_ns {
                Some(ns) => w.samples(cs.take(n)).push(ns),
                None => w.samples(cs.take(n)),
            },
            None => w.samples(cs.take(n)),
        },
        counted_ops(cs.take(n + 1), w.queue_depth) == counted_ops(cs.take(n), w.queue_depth)
            + if counts(cs[n], w.queue_depth) {
            1nat
        } else {
            0nat
        },
        counted_bytes(cs.take(n + 1), w.queue_depth) == counted_bytes(cs.take(n), w.queue_depth)
            + if counts(cs[n], w.queue_depth) {
            cs[n].result as nat
        } else {
            0nat
        },
        w.reap_all(cs.take(n)).wf(),
        w.reap_all(cs.take(n)).phase == Phase::Running,
        w.reap_all(cs.take(n)).queue_depth == w.queue_depth,
        w.reap_all(cs.take(n)).reap(cs[n]).local_ops == wrapped_sum(
            w.reap_all(cs.take(n)).local_ops,
            if counts(cs[n], w.queue_depth) {
                1u64
            } else {
                0u64
            },
        ),
        w.reap_all(cs.take(n)).reap(cs[n]).local_bytes == wrapped_sum(
            w.reap_all(cs.take(n)).local_bytes,
            if counts(cs[n], w.queue_depth) {
                cs[n].result as u64
            } else {
                0u64
            },
        ),
{
    assert(cs.take(n + 1).drop_last() =~= cs.take(n));
    assert(cs.take(n + 1).last() == cs[n]);
    lemma_queue_depth_sustained(w, cs.take(n));
}

/// Recording one more sample extends what was recorded by that sample.
proof fn lemma_recorded_step(
    m: MetricsView,
    samples: Seq<u64>,
    picks: Seq<u64>,
    ns: u64,
    pick: u64,
)
    ensures
        m.recorded(samples.push(ns), picks.push(pick)) == m.recorded(samples, picks).with_latency(
            ns,
            pick,
        ),
{
    assert(samples.push(ns).drop_last() =~= samples);
    assert(picks.push(pick).drop_last() =~= picks);
}

/// A primed worker that has reaped nothing stands at the start of its run.
proof fn lemma_progress_start(
    io_size: u64,
    queue_depth: u32,
    is_write: bool,
    usable_range: u64,
    start_ns: u64,
    table: OffsetTableView,
    before: MetricsView,
    issued: Seq<Submission>,
)
    requires
        table.wf(),
        table.covers(io_size, usable_range),
        table.offsets.len() == OFFSET_TABLE_LEN,
        table.cursor == 0,
        issued == WorkerView::created(
            io_size,
            queue_depth,
            is_write,
            usable_range,
            table,
        ).prime_submissions(start_ns),
    ensures
        run_progress(
            io_size,
            queue_depth,
            is_write,
            usable_range,
            start_ns,
            Seq::empty(),
            table,
            Seq::empty(),
            before,
            before,
            WorkerView::created(io_size, queue_depth, is_write, usable_range, table).started(
                start_ns,
            ),
            issued,
        ),
{
    reveal(run_progress);
    let fresh = WorkerView::created(io_size, queue_depth, is_write, usable_range, table);
    let run = fresh.started(start_ns);
    lemma_started(fresh, start_ns);
    let none = Seq::<Completion>::empty();
    assert(run.reap_all(none) == run);
    assert(run.reissues(none) =~= Seq::<Submission>::empty());
    assert(issued =~= fresh.prime_submissions(start_ns) + run.reissues(none));
    assert(run.samples(none) =~= Seq::<u64>::empty());
    assert(before.recorded(run.samples(none), Seq::<u64>::empty()) == before);
    vstd::arithmetic::div_mod::lemma_small_mod(before.total_ops as nat, 0x1_0000_0000_0000_0000nat);
    vstd::arithmetic::div_mod::lemma_small_mod(
        before.total_bytes as nat,
        0x1_0000_0000_0000_0000nat,
    );
}

/// A worker that differs from another in its local counters only takes up
/// the same completions with the same answers, and counts them alike.
proof fn lemma_same_but_counters(at: WorkerView, w: WorkerView, c: Completion)
    requires
        w == (WorkerView { local_ops: w.local_ops, local_bytes: w.local_bytes, ..at }),
    ensures
        w.accepts(c) == at.accepts(c),
        w.reaped_of(c) == at.reaped_of(c),
        w.yields(c) == at.yields(c),
        w.reap(c) == (WorkerView {
            local_ops: w.reap(c).local_ops,
            local_bytes: w.reap(c).local_bytes,
            ..at.reap(c)
        }),
        w.reap(c).local_ops == wrapped_sum(
            w.local_ops,
            if at.accepts(c) && c.result > 0 {
                1u64
            } else {
                0u64
            },
        ),
        w.reap(c).local_bytes == wrapped_sum(
            w.local_bytes,
            if at.accepts(c) && c.result > 0 {
                c.result as u64
            } else {
                0u64
            },
        ),
{
    lemma_wrapped_zero(w.local_ops);
    lemma_wrapped_zero(w.local_bytes);
}

/// A total and a local counter that together stood for `added` stand for
/// `added + more` once the local counter took `more`, wherever a hand-over
/// moved the amounts since.
proof fn lemma_counter_step(
    before: u64,
    added: nat,
    total0: u64,
    local0: u64,
    more: u64,
    total1: u64,
    local1: u64,
)
    requires
        wrapped_sum(total0, local0) == wrapped_total(before, added),
        wrapped_sum(total1, local1) == wrapped_sum(total0, wrapped_sum(local0, more)),
    ensures
        wrapped_sum(total1, local1) == wrapped_total(before, added + more as nat),
{
    lemma_wrapped_assoc(total0, local0, more);
    lemma_wrapped_step(before, added, more);
}

/// Feeding one more completion and handing over what is due moves the run
/// on by that completion.
proof fn lemma_progress_step(
    io_size: u64,
    queue_depth: u32,
    is_write: bool,
    usable_range: u64,
    start_ns: u64,
    cs: Seq<Completion>,
    n: int,
    table: OffsetTableView,
    picks: Seq<u64>,
    pick: u64,
    before: MetricsView,
    m0: MetricsView,
    w0: WorkerView,
    issued0: Seq<Submission>,
    m1: MetricsView,
    w1: WorkerView,
    issued1: Seq<Submission>,
)
    requires
        0 <= n < cs.len(),
        run_progress(
            io_size,
            queue_depth,
            is_write,
            usable_range,
            start_ns,
            cs.take(n),
            table,
            picks,
            before,
            m0,
            w0,
            issued0,
        ),
        w1.wf(),
        w1 == (WorkerView {
            local_ops: w1.local_ops,
            local_bytes: w1.local_bytes,
            ..w0.reap(cs[n])
        }),
        issued1 == match w0.reaped_of(cs[n]) {
            Some(out) => issued0.push(out.reissue),
            None => issued0,
        },
        m1 == metrics_after(m0, w0.yields(cs[n]), pick, m1.total_ops, m1.total_bytes),
        wrapped_sum(m1.total_ops, w1.local_ops) == wrapped_sum(
            m0.total_ops,
            w0.reap(cs[n]).local_ops,
        ),
        wrapped_sum(m1.total_bytes, w1.local_bytes) == wrapped_sum(
            m0.total_bytes,
            w0.reap(cs[n]).local_bytes,
        ),
    ensures
        run_progress(
            io_size,
            queue_depth,
            is_write,
            usable_range,
            start_ns,
            cs.take(n + 1),
            table,
            if w0.yields(cs[n]) is Some {
                picks.push(pick)
            } else {
                picks
            },
            before,
            m1,
            w1,
            issued1,
        ),
{
    reveal(run_progress);
    let fresh = WorkerView::created(io_size, queue_depth, is_write, usable_range, table);
    let run = fresh.started(start_ns);
    let c = cs[n];
    let head = cs.take(n);
    let at = run.reap_all(head);
    lemma_started(fresh, start_ns);
    lemma_trace_step(run, cs, n);
    lemma_same_but_counters(at, w0, c);
    let sample = at.yields(c);
    if sample is Some {
        lemma_recorded_step(before, run.samples(head), picks, sample->0, pick);
    }
    let step_ops = if counts(c, queue_depth) {
        1u64
    } else {
        0u64
    };
    let step_bytes = if counts(c, queue_depth) {
        c.result as u64
    } else {
        0u64
    };
    assert(at.accepts(c) == (c.slot < queue_depth));
    lemma_counter_step(
        before.total_ops,
        counted_ops(head, queue_depth),
        m0.total_ops,
        w0.local_ops,
        step_ops,
        m1.total_ops,
        w1.local_ops,
    );
    lemma_counter_step(
        before.total_bytes,
        counted_bytes(head, queue_depth),
        m0.total_bytes,
        w0.local_bytes,
        step_bytes,
        m1.total_bytes,
        w1.local_bytes,
    );
    assert(issued1 =~= fresh.prime_submissions(start_ns) + run.reissues(cs.take(n + 1)));
}

/// Stopping at the end of the completions leaves what `run_outcome`
/// describes.
proof fn lemma_progress_end(
    io_size: u64,
    queue_depth: u32,
    is_write: bool,
    usable_range: u64,
    start_ns: u64,
    cs: Seq<Completion>,
    table: OffsetTableView,
    picks: Seq<u64>,
    before: MetricsView,
    m0: MetricsView,
    w0: WorkerView,
    issued: Seq<Submission>,
    m1: MetricsView,
)
    requires
        run_progress(
            io_size,
            queue_depth,
            is_write,
            usable_range,
            start_ns,
            cs,
            table,
            picks,
            before,
            m0,
            w0,
            issued,
        ),
        m1 == (MetricsView {
            total_ops: wrapped_sum(m0.total_ops, w0.local_ops),
            total_bytes: wrapped_sum(m0.total_bytes, w0.local_bytes),
            ..m0
        }),
    ensures
        run_outcome(
            io_size,
            queue_depth,
            is_write,
            usable_range,
            start_ns,
            cs,
            table,
            picks,
            before,
            m1,
            issued,
        ),
        issued.len() == queue_depth + taken(cs, queue_depth),
        forall|i: int|
            0 <= i < issued.len() ==> {
                &&& (#[trigger] issued[i]).slot < queue_depth
                &&& issued[i].len == io_size
                &&& issued[i].is_write == is_write
                &&& offset_in_range(issued[i].offset, io_size, usable_range)
            },
{
    reveal(run_progress);
    let fresh = WorkerView::created(io_size, queue_depth, is_write, usable_range, table);
    let run = fresh.started(start_ns);
    lemma_started(fresh, start_ns);
    lemma_queue_depth_sustained(run, cs);
    lemma_reissues_in_range(run, cs);
    assert forall|i: int| 0 <= i < issued.len() implies {
        &&& (#[trigger] issued[i]).slot < queue_depth
        &&& issued[i].len == io_size
        &&& issued[i].is_write == is_write
        &&& offset_in_range(issued[i].offset, io_size, usable_range)
    } by {
        if i < queue_depth {
            assert(issued[i] == fresh.prime_submissions(start_ns)[i]);
            assert(fresh.admits(issued[i]));
        } else {
            assert(issued[i] == run.reissues(cs)[i - queue_depth]);
            assert(run.admits(issued[i]));
        }
    }
}

} // verus!
