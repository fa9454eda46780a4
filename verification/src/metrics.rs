//! Counters and the bounded latency reservoir shared by the workers of one run.
//!
//! The counters behave as relaxed atomic adds do: they wrap at 2^64. The
//! reservoir keeps every sample until it is full and afterwards overwrites one
//! stored sample per new one, so it never grows past its capacity.

use vstd::prelude::*;
use vstd::relations::{sorted_by, total_ordering};
use vstd::seq_lib::lemma_sorted_unique;
use crate::counter::wrapped_sum;
use crate::entropy::random_u64;

verus! {

/// Most latency samples the reservoir ever holds.
pub const RESERVOIR_CAPACITY: usize = 100_000;

/// The order latency samples are sorted by.
pub open spec fn ascending() -> spec_fn(u64, u64) -> bool {
    |a: u64, b: u64| a <= b
}

/// Index into a sorted population of `len > 0` samples that answers the
/// `p`-th percentile: `floor(p / 100 * (len - 1))`, never past the last.
pub open spec fn percentile_rank(p: u32, len: nat) -> nat {
    let raw = (p as nat * ((len - 1) as nat)) / 100;
    if raw < len {
        raw
    } else {
        (len - 1) as nat
    }
}

/// What a `Metrics` value stands for.
pub struct MetricsView {
    pub total_ops: u64,
    pub total_bytes: u64,
    pub latency_sum_ns: u64,
    pub latency_samples: u64,
    pub reservoir: Seq<u64>,
}

impl MetricsView {
    /// The state of a run that has measured nothing yet.
    pub open spec fn empty() -> MetricsView {
        MetricsView {
            total_ops: 0,
            total_bytes: 0,
            latency_sum_ns: 0,
            latency_samples: 0,
            reservoir: Seq::<u64>::empty(),
        }
    }

    /// The reservoir is within its capacity.
    pub open spec fn bounded(self) -> bool {
        self.reservoir.len() <= RESERVOIR_CAPACITY
    }

    /// The reservoir holds exactly the samples counted so far, up to its
    /// capacity.
    pub open spec fn tallied(self) -> bool {
        self.reservoir.len() == if self.latency_samples <= RESERVOIR_CAPACITY {
            self.latency_samples as nat
        } else {
            RESERVOIR_CAPACITY as nat
        }
    }

    /// `n` more completed operations.
    pub open spec fn with_ops(self, n: u64) -> MetricsView {
        MetricsView { total_ops: wrapped_sum(self.total_ops, n), ..self }
    }

    /// `b` more transferred bytes.
    pub open spec fn with_bytes(self, b: u64) -> MetricsView {
        MetricsView { total_bytes: wrapped_sum(self.total_bytes, b), ..self }
    }

    /// One more latency sample of `ns` nanoseconds. Below capacity the sample
    /// is appended; at capacity it replaces the entry at `pick` modulo the
    /// population.
    pub open spec fn with_latency(self, ns: u64, pick: u64) -> MetricsView {
        MetricsView {
            latency_sum_ns: wrapped_sum(self.latency_sum_ns, ns),
            latency_samples: wrapped_sum(self.latency_samples, 1),
            reservoir: if self.reservoir.len() < RESERVOIR_CAPACITY {
                self.reservoir.push(ns)
            } else {
                self.reservoir.update(pick as int % self.reservoir.len() as int, ns)
            },
            ..self
        }
    }

    /// The state after `samples` were recorded in order, the `i`-th with
    /// `picks[i]` choosing the entry it overwrites once the reservoir is full.
    pub open spec fn recorded(self, samples: Seq<u64>, picks: Seq<u64>) -> MetricsView
        decreases samples.len(),
    {
        if samples.len() == 0 {
            self
        } else {
            self.recorded(samples.drop_last(), picks.drop_last()).with_latency(
                samples.last(),
                picks.last(),
            )
        }
    }

    /// The same measurements with the reservoir in ascending order.
    pub open spec fn sorted(self) -> MetricsView {
        MetricsView { reservoir: self.reservoir.sort_by(ascending()), ..self }
    }

    /// The `p`-th percentile of the stored samples in nanoseconds, 0 when
    /// there are none.
    pub open spec fn percentile(self, p: u32) -> u64 {
        if self.reservoir.len() == 0 {
            0
        } else {
            self.reservoir.sort_by(ascending())[percentile_rank(p, self.reservoir.len()) as int]
        }
    }

    /// Mean of the samples counted so far in whole nanoseconds, 0 when there
    /// are none.
    pub open spec fn mean_latency_ns(self) -> u64 {
        if self.latency_samples == 0 {
            0
        } else {
            self.latency_sum_ns / self.latency_samples
        }
    }
}

/// The counters of a `Metrics` value at one moment.
#[derive(Clone, Copy, Debug, PartialEq, Eq, Structural)]
pub struct Totals {
    pub total_ops: u64,
    pub total_bytes: u64,
    pub latency_sum_ns: u64,
    pub latency_samples: u64,
}

/// What the workers of one run have measured so far: completed operations,
/// transferred bytes, the sum and count of the latency samples, and a
/// reservoir of up to `RESERVOIR_CAPACITY` of those samples.
pub struct Metrics {
    total_ops: u64,
    total_bytes: u64,
    latency_sum_ns: u64,
    latency_samples: u64,
    latency_reservoir: Vec<u64>,
}

impl View for Metrics {
    type V = MetricsView;

    closed spec fn view(&self) -> MetricsView {
        MetricsView {
            total_ops: self.total_ops,
            total_bytes: self.total_bytes,
            latency_sum_ns: self.latency_sum_ns,
            latency_samples: self.latency_samples,
            reservoir: self.latency_reservoir@,
        }
    }
}

/// `<[u64]>::sort_unstable`, which std documents as sorting the slice in
/// ascending order without keeping the order of equal elements: afterwards the
/// vector holds the same values as before, each as often, smallest first.
#[verifier::external_body]
fn sort_ascending(v: &mut Vec<u64>)
    ensures
        final(v)@.to_multiset() == old(v)@.to_multiset(),
        sorted_by(final(v)@, ascending()),
{
    v.sort_unstable();
}

impl Metrics {
    /// The metrics of a run that has measured nothing yet.
    pub fn new() -> (m: Self)
        ensures
            m@ == MetricsView::empty(),
    {
        Metrics {
            total_ops: 0,
            total_bytes: 0,
            latency_sum_ns: 0,
            latency_samples: 0,
            latency_reservoir: Vec::with_capacity(RESERVOIR_CAPACITY),
        }
    }

    /// Counts `n` more completed operations.
    pub fn add_ops(&mut self, n: u64)
        ensures
            final(self)@ == old(self)@.with_ops(n),
            old(self)@.total_ops + n <= u64::MAX ==> final(self)@.total_ops == old(self)@.total_ops + n,
    {
        self.total_ops = self.total_ops.wrapping_add(n);
    }

    /// Counts `b` more transferred bytes.
    pub fn add_bytes(&mut self, b: u64)
        ensures
            final(self)@ == old(self)@.with_bytes(b),
            old(self)@.total_bytes + b <= u64::MAX ==> final(self)@.total_bytes == old(self)@.total_bytes + b,
    {
        self.total_bytes = self.total_bytes.wrapping_add(b);
    }

    /// Records a latency sample of `ns` nanoseconds, with `pick` choosing the
    /// entry to overwrite once the reservoir is full.
    pub fn record_latency_with(&mut self, ns: u64, pick: u64)
        ensures
            final(self)@ == old(self)@.with_latency(ns, pick),
            old(self)@.bounded() ==> final(self)@.bounded(),
    {
        self.latency_sum_ns = self.latency_sum_ns.wrapping_add(ns);
        self.latency_samples = self.latency_samples.wrapping_add(1);
        let len = self.latency_reservoir.len();
        if len < RESERVOIR_CAPACITY {
            self.latency_reservoir.push(ns);
        } else {
            let idx = (pick % (len as u64)) as usize;
            self.latency_reservoir[idx] = ns;
        }
    }

    /// Records a latency sample of `ns` nanoseconds. While the reservoir has
    /// room the sample is appended; once it is full the sample overwrites one
    /// stored entry chosen at random, so the population stays at capacity.
    pub fn record_latency(&mut self, ns: u64)
        ensures
            exists|pick: u64| final(self)@ == old(self)@.with_latency(ns, pick),
            old(self)@.reservoir.len() < RESERVOIR_CAPACITY ==> final(self)@.reservoir
                == old(self)@.reservoir.push(ns),
            old(self)@.reservoir.len() >= RESERVOIR_CAPACITY ==> final(self)@.reservoir.len()
                == old(self)@.reservoir.len(),
            old(self)@.bounded() ==> final(self)@.bounded(),
            old(self)@.tallied() && old(self)@.latency_samples < u64::MAX ==> final(self)@.tallied(),
    {
        let pick = if self.latency_reservoir.len() < RESERVOIR_CAPACITY {
            0
        } else {
            random_u64()
        };
        self.record_latency_with(ns, pick);
    }

    /// Sorts the reservoir and returns the `p`-th percentile of the stored
    /// samples in nanoseconds; 0 when nothing was sampled.
    pub fn percentile(&mut self, p: u32) -> (ns: u64)
        ensures
            final(self)@ == old(self)@.sorted(),
            ns == old(self)@.percentile(p),
    {
        proof {
            old(self)@.reservoir.lemma_sort_by_ensures(ascending());
        }
        sort_ascending(&mut self.latency_reservoir);
        proof {
            lemma_ascending_is_total();
            lemma_sorted_unique(
                self.latency_reservoir@,
                old(self)@.reservoir.sort_by(ascending()),
                ascending(),
            );
            old(self)@.reservoir.to_multiset_ensures();
            self.latency_reservoir@.to_multiset_ensures();
        }
        let len = self.latency_reservoir.len();
        if len == 0 {
            return 0;
        }
        assert(p as u128 * (len as u128 - 1) <= 0xffff_ffff * 0xffff_ffff_ffff_ffff) by (nonlinear_arith)
            requires
                p <= 0xffff_ffff,
                1 <= len <= 0xffff_ffff_ffff_ffff,
        ;
        let raw = (p as u128 * (len as u128 - 1)) / 100;
        let idx = if raw < len as u128 {
            raw as usize
        } else {
            len - 1
        };
        self.latency_reservoir[idx]
    }

    /// The counters as they stand.
    pub fn snapshot(&self) -> (t: Totals)
        ensures
            t.total_ops == self@.total_ops,
            t.total_bytes == self@.total_bytes,
            t.latency_sum_ns == self@.latency_sum_ns,
            t.latency_samples == self@.latency_samples,
    {
        Totals {
            total_ops: self.total_ops,
            total_bytes: self.total_bytes,
            latency_sum_ns: self.latency_sum_ns,
            latency_samples: self.latency_samples,
        }
    }

    /// How many samples the reservoir holds.
    pub fn reservoir_len(&self) -> (len: usize)
        ensures
            len == self@.reservoir.len(),
    {
        self.latency_reservoir.len()
    }

    /// Mean of the samples counted so far in whole nanoseconds; 0 when nothing
    /// was sampled.
    pub fn mean_latency_ns(&self) -> (ns: u64)
        ensures
            ns == self@.mean_latency_ns(),
    {
        if self.latency_samples == 0 {
            0
        } else {
            self.latency_sum_ns / self.latency_samples
        }
    }
}

/// `<=` on `u64` is a total order.
pub proof fn lemma_ascending_is_total()
    ensures
        total_ordering(ascending()),
{
}

/// Sorting the reservoir keeps its population: the same samples, each as
/// often, smallest first.
pub proof fn lemma_sorted_population(m: MetricsView)
    ensures
        m.sorted().reservoir.len() == m.reservoir.len(),
        m.sorted().reservoir.to_multiset() == m.reservoir.to_multiset(),
        sorted_by(m.sorted().reservoir, ascending()),
{
    m.reservoir.lemma_sort_by_ensures(ascending());
    m.reservoir.to_multiset_ensures();
    m.sorted().reservoir.to_multiset_ensures();
}

/// Asking for a percentile sorts the reservoir, and asking again answers for
/// the same population: sorting changes no percentile.
pub proof fn lemma_sorted_percentile(m: MetricsView, p: u32)
    ensures
        m.sorted().percentile(p) == m.percentile(p),
        m.sorted().sorted() == m.sorted(),
{
    lemma_sorted_population(m);
    m.sorted().reservoir.lemma_sort_by_ensures(ascending());
    lemma_ascending_is_total();
    lemma_sorted_unique(
        m.sorted().reservoir.sort_by(ascending()),
        m.reservoir.sort_by(ascending()),
        ascending(),
    );
}

/// The rank a percentile reads grows with the percentile and stays inside the
/// population.
pub proof fn lemma_percentile_rank(p: u32, q: u32, len: nat)
    requires
        p <= q,
        len > 0,
    ensures
        percentile_rank(p, len) <= percentile_rank(q, len) < len,
{
    let n = (len - 1) as nat;
    assert(p as nat * n <= q as nat * n) by (nonlinear_arith)
        requires
            p <= q,
            n >= 0,
    ;
    assert((p as nat * n) / 100 <= (q as nat * n) / 100) by (nonlinear_arith)
        requires
            p as nat * n <= q as nat * n,
    ;
}

/// A higher percentile never reports a lower latency: in particular the
/// median is at most the 99th percentile.
pub proof fn lemma_percentile_monotone(m: MetricsView, p: u32, q: u32)
    requires
        p <= q,
    ensures
        m.percentile(p) <= m.percentile(q),
{
    if m.reservoir.len() > 0 {
        lemma_sorted_population(m);
        lemma_percentile_rank(p, q, m.reservoir.len());
        let s = m.reservoir.sort_by(ascending());
        let i = percentile_rank(p, m.reservoir.len()) as int;
        let j = percentile_rank(q, m.reservoir.len()) as int;
        if i < j {
            assert(ascending()(s[i], s[j]));
        }
    }
}

/// One update of a `Metrics` value.
pub enum MetricsStep {
    Ops(u64),
    Bytes(u64),
    Latency { ns: u64, pick: u64 },
    Sort,
}

/// The state that a fresh `Metrics` reaches through `steps`, first to last.
pub open spec fn replay(steps: Seq<MetricsStep>) -> MetricsView
    decreases steps.len(),
{
    if steps.len() == 0 {
        MetricsView::empty()
    } else {
        let before = replay(steps.drop_last());
        match steps.last() {
            MetricsStep::Ops(n) => before.with_ops(n),
            MetricsStep::Bytes(b) => before.with_bytes(b),
            MetricsStep::Latency { ns, pick } => before.with_latency(ns, pick),
            MetricsStep::Sort => before.sorted(),
        }
    }
}

/// How many of `steps` record a latency sample.
pub open spec fn latency_steps(steps: Seq<MetricsStep>) -> nat
    decreases steps.len(),
{
    if steps.len() == 0 {
        0
    } else {
        latency_steps(steps.drop_last()) + if steps.last() is Latency {
            1nat
        } else {
            0nat
        }
    }
}

/// In every state a run can reach before its sample counter wraps, the
/// reservoir holds at most `RESERVOIR_CAPACITY` entries and at most as many
/// as samples were counted; the counter itself is exact.
pub proof fn lemma_reservoir_within_samples(steps: Seq<MetricsStep>)
    requires
        latency_steps(steps) <= u64::MAX,
    ensures
        replay(steps).latency_samples == latency_steps(steps),
        replay(steps).bounded(),
        replay(steps).tallied(),
        replay(steps).reservoir.len() <= replay(steps).latency_samples,
    decreases steps.len(),
{
    if steps.len() > 0 {
        lemma_reservoir_within_samples(steps.drop_last());
        lemma_sorted_population(replay(steps.drop_last()));
    }
}

/// The operations that `steps` add.
pub open spec fn ops_added(steps: Seq<MetricsStep>) -> nat
    decreases steps.len(),
{
    if steps.len() == 0 {
        0
    } else {
        ops_added(steps.drop_last()) + match steps.last() {
            MetricsStep::Ops(n) => n as nat,
            _ => 0nat,
        }
    }
}

/// The bytes that `steps` add.
pub open spec fn bytes_added(steps: Seq<MetricsStep>) -> nat
    decreases steps.len(),
{
    if steps.len() == 0 {
        0
    } else {
        bytes_added(steps.drop_last()) + match steps.last() {
            MetricsStep::Bytes(b) => b as nat,
            _ => 0nat,
        }
    }
}

/// However the updates of several workers interleave, the totals are the sums
/// of what was added, modulo 2^64.
pub proof fn lemma_totals_are_sums(steps: Seq<MetricsStep>)
    ensures
        replay(steps).total_ops == ops_added(steps) % 0x1_0000_0000_0000_0000,
        replay(steps).total_bytes == bytes_added(steps) % 0x1_0000_0000_0000_0000,
        ops_added(steps) <= u64::MAX ==> replay(steps).total_ops == ops_added(steps),
        bytes_added(steps) <= u64::MAX ==> replay(steps).total_bytes == bytes_added(steps),
    decreases steps.len(),
{
    let m = 0x1_0000_0000_0000_0000int;
    if steps.len() > 0 {
        let before = steps.drop_last();
        lemma_totals_are_sums(before);
        match steps.last() {
            MetricsStep::Ops(n) => {
                vstd::arithmetic::div_mod::lemma_add_mod_noop(ops_added(before) as int, n as int, m);
                vstd::arithmetic::div_mod::lemma_small_mod(n as nat, m as nat);
            },
            MetricsStep::Bytes(b) => {
                vstd::arithmetic::div_mod::lemma_add_mod_noop(
                    bytes_added(before) as int,
                    b as int,
                    m,
                );
                vstd::arithmetic::div_mod::lemma_small_mod(b as nat, m as nat);
            },
            _ => {},
        }
    }
}

/// More updates never add fewer operations or bytes.
pub proof fn lemma_added_grows(steps: Seq<MetricsStep>, n: int)
    requires
        0 <= n <= steps.len(),
    ensures
        ops_added(steps.take(n)) <= ops_added(steps),
        bytes_added(steps.take(n)) <= bytes_added(steps),
    decreases steps.len() - n,
{
    if n < steps.len() {
        lemma_added_grows(steps, n + 1);
        assert(steps.take(n + 1).drop_last() =~= steps.take(n));
    } else {
        assert(steps.take(n) =~= steps);
    }
}

/// Until a total wraps it never goes down: what was published earlier in a
/// run is at most what is published later.
pub proof fn lemma_totals_never_fall(steps: Seq<MetricsStep>, n: int)
    requires
        0 <= n <= steps.len(),
    ensures
        ops_added(steps) <= u64::MAX ==> replay(steps.take(n)).total_ops <= replay(steps).total_ops,
        bytes_added(steps) <= u64::MAX ==> replay(steps.take(n)).total_bytes <= replay(
            steps,
        ).total_bytes,
{
    lemma_added_grows(steps, n);
    lemma_totals_are_sums(steps);
    lemma_totals_are_sums(steps.take(n));
}

/// Once the reservoir is full, a further sample changes one stored entry at
/// most and leaves the population at capacity.
pub proof fn lemma_full_reservoir_replaces(m: MetricsView, ns: u64, pick: u64)
    requires
        m.reservoir.len() == RESERVOIR_CAPACITY,
    ensures
        m.with_latency(ns, pick).reservoir.len() == RESERVOIR_CAPACITY,
        m.with_latency(ns, pick).reservoir[pick as int % RESERVOIR_CAPACITY as int] == ns,
        forall|i: int|
            0 <= i < RESERVOIR_CAPACITY && i != pick as int % RESERVOIR_CAPACITY as int
                ==> m.with_latency(ns, pick).reservoir[i] == m.reservoir[i],
{
}

} // verus!
