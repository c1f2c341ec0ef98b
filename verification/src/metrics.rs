//! The performance store of the engine: latency and drift windows, drop and
//! miss counts, event logs.

use std::collections::VecDeque;
use vstd::prelude::*;

use crate::component_d::domain_counts::{pairs, top, DomainCounts, LeaderboardEntry};
use crate::ratio::{zero_ratio, Ratio};
use crate::sorting::{
    ascending_order, lemma_ascending_order, lemma_ascending_order_is_unique, sorted_samples,
};
use crate::stats::{ints, is_variance, lemma_sum_bounds, sum, sum_of_squares, total, variance};
use crate::types::{OverflowEvent, OverflowView, Priority, SystemMode};

verus! {

/// Samples that a latency window keeps.
pub const WINDOW: usize = 10_000;

/// Events that an event log keeps.
pub const LOG_CAPACITY: usize = 10_000;

/// `s` with `x` at its end; where `s` has reached `cap`, its oldest element
/// has gone.
pub open spec fn push_capped<T>(s: Seq<T>, cap: int, x: T) -> Seq<T> {
    if s.len() >= cap {
        s.skip(1).push(x)
    } else {
        s.push(x)
    }
}

/// `s` after each of `xs` was pushed in turn.
pub open spec fn push_all_capped<T>(s: Seq<T>, cap: int, xs: Seq<T>) -> Seq<T>
    decreases xs.len(),
{
    if xs.len() == 0 {
        s
    } else {
        push_capped(push_all_capped(s, cap, xs.drop_last()), cap, xs.last())
    }
}

/// A capped sequence holds the most recent elements: of everything that was
/// ever pushed, the last `cap`, or all of it while it is less.
pub proof fn lemma_capped_keeps_latest<T>(cap: int, xs: Seq<T>)
    requires
        cap > 0,
    ensures
        push_all_capped(Seq::<T>::empty(), cap, xs) == (if xs.len() <= cap {
            xs
        } else {
            xs.skip(xs.len() - cap)
        }),
    decreases xs.len(),
{
    if xs.len() > 0 {
        let before = xs.drop_last();
        lemma_capped_keeps_latest(cap, before);
        assert(xs =~= before.push(xs.last()));
        if xs.len() > cap {
            assert(push_all_capped(Seq::<T>::empty(), cap, xs) =~= xs.skip(xs.len() - cap));
        } else {
            assert(push_all_capped(Seq::<T>::empty(), cap, xs) =~= xs);
        }
    } else {
        assert(push_all_capped(Seq::<T>::empty(), cap, xs) =~= xs);
    }
}

/// Index, among `n` sorted samples, of the one nearest to the p-th percentile:
/// `p (n - 1) / 100` rounded to a whole number, halves upwards, and never
/// behind the last sample.
pub open spec fn percentile_index(p: u64, n: nat) -> int
    recommends
        n > 0,
{
    let index = (p * (n - 1) + 50) / 100;
    if index < n {
        index
    } else {
        n - 1
    }
}

/// The p-th percentile of the samples, and 0 where there are none.
pub open spec fn percentile_of(samples: Seq<u64>, p: u64) -> u64 {
    if samples.len() == 0 {
        0
    } else {
        ascending_order(samples)[percentile_index(p, samples.len())]
    }
}

/// A percentile is the sample of the nearest rank: in whichever ascending row
/// holds just the samples, it stands where `p` percent of the way from the
/// first to the last of them lie, to the nearest sample, and to the later one
/// of two equally near. Beyond 100 percent it is the last.
pub proof fn lemma_percentile_is_nearest_rank(samples: Seq<u64>, sorted: Seq<u64>, p: u64, i: int)
    requires
        samples.len() > 0,
        sorted.to_multiset() == samples.to_multiset(),
        forall|a: int, b: int| 0 <= a <= b < sorted.len() ==> sorted[a] <= sorted[b],
        0 <= i < samples.len(),
        p <= 100 ==> -50 < 100 * i - p * (samples.len() - 1) <= 50,
        p > 100 ==> i == samples.len() - 1,
    ensures
        sorted.len() == samples.len(),
        percentile_of(samples, p) == sorted[i],
{
    lemma_ascending_order(samples);
    lemma_ascending_order_is_unique(samples, sorted);
    let n = samples.len() as int;
    let x = p * (n - 1);
    if p <= 100 {
        assert(0 <= x <= 100 * (n - 1)) by (nonlinear_arith)
            requires
                x == p * (n - 1),
                0 <= p <= 100,
                n >= 1,
        ;
    } else {
        assert(x >= 100 * (n - 1)) by (nonlinear_arith)
            requires
                x == p * (n - 1),
                p > 100,
                n >= 1,
        ;
    }
    assert(percentile_index(p, samples.len()) == i);
}

/// Every percentile up to the 100th has its rank: an index among the samples
/// that is within half a rank of `p` percent, which is the one that is read.
pub proof fn lemma_percentile_rank_exists(p: u64, n: nat)
    requires
        n > 0,
        p <= 100,
    ensures
        0 <= percentile_index(p, n) < n,
        -50 < 100 * percentile_index(p, n) - p * (n - 1) <= 50,
{
    let x = p * (n - 1);
    assert(0 <= x <= 100 * (n - 1)) by (nonlinear_arith)
        requires
            x == p * (n - 1),
            0 <= p <= 100,
            n >= 1,
    ;
}

/// A latency window holds the last ten thousand samples that were pushed, or
/// all of them while there are no more.
pub proof fn lemma_window_keeps_latest(xs: Seq<u64>)
    ensures
        push_all_capped(Seq::<u64>::empty(), WINDOW as int, xs) == (if xs.len() <= 10_000 {
            xs
        } else {
            xs.skip(xs.len() - 10_000)
        }),
{
    lemma_capped_keeps_latest(WINDOW as int, xs);
}

/// Percentiles rise, or stay, with the percentage.
pub proof fn lemma_percentile_is_monotone(samples: Seq<u64>, p: u64, q: u64)
    requires
        p <= q,
    ensures
        percentile_of(samples, p) <= percentile_of(samples, q),
{
    lemma_ascending_order(samples);
    if samples.len() > 0 {
        let n = samples.len();
        assert(p * (n - 1) <= q * (n - 1)) by (nonlinear_arith)
            requires
                p <= q,
                n > 0,
        ;
        assert(p * (n - 1) >= 0) by (nonlinear_arith)
            requires
                n > 0,
        ;
    }
}

/// A percentile is one of the samples; the 0th is the least of them and the
/// 100th the greatest.
pub proof fn lemma_percentile_is_a_sample(samples: Seq<u64>, p: u64)
    requires
        samples.len() > 0,
    ensures
        samples.contains(percentile_of(samples, p)),
        forall|i: int|
            0 <= i < samples.len() ==> percentile_of(samples, 0) <= #[trigger] samples[i]
                <= percentile_of(samples, 100),
{
    broadcast use vstd::seq_lib::group_to_multiset_ensures;

    let sorted = ascending_order(samples);
    let n = samples.len();
    lemma_ascending_order(samples);
    assert(p * (n - 1) >= 0) by (nonlinear_arith)
        requires
            n > 0,
    ;
    let at = percentile_index(p, n);
    assert(sorted.to_multiset().count(sorted[at]) > 0);
    assert(percentile_index(0, n) == 0);
    assert(percentile_index(100, n) == n - 1);
    assert forall|i: int| 0 <= i < samples.len() implies percentile_of(samples, 0) <= #[trigger]
    samples[i] <= percentile_of(samples, 100) by {
        assert(samples.to_multiset().count(samples[i]) > 0);
        assert(sorted.contains(samples[i]));
        let k = choose|k: int| 0 <= k < sorted.len() && sorted[k] == samples[i];
        assert(sorted[0] <= sorted[k] <= sorted[n - 1]);
    }
}

/// Rolling window of latency samples, in whole microseconds.
#[derive(Debug, Clone)]
pub struct LatencySamples {
    samples: VecDeque<u64>,
}

impl View for LatencySamples {
    type V = Seq<u64>;

    closed spec fn view(&self) -> Seq<u64> {
        self.samples@
    }
}

impl LatencySamples {
    pub fn new() -> (s: Self)
        ensures
            s@ == Seq::<u64>::empty(),
    {
        LatencySamples { samples: VecDeque::new() }
    }

    /// Adds a sample; a full window loses its oldest one.
    pub fn push(&mut self, v: u64)
        ensures
            final(self)@ == push_capped(old(self)@, WINDOW as int, v),
    {
        if self.samples.len() >= WINDOW {
            self.samples.pop_front();
            assert(self@ =~= old(self)@.skip(1));
        }
        self.samples.push_back(v);
    }

    pub fn count(&self) -> (n: usize)
        ensures
            n == self@.len(),
    {
        self.samples.len()
    }

    /// Mean of the samples, and 0 where there are none.
    pub fn mean(&self) -> (mean: Ratio)
        ensures
            mean.is_mean_of(self@),
            0 < mean.den <= u64::MAX,
            mean.num <= mean.den * u64::MAX,
    {
        if self.samples.len() == 0 {
            return Ratio::zero();
        }
        let samples = self.snapshot();
        proof {
            lemma_sum_bounds(samples@);
        }
        Ratio { num: total(&samples), den: samples.len() as u128 }
    }

    /// Population variance of the samples, the square of their standard
    /// deviation, and 0 for fewer than two samples. `None` where the count
    /// times the sum of squares does not fit 128 bits.
    pub fn variance(&self) -> (r: Option<Ratio>)
        ensures
            self@.len() < 2 ==> r == Some(zero_ratio()),
            self@.len() >= 2 ==> (r is Some <==> self@.len() * sum_of_squares(ints(self@))
                <= u128::MAX),
            self@.len() >= 2 && r is Some ==> is_variance(r->0, ints(self@)),
    {
        variance(&self.snapshot())
    }

    /// The greatest sample, or `None` where there are no samples.
    pub fn max(&self) -> (greatest: Option<u64>)
        ensures
            greatest is None <==> self@.len() == 0,
            greatest matches Some(m) ==> self@.contains(m) && forall|i: int|
                0 <= i < self@.len() ==> #[trigger] self@[i] <= m,
    {
        let n: usize = self.samples.len();
        if n == 0 {
            return None;
        }
        let mut m: u64 = self.samples[0];
        for i in 1..n
            invariant
                n == self@.len(),
                n > 0,
                self@.contains(m),
                forall|k: int| 0 <= k < i ==> #[trigger] self@[k] <= m,
        {
            let x: u64 = self.samples[i];
            if x > m {
                m = x;
                assert(self@[i as int] == m);
            }
        }
        Some(m)
    }

    /// The sample at the p-th percentile, and 0 where there are no samples.
    pub fn percentile(&self, p: u64) -> (v: u64)
        ensures
            v == percentile_of(self@, p),
    {
        let samples = self.snapshot();
        let n: usize = samples.len();
        if n == 0 {
            return 0;
        }
        let sorted = sorted_samples(&samples);
        assert(0 <= p * (n - 1) <= u64::MAX * (u64::MAX - 1)) by (nonlinear_arith)
            requires
                0 < n <= u64::MAX,
                0 <= p <= u64::MAX,
        ;
        let index: u128 = (p as u128 * (n - 1) as u128 + 50) / 100;
        if index < n as u128 {
            sorted[index as usize]
        } else {
            sorted[n - 1]
        }
    }

    pub fn p50(&self) -> (v: u64)
        ensures
            v == percentile_of(self@, 50),
    {
        self.percentile(50)
    }

    pub fn p90(&self) -> (v: u64)
        ensures
            v == percentile_of(self@, 90),
    {
        self.percentile(90)
    }

    pub fn p99(&self) -> (v: u64)
        ensures
            v == percentile_of(self@, 99),
    {
        self.percentile(99)
    }

    /// The samples, oldest first.
    pub fn snapshot(&self) -> (samples: Vec<u64>)
        ensures
            samples@ == self@,
    {
        let n: usize = self.samples.len();
        let mut samples: Vec<u64> = Vec::with_capacity(n);
        for i in 0..n
            invariant
                n == self@.len(),
                samples@ == self@.take(i as int),
        {
            samples.push(self.samples[i]);
            assert(samples@ =~= self@.take(i as int + 1));
        }
        assert(self@.take(n as int) =~= self@);
        samples
    }
}

/// One missed deadline of the hot path.
#[derive(Debug, Clone)]
pub struct DeadlineMissEvent {
    /// When processing finished, in nanoseconds of the monotonic clock.
    pub occurred_at: u64,
    pub latency_us: u64,
    pub domain: String,
    pub priority: Priority,
}

/// What a deadline-miss event says.
#[verifier::ext_equal]
pub struct DeadlineMissView {
    pub occurred_at: u64,
    pub latency_us: u64,
    pub domain: Seq<char>,
    pub priority: Priority,
}

impl View for DeadlineMissEvent {
    type V = DeadlineMissView;

    open spec fn view(&self) -> DeadlineMissView {
        DeadlineMissView {
            occurred_at: self.occurred_at,
            latency_us: self.latency_us,
            domain: self.domain@,
            priority: self.priority,
        }
    }
}

pub open spec fn overflow_views(log: Seq<OverflowEvent>) -> Seq<OverflowView> {
    log.map_values(|e: OverflowEvent| e@)
}

pub open spec fn deadline_miss_views(log: Seq<DeadlineMissEvent>) -> Seq<DeadlineMissView> {
    log.map_values(|e: DeadlineMissEvent| e@)
}

/// The performance store that all components share.
pub struct SharedMetrics {
    /// Events that the async pipeline received.
    pub async_events_received: u64,
    /// Events that the threaded pipeline received.
    pub threaded_events_received: u64,
    /// Packets that the async pipeline dropped.
    pub async_overflow_count: u64,
    /// Packets that the threaded pipeline dropped.
    pub threaded_overflow_count: u64,
    /// Hot-path latency (T3 - T2) of human edits, in µs.
    pub human_latency_us: LatencySamples,
    /// Hot-path latency of bot edits, in µs.
    pub bot_latency_us: LatencySamples,
    /// Packets that took longer than the hot-path deadline.
    pub deadline_misses: u64,
    /// Scheduling drift (T2 - T1) of human edits, in µs.
    pub human_drift_us: LatencySamples,
    /// Scheduling drift of bot edits, in µs.
    pub bot_drift_us: LatencySamples,
    /// Edits per domain.
    pub domain_counts: DomainCounts,
    /// Leaderboard writes under the mutex strategy.
    pub mutex_write_ops: u64,
    /// Leaderboard writes under the reader-writer-lock strategy.
    pub rwlock_write_ops: u64,
    /// Leaderboard writes under the atomic strategy.
    pub atomic_write_ops: u64,
    pub watchdog_resets: u64,
    pub fail_safe_activations: u64,
    pub current_mode: String,
    pub uptime_ns: u64,
    /// Events per second of the async pipeline.
    pub async_throughput: Ratio,
    /// Events per second of the threaded pipeline.
    pub threaded_throughput: Ratio,
    /// The latest overflow events.
    pub overflow_log: Vec<OverflowEvent>,
    /// The latest deadline misses.
    pub deadline_miss_log: Vec<DeadlineMissEvent>,
}

/// What the performance store holds.
#[verifier::ext_equal]
pub struct MetricsView {
    pub async_events_received: u64,
    pub threaded_events_received: u64,
    pub async_overflow_count: u64,
    pub threaded_overflow_count: u64,
    pub human_latency_us: Seq<u64>,
    pub bot_latency_us: Seq<u64>,
    pub deadline_misses: u64,
    pub human_drift_us: Seq<u64>,
    pub bot_drift_us: Seq<u64>,
    pub domain_counts: Seq<(Seq<char>, u64)>,
    pub mutex_write_ops: u64,
    pub rwlock_write_ops: u64,
    pub atomic_write_ops: u64,
    pub watchdog_resets: u64,
    pub fail_safe_activations: u64,
    pub current_mode: Seq<char>,
    pub uptime_ns: u64,
    pub async_throughput: Ratio,
    pub threaded_throughput: Ratio,
    pub overflow_log: Seq<OverflowView>,
    pub deadline_miss_log: Seq<DeadlineMissView>,
}

impl MetricsView {
    /// The store of a run that has just begun.
    pub open spec fn initial() -> Self {
        MetricsView {
            async_events_received: 0,
            threaded_events_received: 0,
            async_overflow_count: 0,
            threaded_overflow_count: 0,
            human_latency_us: Seq::empty(),
            bot_latency_us: Seq::empty(),
            deadline_misses: 0,
            human_drift_us: Seq::empty(),
            bot_drift_us: Seq::empty(),
            domain_counts: Seq::empty(),
            mutex_write_ops: 0,
            rwlock_write_ops: 0,
            atomic_write_ops: 0,
            watchdog_resets: 0,
            fail_safe_activations: 0,
            current_mode: SystemMode::Normal.label_text(),
            uptime_ns: 0,
            async_throughput: zero_ratio(),
            threaded_throughput: zero_ratio(),
            overflow_log: Seq::empty(),
            deadline_miss_log: Seq::empty(),
        }
    }

    /// One more drift sample of a packet of the given priority.
    pub open spec fn with_drift(self, priority: Priority, us: u64) -> Self {
        match priority {
            Priority::High => MetricsView {
                human_drift_us: push_capped(self.human_drift_us, WINDOW as int, us),
                ..self
            },
            Priority::Low => MetricsView {
                bot_drift_us: push_capped(self.bot_drift_us, WINDOW as int, us),
                ..self
            },
        }
    }

    /// One more latency sample of a packet of the given priority.
    pub open spec fn with_latency(self, priority: Priority, us: u64) -> Self {
        match priority {
            Priority::High => MetricsView {
                human_latency_us: push_capped(self.human_latency_us, WINDOW as int, us),
                ..self
            },
            Priority::Low => MetricsView {
                bot_latency_us: push_capped(self.bot_latency_us, WINDOW as int, us),
                ..self
            },
        }
    }

    /// One more overflow event in the log.
    pub open spec fn with_overflow(self, ev: OverflowView) -> Self {
        MetricsView {
            overflow_log: push_capped(self.overflow_log, LOG_CAPACITY as int, ev),
            ..self
        }
    }

    /// One more deadline miss in the log.
    pub open spec fn with_deadline_miss(self, ev: DeadlineMissView) -> Self {
        MetricsView {
            deadline_miss_log: push_capped(self.deadline_miss_log, LOG_CAPACITY as int, ev),
            ..self
        }
    }
}

impl View for SharedMetrics {
    type V = MetricsView;

    open spec fn view(&self) -> MetricsView {
        MetricsView {
            async_events_received: self.async_events_received,
            threaded_events_received: self.threaded_events_received,
            async_overflow_count: self.async_overflow_count,
            threaded_overflow_count: self.threaded_overflow_count,
            human_latency_us: self.human_latency_us@,
            bot_latency_us: self.bot_latency_us@,
            deadline_misses: self.deadline_misses,
            human_drift_us: self.human_drift_us@,
            bot_drift_us: self.bot_drift_us@,
            domain_counts: self.domain_counts@,
            mutex_write_ops: self.mutex_write_ops,
            rwlock_write_ops: self.rwlock_write_ops,
            atomic_write_ops: self.atomic_write_ops,
            watchdog_resets: self.watchdog_resets,
            fail_safe_activations: self.fail_safe_activations,
            current_mode: self.current_mode@,
            uptime_ns: self.uptime_ns,
            async_throughput: self.async_throughput,
            threaded_throughput: self.threaded_throughput,
            overflow_log: overflow_views(self.overflow_log@),
            deadline_miss_log: deadline_miss_views(self.deadline_miss_log@),
        }
    }
}

impl SharedMetrics {
    /// The domain counts are in order.
    pub open spec fn wf(&self) -> bool {
        self.domain_counts.wf()
    }

    /// The `n` domains with the most edits, by falling count.
    pub fn top_domains(&self, n: usize) -> (entries: Vec<LeaderboardEntry>)
        requires
            self.wf(),
        ensures
            pairs(entries@) == top(self@.domain_counts, n as int),
    {
        self.domain_counts.top_n(n)
    }

    /// Logs an overflow event; a full log loses its oldest one.
    pub fn push_overflow(&mut self, ev: OverflowEvent)
        ensures
            final(self)@ == old(self)@.with_overflow(ev@),
            final(self).wf() == old(self).wf(),
    {
        if self.overflow_log.len() >= LOG_CAPACITY {
            self.overflow_log.remove(0);
            assert(self@.overflow_log =~= old(self)@.overflow_log.skip(1));
        }
        self.overflow_log.push(ev);
        assert(self@.overflow_log =~= push_capped(
            old(self)@.overflow_log,
            LOG_CAPACITY as int,
            ev@,
        ));
    }

    /// Logs a deadline miss; a full log loses its oldest one.
    pub fn push_deadline_miss(&mut self, ev: DeadlineMissEvent)
        ensures
            final(self)@ == old(self)@.with_deadline_miss(ev@),
            final(self).wf() == old(self).wf(),
    {
        if self.deadline_miss_log.len() >= LOG_CAPACITY {
            self.deadline_miss_log.remove(0);
            assert(self@.deadline_miss_log =~= old(self)@.deadline_miss_log.skip(1));
        }
        self.deadline_miss_log.push(ev);
        assert(self@.deadline_miss_log =~= push_capped(
            old(self)@.deadline_miss_log,
            LOG_CAPACITY as int,
            ev@,
        ));
    }

    /// Records the scheduling drift of a packet.
    pub fn push_drift(&mut self, priority: Priority, us: u64)
        ensures
            final(self)@ == old(self)@.with_drift(priority, us),
            final(self).wf() == old(self).wf(),
    {
        match priority {
            Priority::High => self.human_drift_us.push(us),
            Priority::Low => self.bot_drift_us.push(us),
        }
    }

    /// Records the hot-path latency of a packet.
    pub fn push_latency(&mut self, priority: Priority, us: u64)
        ensures
            final(self)@ == old(self)@.with_latency(priority, us),
            final(self).wf() == old(self).wf(),
    {
        match priority {
            Priority::High => self.human_latency_us.push(us),
            Priority::Low => self.bot_latency_us.push(us),
        }
    }
}

/// The store of a run that has just begun.
pub fn new_metrics() -> (metrics: SharedMetrics)
    ensures
        metrics@ == MetricsView::initial(),
        metrics.wf(),
{
    let metrics = SharedMetrics {
        async_events_received: 0,
        threaded_events_received: 0,
        async_overflow_count: 0,
        threaded_overflow_count: 0,
        human_latency_us: LatencySamples::new(),
        bot_latency_us: LatencySamples::new(),
        deadline_misses: 0,
        human_drift_us: LatencySamples::new(),
        bot_drift_us: LatencySamples::new(),
        domain_counts: DomainCounts::new(),
        mutex_write_ops: 0,
        rwlock_write_ops: 0,
        atomic_write_ops: 0,
        watchdog_resets: 0,
        fail_safe_activations: 0,
        current_mode: SystemMode::Normal.label().to_owned(),
        uptime_ns: 0,
        async_throughput: Ratio::zero(),
        threaded_throughput: Ratio::zero(),
        overflow_log: Vec::new(),
        deadline_miss_log: Vec::new(),
    };
    assert(metrics@ =~= MetricsView::initial());
    metrics
}

/// A latency or drift sample enters the window of its own class and no other; a
/// log entry is the last of its log.
pub proof fn lemma_samples_by_class(m: MetricsView, us: u64)
    ensures
        LOG_CAPACITY == 10_000,
        ({
            let h = m.with_latency(Priority::High, us);
            let l = m.with_latency(Priority::Low, us);
            let a = m.with_drift(Priority::High, us);
            let b = m.with_drift(Priority::Low, us);
            &&& h.human_latency_us.len() > 0 && h.human_latency_us.last() == us
            &&& l.bot_latency_us.len() > 0 && l.bot_latency_us.last() == us
            &&& a.human_drift_us.len() > 0 && a.human_drift_us.last() == us
            &&& b.bot_drift_us.len() > 0 && b.bot_drift_us.last() == us
            &&& h == (MetricsView { human_latency_us: h.human_latency_us, ..m })
            &&& l == (MetricsView { bot_latency_us: l.bot_latency_us, ..m })
            &&& a == (MetricsView { human_drift_us: a.human_drift_us, ..m })
            &&& b == (MetricsView { bot_drift_us: b.bot_drift_us, ..m })
        }),
{
}

/// A log holds the last ten thousand entries.
pub proof fn lemma_log_keeps_latest<T>(xs: Seq<T>)
    ensures
        push_all_capped(Seq::<T>::empty(), LOG_CAPACITY as int, xs) == (if xs.len() <= 10_000 {
            xs
        } else {
            xs.skip(xs.len() - 10_000)
        }),
{
    lemma_capped_keeps_latest(LOG_CAPACITY as int, xs);
}

/// A run begins with everything at zero, in Normal mode.
pub proof fn lemma_fresh_store()
    ensures
        ({
            let m = MetricsView::initial();
            &&& m.deadline_misses == 0 && m.fail_safe_activations == 0 && m.watchdog_resets == 0
            &&& m.human_latency_us.len() == 0 && m.bot_latency_us.len() == 0
            &&& m.human_drift_us.len() == 0 && m.bot_drift_us.len() == 0
            &&& m.overflow_log.len() == 0 && m.deadline_miss_log.len() == 0
            &&& m.mutex_write_ops == 0 && m.rwlock_write_ops == 0 && m.atomic_write_ops == 0
            &&& m.current_mode == "NORMAL"@
        }),
{
}

/// Without samples every percentile is 0.
pub proof fn lemma_percentile_of_nothing(p: u64)
    ensures
        percentile_of(Seq::empty(), p) == 0,
{
}

/// Events enter their own log, at its end, and change nothing else.
pub proof fn lemma_logs_grow(m: MetricsView, drop: OverflowView, miss: DeadlineMissView)
    ensures
        ({
            let a = m.with_overflow(drop);
            let b = m.with_deadline_miss(miss);
            &&& a.overflow_log.len() > 0 && a.overflow_log.last() == drop
            &&& b.deadline_miss_log.len() > 0 && b.deadline_miss_log.last() == miss
            &&& m.overflow_log.len() < 10_000 ==> a.overflow_log == m.overflow_log.push(drop)
            &&& m.overflow_log.len() >= 10_000 ==> a.overflow_log == m.overflow_log.skip(1).push(
                drop,
            )
            &&& m.deadline_miss_log.len() < 10_000 ==> b.deadline_miss_log
                == m.deadline_miss_log.push(miss)
            &&& m.deadline_miss_log.len() >= 10_000 ==> b.deadline_miss_log
                == m.deadline_miss_log.skip(1).push(miss)
            &&& a == (MetricsView { overflow_log: a.overflow_log, ..m })
            &&& b == (MetricsView { deadline_miss_log: b.deadline_miss_log, ..m })
        }),
{
}

/// Each logged event stands for itself.
pub proof fn lemma_log_views(
    drops: Seq<OverflowEvent>,
    misses: Seq<DeadlineMissEvent>,
    i: int,
)
    ensures
        overflow_views(drops).len() == drops.len(),
        deadline_miss_views(misses).len() == misses.len(),
        0 <= i < drops.len() ==> overflow_views(drops)[i] == (OverflowView {
            dropped_at: drops[i].dropped_at,
            domain: drops[i].domain@,
            priority: drops[i].priority,
            total_drops: drops[i].total_drops,
        }),
        0 <= i < misses.len() ==> deadline_miss_views(misses)[i] == (DeadlineMissView {
            occurred_at: misses[i].occurred_at,
            latency_us: misses[i].latency_us,
            domain: misses[i].domain@,
            priority: misses[i].priority,
        }),
{
}

} // verus!
