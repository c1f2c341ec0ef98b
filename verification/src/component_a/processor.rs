//! The processing unit: a moving average that suppresses noise, and the
//! detection of readings that stand out.
//!
//! A reading is an anomaly where its distance from the moving average exceeds
//! the threshold times the standard deviation of the window. The controller
//! reports whether it keeps its deadline: a miss relaxes the threshold, a
//! cycle in time tightens it again.

use std::collections::VecDeque;
use vstd::prelude::*;

use crate::component_a::sync_manager::{SyncManager, SyncMode, SyncRecord};
use crate::control::{
    in_limits, sampled, ControlMetrics, ControlView, FeedbackMessage, SensorData, SensorType,
    VALUE_LIMIT,
};
use crate::metrics::{lemma_capped_keeps_latest, push_all_capped, push_capped};
use crate::stats::{lemma_variance, scaled_deviation, sum, sum_of_squares};
use crate::types::{elapsed_us, micros_between, since};

verus! {

/// Readings that the moving average is taken over.
pub const SMA_WINDOW: usize = 8;

/// Deadline of the processing of a reading, in ns.
pub const PROC_DEADLINE_NS: u64 = 200_000;

/// Least, and first, anomaly threshold, in hundredths of the standard
/// deviation.
pub const ANOMALY_SIGMA: u64 = 300;

/// Greatest anomaly threshold, in hundredths.
pub const MAX_SIGMA: u64 = 600;

/// Least standard deviation that is assumed: a hundredth of a unit.
pub const MIN_STD_DEV: i64 = 10_000;

/// The readings as integers.
pub open spec fn values(w: Seq<i64>) -> Seq<int> {
    w.map_values(|x: i64| x as int)
}

/// Mean of the readings, rounded down.
pub open spec fn mean_of(w: Seq<i64>) -> int
    recommends
        w.len() > 0,
{
    sum(values(w)) / (w.len() as int)
}

/// Every reading is one that the loop handles.
pub open spec fn all_in_limits(w: Seq<i64>) -> bool {
    forall|i: int| 0 <= i < w.len() ==> in_limits(#[trigger] w[i])
}

/// With `n` readings, `n` times the distance of `raw` from their mean.
pub open spec fn scaled_distance(w: Seq<i64>, raw: i64) -> int {
    let d = w.len() * raw - sum(values(w));
    if d >= 0 {
        d
    } else {
        -d
    }
}

/// With `n` readings, `n²` times their variance.
pub open spec fn scaled_variance(w: Seq<i64>) -> int {
    w.len() * sum_of_squares(values(w)) - sum(values(w)) * sum(values(w))
}

/// The distance of `raw` from the mean exceeds `threshold / 100` times the
/// standard deviation, which counts as a hundredth of a unit at least. Both
/// sides are multiplied by `100 n`; the side with the deviation is squared.
pub open spec fn stands_out(w: Seq<i64>, raw: i64, threshold: u64) -> bool {
    let d = 100 * scaled_distance(w, raw);
    &&& d * d > (threshold * threshold) * scaled_variance(w)
    &&& d > threshold * MIN_STD_DEV * w.len()
}

proof fn lemma_sum_in(w: Seq<i64>, low: int, high: int)
    requires
        forall|i: int| 0 <= i < w.len() ==> low <= #[trigger] w[i] <= high,
    ensures
        low * w.len() <= sum(values(w)) <= high * w.len(),
    decreases w.len(),
{
    if w.len() > 0 {
        let head = w.drop_last();
        assert forall|i: int| 0 <= i < head.len() implies low <= #[trigger] head[i] <= high by {
            assert(head[i] == w[i]);
        }
        lemma_sum_in(head, low, high);
        assert(values(w).drop_last() =~= values(head));
        assert(low <= w[w.len() - 1] <= high);
        let n = w.len() as int;
        assert(low * (n - 1) + low == low * n && high * (n - 1) + high == high * n)
            by (nonlinear_arith);
    } else {
        assert(low * 0 == 0 && high * 0 == 0) by (nonlinear_arith);
    }
}

/// The moving average lies between the least and the greatest reading.
pub proof fn lemma_mean_is_between(w: Seq<i64>, low: int, high: int)
    requires
        w.len() > 0,
        forall|i: int| 0 <= i < w.len() ==> low <= #[trigger] w[i] <= high,
    ensures
        low <= mean_of(w) <= high,
{
    lemma_sum_in(w, low, high);
    let n = w.len() as int;
    let s = sum(values(w));
    assert(low <= s / n <= high) by (nonlinear_arith)
        requires
            low * n <= s <= high * n,
            n > 0,
    ;
}

/// A signal that does not change is never an anomaly.
pub proof fn lemma_constant_signal_is_normal(w: Seq<i64>, raw: i64, threshold: u64)
    requires
        forall|i: int| 0 <= i < w.len() ==> #[trigger] w[i] == raw,
    ensures
        !stands_out(w, raw, threshold),
{
    lemma_sum_in(w, raw as int, raw as int);
    let n = w.len() as int;
    let r = raw as int;
    assert(n * r == r * n) by (nonlinear_arith);
    assert(scaled_distance(w, raw) == 0);
    let t = threshold as int;
    assert(t * 10_000 * n >= 0) by (nonlinear_arith)
        requires
            t >= 0,
            n >= 0,
    ;
}

/// A higher threshold finds no more anomalies.
pub proof fn lemma_higher_threshold_is_laxer(w: Seq<i64>, raw: i64, low: u64, high: u64)
    requires
        low <= high,
        stands_out(w, raw, high),
    ensures
        stands_out(w, raw, low),
{
    let v = scaled_variance(w);
    let n = w.len() as int;
    let a = low as int;
    let b = high as int;
    if n > 0 {
        assert(values(w).len() == w.len());
        lemma_variance(values(w));
    } else {
        assert(0 * sum_of_squares(values(w)) == 0) by (nonlinear_arith);
    }
    assert(a * a <= b * b) by (nonlinear_arith)
        requires
            0 <= a <= b,
    ;
    assert((a * a) * v <= (b * b) * v) by (nonlinear_arith)
        requires
            a * a <= b * b,
            v >= 0,
    ;
    assert(a * 10_000 * n <= b * 10_000 * n) by (nonlinear_arith)
        requires
            a <= b,
            n >= 0,
    ;
}

/// A moving average over the latest readings.
pub struct SmaFilter {
    window: VecDeque<i64>,
    sum: i64,
}

impl View for SmaFilter {
    type V = Seq<i64>;

    closed spec fn view(&self) -> Seq<i64> {
        self.window@
    }
}

impl SmaFilter {
    pub closed spec fn wf(&self) -> bool {
        &&& self.window@.len() <= SMA_WINDOW
        &&& all_in_limits(self.window@)
        &&& self.sum == sum(values(self.window@))
    }

    pub proof fn lemma_window_is_bounded(&self)
        requires
            self.wf(),
        ensures
            self@.len() <= SMA_WINDOW,
            all_in_limits(self@),
    {
    }

    pub fn new() -> (filter: Self)
        ensures
            filter.wf(),
            filter@ == Seq::<i64>::empty(),
    {
        SmaFilter { window: VecDeque::new(), sum: 0 }
    }

    /// Takes in a reading and returns the new average, rounded down.
    pub fn update(&mut self, v: i64) -> (mean: i64)
        requires
            old(self).wf(),
            in_limits(v),
        ensures
            final(self).wf(),
            final(self)@ == push_capped(old(self)@, SMA_WINDOW as int, v),
            mean == mean_of(final(self)@),
            in_limits(mean),
    {
        let ghost before = self.window@;
        proof {
            lemma_sum_in(before, -1_000_000_000_000_000, 1_000_000_000_000_000);
        }
        let ghost kept = if before.len() >= SMA_WINDOW {
            before.skip(1)
        } else {
            before
        };
        if self.window.len() >= SMA_WINDOW {
            let oldest = self.window.pop_front();
            proof {
                lemma_sum_first(before);
                assert(in_limits(before[0]));
            }
            if let Some(oldest) = oldest {
                self.sum = self.sum - oldest;
            }
            assert(self.window@ =~= kept);
        }
        proof {
            assert forall|i: int| 0 <= i < kept.len() implies in_limits(#[trigger] kept[i]) by {
                if before.len() >= SMA_WINDOW {
                    assert(kept[i] == before[i + 1]);
                }
            }
            lemma_sum_in(kept, -1_000_000_000_000_000, 1_000_000_000_000_000);
            assert(self.sum == sum(values(kept)));
        }
        self.window.push_back(v);
        self.sum = self.sum + v;
        let ghost after = self.window@;
        proof {
            assert(after =~= kept.push(v));
            assert(values(after).drop_last() =~= values(kept));
            assert forall|i: int| 0 <= i < after.len() implies -VALUE_LIMIT <= #[trigger] after[i]
                <= VALUE_LIMIT by {
                if i < kept.len() {
                    assert(in_limits(kept[i]));
                }
            }
            lemma_mean_is_between(after, -1_000_000_000_000_000, 1_000_000_000_000_000);
            lemma_sum_in(after, -1_000_000_000_000_000, 1_000_000_000_000_000);
        }
        let n: i64 = self.window.len() as i64;
        let lifted: u64 = (self.sum + VALUE_LIMIT * n) as u64;
        proof {
            let s = self.sum as int;
            let m = n as int;
            assert((s + 1_000_000_000_000_000 * m) / m == s / m + 1_000_000_000_000_000)
                by (nonlinear_arith)
                requires
                    m > 0,
            ;
            assert(lifted as int / m == mean_of(after) + VALUE_LIMIT);
        }
        (lifted / n as u64) as i64 - VALUE_LIMIT
    }

    /// Whether a reading stands out from the window.
    pub fn is_anomaly(&self, raw: i64, threshold: u64) -> (yes: bool)
        requires
            self.wf(),
            in_limits(raw),
            threshold <= MAX_SIGMA,
        ensures
            yes == stands_out(self@, raw, threshold),
    {
        let len: usize = self.window.len();
        let n: i128 = len as i128;
        let s: i128 = self.sum as i128;
        let ghost w = self.window@;
        proof {
            lemma_sum_in(w, -1_000_000_000_000_000, 1_000_000_000_000_000);
        }
        let mut q: i128 = 0;
        assert(values(w).take(0) =~= Seq::empty());
        for i in 0..len
            invariant
                len == self.window@.len(),
                len <= SMA_WINDOW,
                w == self.window@,
                all_in_limits(w),
                q == sum_of_squares(values(w).take(i as int)),
                0 <= q <= i * 1_000_000_000_000_000_000_000_000_000_000,
        {
            let x: i128 = self.window[i] as i128;
            proof {
                assert(in_limits(w[i as int]));
                assert(0 <= x * x <= 1_000_000_000_000_000_000_000_000_000_000) by (nonlinear_arith)
                    requires
                        -1_000_000_000_000_000 <= x <= 1_000_000_000_000_000,
                ;
                assert(values(w).take(i as int + 1).drop_last() =~= values(w).take(i as int));
            }
            q = q + x * x;
        }
        assert(values(w).take(len as int) =~= values(w));
        let ghost r = raw as int;
        let ghost t = threshold as int;
        proof {
            assert(-8_000_000_000_000_000 <= n * r <= 8_000_000_000_000_000) by (nonlinear_arith)
                requires
                    0 <= n <= 8,
                    -1_000_000_000_000_000 <= r <= 1_000_000_000_000_000,
            ;
            assert(0 <= s * s <= 64_000_000_000_000_000_000_000_000_000_000) by (nonlinear_arith)
                requires
                    -8_000_000_000_000_000 <= s <= 8_000_000_000_000_000,
            ;
            assert(0 <= n * q <= 64_000_000_000_000_000_000_000_000_000_000) by (nonlinear_arith)
                requires
                    0 <= n <= 8,
                    0 <= q <= 8_000_000_000_000_000_000_000_000_000_000,
            ;
            assert(0 <= t * t <= 360_000) by (nonlinear_arith)
                requires
                    0 <= t <= 600,
            ;
        }
        let diff: i128 = n * raw as i128 - s;
        let distance: i128 = if diff >= 0 {
            diff
        } else {
            -diff
        };
        let d: i128 = 100 * distance;
        let v: i128 = n * q - s * s;
        proof {
            assert(0 <= d * d <= 2_560_000_000_000_000_000_000_000_000_000_000_000)
                by (nonlinear_arith)
                requires
                    0 <= d <= 1_600_000_000_000_000_000,
            ;
            if len > 0 {
                assert(values(w).len() == w.len());
                lemma_variance(values(w));
            } else {
                assert(s == 0);
                assert(n * q == 0) by (nonlinear_arith)
                    requires
                        n == 0,
                ;
                assert(s * s == 0) by (nonlinear_arith)
                    requires
                        s == 0,
                ;
            }
            let tt = t * t;
            assert(0 <= tt * v <= 23_040_000_000_000_000_000_000_000_000_000_000_000)
                by (nonlinear_arith)
                requires
                    0 <= tt <= 360_000,
                    0 <= v <= 64_000_000_000_000_000_000_000_000_000_000,
            ;
            assert(0 <= t * 10_000 * n <= 48_000_000) by (nonlinear_arith)
                requires
                    0 <= t <= 600,
                    0 <= n <= 8,
            ;
        }
        let th: i128 = threshold as i128;
        d * d > (th * th) * v && d > th * MIN_STD_DEV as i128 * n
    }
}

proof fn lemma_sum_first(w: Seq<i64>)
    requires
        w.len() > 0,
    ensures
        sum(values(w)) == w[0] + sum(values(w.skip(1))),
    decreases w.len(),
{
    if w.len() == 1 {
        assert(w.skip(1) =~= Seq::<i64>::empty());
        assert(values(w).drop_last() =~= Seq::<int>::empty());
        assert(values(w.skip(1)) =~= Seq::<int>::empty());
    } else {
        let head = w.drop_last();
        lemma_sum_first(head);
        assert(values(w).drop_last() =~= values(head));
        assert(values(w.skip(1)).drop_last() =~= values(head.skip(1)));
    }
}

/// The threshold after a report of the controller.
pub open spec fn adapted(threshold: u64, deadline_miss: bool) -> u64 {
    if deadline_miss {
        if threshold + 50 <= MAX_SIGMA {
            (threshold + 50) as u64
        } else {
            MAX_SIGMA
        }
    } else {
        if threshold >= ANOMALY_SIGMA + 5 {
            (threshold - 5) as u64
        } else {
            ANOMALY_SIGMA
        }
    }
}

/// The threshold keeps within its bounds; a miss never tightens it and a
/// cycle in time never relaxes it.
pub proof fn lemma_threshold_is_bounded(threshold: u64, deadline_miss: bool)
    requires
        ANOMALY_SIGMA <= threshold <= MAX_SIGMA,
    ensures
        ANOMALY_SIGMA <= adapted(threshold, deadline_miss) <= MAX_SIGMA,
        deadline_miss ==> adapted(threshold, deadline_miss) >= threshold,
        !deadline_miss ==> adapted(threshold, deadline_miss) <= threshold,
{
}

/// State of a processing unit.
#[verifier::ext_equal]
pub struct ProcessorState {
    /// Anomaly threshold, in hundredths.
    pub threshold: u64,
    pub force: Seq<i64>,
    pub position: Seq<i64>,
    pub temperature: Seq<i64>,
}

impl ProcessorState {
    pub open spec fn window(self, sensor_type: SensorType) -> Seq<i64> {
        match sensor_type {
            SensorType::Force => self.force,
            SensorType::Position => self.position,
            SensorType::Temperature => self.temperature,
        }
    }

    /// The state after a reading entered the window of its sensor.
    pub open spec fn filtered(self, sensor_type: SensorType, v: i64) -> Self {
        let w = push_capped(self.window(sensor_type), SMA_WINDOW as int, v);
        match sensor_type {
            SensorType::Force => ProcessorState { force: w, ..self },
            SensorType::Position => ProcessorState { position: w, ..self },
            SensorType::Temperature => ProcessorState { temperature: w, ..self },
        }
    }
}

/// The measurements after a reading was processed from `start_ns` to `t1`, where
/// the deadline counts from `due_from`.
pub open spec fn processing_measured(
    m: ControlView,
    due_from: u64,
    start_ns: u64,
    t1: u64,
) -> ControlView {
    let measured = ControlView {
        processing_latency_us: sampled(m.processing_latency_us, micros_between(start_ns, t1)),
        ..m
    };
    if since(due_from, t1) > PROC_DEADLINE_NS {
        ControlView {
            processor_deadline_misses: (m.processor_deadline_misses + 1) as u64,
            ..measured
        }
    } else {
        measured
    }
}

/// The processing unit, with a moving average per sensor.
pub struct Processor {
    threshold: u64,
    force: SmaFilter,
    position: SmaFilter,
    temperature: SmaFilter,
}

impl View for Processor {
    type V = ProcessorState;

    closed spec fn view(&self) -> ProcessorState {
        ProcessorState {
            threshold: self.threshold,
            force: self.force@,
            position: self.position@,
            temperature: self.temperature@,
        }
    }
}

impl Processor {
    pub closed spec fn wf(&self) -> bool {
        &&& ANOMALY_SIGMA <= self.threshold <= MAX_SIGMA
        &&& self.force.wf()
        &&& self.position.wf()
        &&& self.temperature.wf()
    }

    /// The threshold keeps within its bounds, and every window within its
    /// length.
    pub proof fn lemma_bounds(&self)
        requires
            self.wf(),
        ensures
            ANOMALY_SIGMA <= self@.threshold <= MAX_SIGMA,
            forall|sensor_type: SensorType| #[trigger]
                self@.window(sensor_type).len() <= SMA_WINDOW,
    {
    }

    pub fn new() -> (processor: Self)
        ensures
            processor.wf(),
            processor@ == (ProcessorState {
                threshold: ANOMALY_SIGMA,
                force: Seq::empty(),
                position: Seq::empty(),
                temperature: Seq::empty(),
            }),
    {
        Processor {
            threshold: ANOMALY_SIGMA,
            force: SmaFilter::new(),
            position: SmaFilter::new(),
            temperature: SmaFilter::new(),
        }
    }

    /// Takes in a report of the controller.
    pub fn take_feedback(&mut self, feedback: FeedbackMessage)
        requires
            old(self).wf(),
        ensures
            final(self).wf(),
            final(self)@ == (ProcessorState {
                threshold: adapted(old(self)@.threshold, feedback.deadline_miss),
                ..old(self)@
            }),
    {
        if feedback.deadline_miss {
            self.threshold = if self.threshold + 50 <= MAX_SIGMA {
                self.threshold + 50
            } else {
                MAX_SIGMA
            };
        } else {
            self.threshold = if self.threshold >= ANOMALY_SIGMA + 5 {
                self.threshold - 5
            } else {
                ANOMALY_SIGMA
            };
        }
    }

    /// Processes a reading: filter, anomaly, record. `now_ns` is the time of
    /// the record.
    pub fn process(
        &mut self,
        data: SensorData,
        sync_manager: &mut SyncManager,
        now_ns: u64,
    ) -> (processed: SensorData)
        requires
            old(self).wf(),
            in_limits(data.raw_value),
            old(sync_manager).wf(),
            old(sync_manager)@.mode == SyncMode::Mutex ==> old(sync_manager)@.write_count
                < u64::MAX,
        ensures
            final(self).wf(),
            final(self)@ == old(self)@.filtered(data.sensor_type, data.raw_value),
            ({
                let w = final(self)@.window(data.sensor_type);
                &&& processed.filtered_value == mean_of(w)
                &&& processed.is_anomaly == stands_out(w, data.raw_value, old(self)@.threshold)
            }),
            processed == (SensorData {
                filtered_value: processed.filtered_value,
                is_anomaly: processed.is_anomaly,
                ..data
            }),
            final(sync_manager).wf(),
            final(sync_manager)@ == old(sync_manager)@.recorded(
                (SyncRecord {
                    sensor_type: data.sensor_type,
                    value: processed.filtered_value,
                    sequence: data.sequence,
                    timestamp: now_ns,
                }),
            ),
    {
        let mut processed = data;
        match data.sensor_type {
            SensorType::Force => {
                processed.filtered_value = self.force.update(data.raw_value);
                processed.is_anomaly = self.force.is_anomaly(data.raw_value, self.threshold);
            },
            SensorType::Position => {
                processed.filtered_value = self.position.update(data.raw_value);
                processed.is_anomaly = self.position.is_anomaly(data.raw_value, self.threshold);
            },
            SensorType::Temperature => {
                processed.filtered_value = self.temperature.update(data.raw_value);
                processed.is_anomaly = self.temperature.is_anomaly(data.raw_value, self.threshold);
            },
        }
        sync_manager.record_sample(
            data.sensor_type,
            processed.filtered_value,
            data.sequence,
            now_ns,
        );
        processed
    }

    /// Filters a reading, and does no more with it.
    pub fn filter(&mut self, data: SensorData) -> (filtered: SensorData)
        requires
            old(self).wf(),
            in_limits(data.raw_value),
        ensures
            final(self).wf(),
            final(self)@ == old(self)@.filtered(data.sensor_type, data.raw_value),
            filtered.filtered_value == mean_of(final(self)@.window(data.sensor_type)),
            filtered == (SensorData { filtered_value: filtered.filtered_value, ..data }),
    {
        let mut filtered = data;
        filtered.filtered_value = match data.sensor_type {
            SensorType::Force => self.force.update(data.raw_value),
            SensorType::Position => self.position.update(data.raw_value),
            SensorType::Temperature => self.temperature.update(data.raw_value),
        };
        filtered
    }

    /// Stamps T1 on a reading whose processing began at `start_ns`, and takes
    /// the measurements, unless they are out of reach. The deadline counts from
    /// T0 of the reading.
    pub fn finish(
        &self,
        data: SensorData,
        start_ns: u64,
        t1: u64,
        metrics: Option<&mut ControlMetrics>,
    ) -> (finished: SensorData)
        requires
            metrics matches Some(m) ==> m.processor_deadline_misses < u64::MAX,
        ensures
            finished == (SensorData { t1: Some(t1), ..data }),
            metrics matches Some(m) ==> final(m)@ == processing_measured(
                m@,
                data.t0,
                start_ns,
                t1,
            ),
    {
        let mut finished = data;
        finished.t1 = Some(t1);
        if let Some(m) = metrics {
            measure(data.t0, start_ns, t1, m);
        }
        finished
    }

    /// Takes the measurements of a reading that a task processed from
    /// `start_ns` to `end_ns`. The deadline of a task counts from its own start.
    pub fn finish_task(&self, start_ns: u64, end_ns: u64, metrics: &mut ControlMetrics)
        requires
            old(metrics).processor_deadline_misses < u64::MAX,
        ensures
            final(metrics)@ == processing_measured(old(metrics)@, start_ns, start_ns, end_ns),
    {
        measure(start_ns, start_ns, end_ns, metrics);
    }
}

/// Takes the measurements of a reading.
fn measure(due_from: u64, start_ns: u64, t1: u64, metrics: &mut ControlMetrics)
    requires
        old(metrics).processor_deadline_misses < u64::MAX,
    ensures
        final(metrics)@ == processing_measured(old(metrics)@, due_from, start_ns, t1),
{
    metrics.processing_latency_us.push(elapsed_us(start_ns, t1));
    if due_from <= t1 && t1 - due_from > PROC_DEADLINE_NS {
        metrics.processor_deadline_misses = metrics.processor_deadline_misses + 1;
    }
}

/// The average, rounded down, lies within one below the readings' sum over their
/// number, and it is taken over the latest eight readings, or all while there
/// are fewer.
pub proof fn lemma_moving_average(readings: Seq<i64>)
    requires
        readings.len() > 0,
    ensures
        ({
            let window = push_all_capped(Seq::<i64>::empty(), SMA_WINDOW as int, readings);
            let n = window.len() as int;
            let mean = mean_of(window);
            &&& window == (if readings.len() <= 8 {
                readings
            } else {
                readings.skip(readings.len() - 8)
            })
            &&& n * mean <= sum(values(window)) < n * (mean + 1)
        }),
{
    lemma_capped_keeps_latest(SMA_WINDOW as int, readings);
    let window = push_all_capped(Seq::<i64>::empty(), SMA_WINDOW as int, readings);
    let n = window.len() as int;
    let s = sum(values(window));
    vstd::arithmetic::div_mod::lemma_fundamental_div_mod(s, n);
    vstd::arithmetic::div_mod::lemma_mod_bound(s, n);
    let q = s / n;
    assert(n * (q + 1) == n * q + n) by (nonlinear_arith);
}

/// The readings as integers are the same numbers.
pub proof fn lemma_values(w: Seq<i64>, x: i64)
    ensures
        values(Seq::empty()) == Seq::<int>::empty(),
        values(w.push(x)) == values(w).push(x as int),
{
    assert(values(Seq::empty()) =~= Seq::<int>::empty());
    assert(values(w.push(x)) =~= values(w).push(x as int));
}

/// A reading stands out where its distance from the average exceeds the
/// threshold, in hundredths, times any bound from above on the standard
/// deviation that is at least a hundredth of a unit; and it does not where the
/// distance is at most that many times a bound from below, or times a hundredth
/// of a unit. Distances and bounds are multiplied by the number of readings.
pub proof fn lemma_what_stands_out(w: Seq<i64>, raw: i64, threshold: u64, bound: int)
    requires
        w.len() > 0,
        bound >= 0,
    ensures
        ({
            let n = w.len() as int;
            let t = sum(values(w));
            let distance = if n * raw >= t {
                n * raw - t
            } else {
                t - n * raw
            };
            let spread = scaled_deviation(values(w), n, t);
            &&& bound * bound * n >= spread && bound >= 10_000 * n && 100 * distance > threshold
                * bound ==> stands_out(w, raw, threshold)
            &&& bound * bound * n <= spread && 100 * distance <= threshold * bound ==> !stands_out(
                w,
                raw,
                threshold,
            )
            &&& 100 * distance <= threshold * (10_000 * n) ==> !stands_out(w, raw, threshold)
        }),
{
    let n = w.len() as int;
    let t = sum(values(w));
    let d = 100 * scaled_distance(w, raw);
    let k = threshold as int;
    let v = scaled_variance(w);
    assert(values(w).len() == w.len());
    lemma_variance(values(w));
    let spread = scaled_deviation(values(w), n, t);
    assert(v * n == spread);
    assert(k * 10_000 * n == k * (10_000 * n)) by (nonlinear_arith);
    if bound * bound * n >= spread && bound >= 10_000 * n && d > k * bound {
        assert(bound * bound >= v) by (nonlinear_arith)
            requires
                bound * bound * n >= v * n,
                n > 0,
        ;
        assert(k * (10_000 * n) <= k * bound) by (nonlinear_arith)
            requires
                bound >= 10_000 * n,
                k >= 0,
        ;
        assert((k * bound) * (k * bound) == (k * k) * (bound * bound)) by (nonlinear_arith);
        assert((k * k) * v <= (k * k) * (bound * bound)) by (nonlinear_arith)
            requires
                v <= bound * bound,
        ;
        assert(d * d > (k * bound) * (k * bound)) by (nonlinear_arith)
            requires
                d > k * bound,
                k * bound >= 0,
        ;
    }
    if bound * bound * n <= spread && d <= k * bound {
        assert(bound * bound <= v) by (nonlinear_arith)
            requires
                bound * bound * n <= v * n,
                n > 0,
        ;
        assert((k * bound) * (k * bound) == (k * k) * (bound * bound)) by (nonlinear_arith);
        assert((k * k) * (bound * bound) <= (k * k) * v) by (nonlinear_arith)
            requires
                bound * bound <= v,
        ;
        assert(d * d <= (k * bound) * (k * bound)) by (nonlinear_arith)
            requires
                0 <= d <= k * bound,
        ;
    }
}

/// A missed deadline raises the threshold by half a deviation, to six at most; a
/// cycle in time lowers it by a twentieth, to three at least.
pub proof fn lemma_threshold_steps(threshold: u64, deadline_miss: bool)
    requires
        300 <= threshold <= 600,
    ensures
        deadline_miss && threshold <= 550 ==> adapted(threshold, deadline_miss) == threshold + 50,
        deadline_miss && threshold > 550 ==> adapted(threshold, deadline_miss) == 600,
        !deadline_miss && threshold >= 305 ==> adapted(threshold, deadline_miss) == threshold - 5,
        !deadline_miss && threshold < 305 ==> adapted(threshold, deadline_miss) == 300,
        ANOMALY_SIGMA == 300 && MAX_SIGMA == 600,
{
}

/// A reading enters the window of its own sensor and no other, as the latest of
/// eight.
pub proof fn lemma_windows_are_apart(s: ProcessorState, sensor_type: SensorType, v: i64)
    ensures
        s.filtered(sensor_type, v).threshold == s.threshold,
        s.filtered(sensor_type, v).window(sensor_type) == (if s.window(sensor_type).len() >= 8 {
            s.window(sensor_type).skip(1).push(v)
        } else {
            s.window(sensor_type).push(v)
        }),
        forall|other: SensorType|
            other != sensor_type ==> #[trigger] s.filtered(sensor_type, v).window(other)
                == s.window(other),
        s.window(SensorType::Force) == s.force,
        s.window(SensorType::Position) == s.position,
        s.window(SensorType::Temperature) == s.temperature,
{
}

/// The deadline of 200 µs is missed exactly where more than that lies between
/// the time it counts from and T1; the latency is the processing time in whole
/// microseconds.
pub proof fn lemma_processing_deadline(m: ControlView, due_from: u64, start_ns: u64, t1: u64)
    requires
        due_from <= t1,
        start_ns <= t1,
        m.processor_deadline_misses < u64::MAX,
    ensures
        ({
            let after = processing_measured(m, due_from, start_ns, t1);
            &&& after.processor_deadline_misses == m.processor_deadline_misses + (if t1 - due_from
                > 200_000 {
                1int
            } else {
                0int
            })
            &&& after.processing_latency_us.len() > 0
            &&& after.processing_latency_us.last() == (t1 - start_ns) / 1000
            &&& after.actuator_deadline_misses == m.actuator_deadline_misses
        }),
{
}

} // verus!
