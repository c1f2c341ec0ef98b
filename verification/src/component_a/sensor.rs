//! The sensing side: a reading every 5 ms, and how far off the period it came.
//!
//! The noise of a reading is Gaussian, made from the sum of twelve uniform
//! draws: by the central limit theorem the sum is all but normal, and its
//! variance is twelve times that of one draw. It ends at six standard
//! deviations.

use vstd::prelude::*;

use crate::control::{
    in_limits, sampled, ControlMetrics, ControlView, SensorData, SensorType, UNIT, VALUE_LIMIT,
};
use crate::random::{draw_range, draw_seed, seed_of_draw, seeded_range};
use crate::types::{elapsed_us, micros_between};

verus! {

/// Period of the readings, in µs.
pub const SAMPLE_PERIOD_US: u64 = 5_000;

/// Distance, in µs, between the time since the last reading and the period.
pub open spec fn jitter_of(prev_ns: u64, now_ns: u64) -> u64 {
    let elapsed = micros_between(prev_ns, now_ns);
    if elapsed >= SAMPLE_PERIOD_US {
        (elapsed - SAMPLE_PERIOD_US) as u64
    } else {
        (SAMPLE_PERIOD_US - elapsed) as u64
    }
}

/// Jitter is how far, in microseconds and either way, the time since the last
/// reading lies from five milliseconds.
pub proof fn lemma_jitter(prev_ns: u64, now_ns: u64)
    requires
        prev_ns <= now_ns,
    ensures
        ({
            let us = (now_ns - prev_ns) / 1000;
            &&& us >= 5_000 ==> jitter_of(prev_ns, now_ns) == us - 5_000
            &&& us < 5_000 ==> jitter_of(prev_ns, now_ns) == 5_000 - us
        }),
{
}

/// Draws that make up the noise of a reading.
pub const NOISE_DRAWS: u64 = 12;

/// Distance, in standard deviations, that noise never exceeds.
pub const NOISE_REACH: i64 = 6;

/// A base value and a noise, given by its standard deviation, that fit the
/// limits together.
pub open spec fn is_noisy_base(base: i64, noise_std: i64) -> bool {
    &&& in_limits(base)
    &&& 0 <= noise_std
    &&& -VALUE_LIMIT <= base - NOISE_REACH * noise_std
    &&& base + NOISE_REACH * noise_std <= VALUE_LIMIT
}

/// The sum of draws.
pub open spec fn sum_of(draws: Seq<u64>) -> int
    decreases draws.len(),
{
    if draws.len() == 0 {
        0
    } else {
        sum_of(draws.drop_last()) + draws.last()
    }
}

/// Every draw is a point of the unit interval, in millionths.
pub open spec fn are_points(draws: Seq<u64>) -> bool {
    forall|i: int| 0 <= i < draws.len() ==> (#[trigger] draws[i]) < UNIT
}

/// How far the sum of twelve points lies from its mean, in millionths of the
/// standard deviation that such sums have.
pub open spec fn deviate_of(draws: Seq<u64>) -> int {
    sum_of(draws) - 6 * (UNIT - 1)
}

proof fn lemma_sum_of_points(draws: Seq<u64>)
    requires
        are_points(draws),
    ensures
        0 <= sum_of(draws) <= draws.len() * (UNIT - 1),
    decreases draws.len(),
{
    if draws.len() > 0 {
        let head = draws.drop_last();
        assert forall|i: int| 0 <= i < head.len() implies (#[trigger] head[i]) < UNIT by {
            assert(head[i] == draws[i]);
        }
        lemma_sum_of_points(head);
        assert(draws[draws.len() - 1] < UNIT);
    }
}

/// The points as far from the other end of the unit interval.
pub open spec fn mirrored(draws: Seq<u64>) -> Seq<u64> {
    Seq::new(draws.len(), |i: int| (UNIT - 1 - draws[i]) as u64)
}

proof fn lemma_mirrored_sum(draws: Seq<u64>)
    requires
        are_points(draws),
    ensures
        sum_of(mirrored(draws)) == draws.len() * (UNIT - 1) - sum_of(draws),
    decreases draws.len(),
{
    if draws.len() > 0 {
        let head = draws.drop_last();
        assert forall|i: int| 0 <= i < head.len() implies (#[trigger] head[i]) < UNIT by {
            assert(head[i] == draws[i]);
        }
        lemma_mirrored_sum(head);
        assert(mirrored(draws).drop_last() =~= mirrored(head));
        assert(draws[draws.len() - 1] < UNIT);
    }
}

/// Noise is as likely up as down: twelve points and their mirror images, which
/// are drawn equally often, deviate by the same amount in opposite directions.
pub proof fn lemma_noise_is_balanced(draws: Seq<u64>)
    requires
        draws.len() == NOISE_DRAWS,
        are_points(draws),
    ensures
        are_points(mirrored(draws)),
        deviate_of(mirrored(draws)) == -deviate_of(draws),
        -NOISE_REACH * UNIT <= deviate_of(draws) <= NOISE_REACH * UNIT,
{
    lemma_mirrored_sum(draws);
    lemma_sum_of_points(draws);
    assert forall|i: int| 0 <= i < draws.len() implies (#[trigger] mirrored(draws)[i]) < UNIT by {
        assert(draws[i] < UNIT);
    }
}

/// The deviate is the sum of the draws less its mean: it moves, one for one, with
/// every draw.
pub proof fn lemma_deviate_follows_draws(draws: Seq<u64>, i: int, v: u64)
    requires
        0 <= i < draws.len(),
    ensures
        deviate_of(draws.update(i, v)) == deviate_of(draws) + v - draws[i],
        deviate_of(draws) == sum_of(draws) - 5_999_994,
        sum_of(draws.push(v)) == sum_of(draws) + v,
        sum_of(Seq::empty()) == 0,
    decreases draws.len(),
{
    let after = draws.update(i, v);
    assert(draws.push(v).drop_last() =~= draws);
    if i == draws.len() - 1 {
        assert(after.drop_last() =~= draws.drop_last());
    } else {
        lemma_deviate_follows_draws(draws.drop_last(), i, v);
        assert(after.drop_last() =~= draws.drop_last().update(i, v));
    }
}

/// The squares of `2 * d - c`, added up over the points `d` below `n`.
pub open spec fn spread(n: nat, c: int) -> int
    decreases n,
{
    if n == 0 {
        0
    } else {
        let d = n - 1;
        spread((n - 1) as nat, c) + (2 * d - c) * (2 * d - c)
    }
}

proof fn lemma_spread(n: nat, c: int)
    ensures
        3 * spread(n, c) == n * (3 * c * c - 6 * c * (n - 1) + 2 * (n - 1) * (2 * n - 1)),
    decreases n,
{
    if n > 0 {
        let m = n - 1;
        lemma_spread(m as nat, c);
        assert(m * (3 * c * c - 6 * c * (m - 1) + 2 * (m - 1) * (2 * m - 1)) + 3 * ((2 * m - c) * (
        2 * m - c)) == (m + 1) * (3 * c * c - 6 * c * m + 2 * m * (2 * m + 1)))
            by (nonlinear_arith);
        assert(2 * n - 1 == 2 * m + 1);
    } else {
        assert(0 * (3 * c * c - 6 * c * (0 - 1) + 2 * (0 - 1) * (2 * 0 - 1)) == 0)
            by (nonlinear_arith);
    }
}

/// The variance of a uniform draw among `n` points is `(n * n - 1) / 12`: the
/// squared distances from the mean, over all points, add up to `n` times that.
/// So twelve draws together have the variance `n * n - 1`, and a standard
/// deviation that falls short of `n` by less than one part in `n * n`.
pub proof fn lemma_variance_of_draw(n: nat)
    requires
        n > 0,
    ensures
        3 * spread(n, n - 1) == n * (n * n - 1),
{
    lemma_spread(n, n - 1);
    let k = n as int;
    assert(k * (3 * (k - 1) * (k - 1) - 6 * (k - 1) * (k - 1) + 2 * (k - 1) * (2 * k - 1)) == k * (k
        * k - 1)) by (nonlinear_arith);
}

/// How far the sum of twelve points lies from its mean.
pub fn deviate(draws: &Vec<u64>) -> (z: i64)
    requires
        draws.len() == NOISE_DRAWS,
        are_points(draws@),
    ensures
        z == deviate_of(draws@),
        -NOISE_REACH * UNIT <= z <= NOISE_REACH * UNIT,
{
    let mut sum: u64 = 0;
    for i in 0..draws.len()
        invariant
            draws.len() == NOISE_DRAWS,
            are_points(draws@),
            sum == sum_of(draws@.take(i as int)),
            sum <= i * UNIT,
    {
        assert(draws@.take(i as int + 1).drop_last() =~= draws@.take(i as int));
        assert(draws@[i as int] < UNIT);
        sum = sum + draws[i];
    }
    proof {
        assert(draws@.take(draws@.len() as int) =~= draws@);
        lemma_noise_is_balanced(draws@);
    }
    sum as i64 - 5_999_994
}

/// The reading at a distance from its base, given in millionths of the standard
/// deviation of the noise.
pub open spec fn noisy_value(base: i64, noise_std: i64, deviate: int) -> int {
    base + noise_std * deviate / (UNIT as int)
}

/// A reading lies no further than six standard deviations from its base; it
/// lies one off where the noise does, and noise without spread changes nothing.
pub proof fn lemma_noise_is_bounded(base: i64, noise_std: i64, deviate: int)
    requires
        0 <= noise_std,
        -NOISE_REACH * UNIT <= deviate <= NOISE_REACH * UNIT,
    ensures
        base - NOISE_REACH * noise_std <= noisy_value(base, noise_std, deviate) <= base
            + NOISE_REACH * noise_std,
        deviate == UNIT ==> noisy_value(base, noise_std, deviate) == base + noise_std,
        deviate == 0 ==> noisy_value(base, noise_std, deviate) == base,
        noise_std == 0 ==> noisy_value(base, noise_std, deviate) == base,
{
    let n = noise_std as int;
    let x = n * deviate;
    assert(-6_000_000 * n <= x <= 6_000_000 * n) by (nonlinear_arith)
        requires
            0 <= n,
            -6_000_000 <= deviate <= 6_000_000,
            x == n * deviate,
    ;
    assert(deviate == 1_000_000 ==> x == n * 1_000_000) by (nonlinear_arith)
        requires
            x == n * deviate,
    ;
    assert(deviate == 0 || n == 0 ==> x == 0) by (nonlinear_arith)
        requires
            x == n * deviate,
    ;
}

/// A reading lies off its base by the deviate times the standard deviation, rounded
/// down.
pub proof fn lemma_noise_scales(base: i64, noise_std: i64, deviate: int)
    ensures
        ({
            let off = noisy_value(base, noise_std, deviate) - base;
            1_000_000 * off <= noise_std * deviate < 1_000_000 * (off + 1)
        }),
{
    let x = noise_std * deviate;
    assert(1_000_000 * (x / 1_000_000) <= x < 1_000_000 * (x / 1_000_000 + 1));
}

/// The points that are drawn for the reading of this number of a sensor of this
/// seed.
pub open spec fn seeded_draws(seed: u64, sequence: u64) -> Seq<u64> {
    Seq::new(
        NOISE_DRAWS as nat,
        |k: int| seeded_range(draw_seed(seed, sequence, NOISE_DRAWS, k as u64), 0, UNIT as u64),
    )
}

/// Draws the points for the reading of this number of a sensor of this seed.
pub fn draw_noise(seed: u64, sequence: u64) -> (draws: Vec<u64>)
    ensures
        draws@ == seeded_draws(seed, sequence),
        are_points(draws@),
{
    let mut draws: Vec<u64> = Vec::new();
    for k in 0..NOISE_DRAWS
        invariant
            draws@ == seeded_draws(seed, sequence).take(k as int),
            are_points(draws@),
    {
        let ghost before = draws@;
        draws.push(draw_range(seed_of_draw(seed, sequence, NOISE_DRAWS, k), 0, 1_000_000));
        proof {
            assert forall|i: int| 0 <= i < draws@.len() implies (#[trigger] draws@[i]) < UNIT by {
                if i < before.len() {
                    assert(draws@[i] == before[i]);
                }
            }
            assert(draws@ =~= seeded_draws(seed, sequence).take(k as int + 1));
        }
    }
    assert(seeded_draws(seed, sequence).take(NOISE_DRAWS as int) =~= seeded_draws(seed, sequence));
    draws
}

/// State of a sensor.
#[verifier::ext_equal]
pub struct SensorState {
    pub sensor_type: SensorType,
    pub base_value: i64,
    /// Standard deviation of the noise.
    pub noise_std: i64,
    pub sequence: u64,
    pub prev_ns: u64,
}

/// A sensor that is read once a period.
pub struct SensorThread {
    sensor_type: SensorType,
    base_value: i64,
    noise_std: i64,
    sequence: u64,
    prev_ns: u64,
}

impl View for SensorThread {
    type V = SensorState;

    closed spec fn view(&self) -> SensorState {
        SensorState {
            sensor_type: self.sensor_type,
            base_value: self.base_value,
            noise_std: self.noise_std,
            sequence: self.sequence,
            prev_ns: self.prev_ns,
        }
    }
}

impl SensorThread {
    pub closed spec fn wf(&self) -> bool {
        is_noisy_base(self.base_value, self.noise_std)
    }

    /// A sensor that starts at `now_ns`.
    pub fn new(sensor_type: SensorType, base_value: i64, noise_std: i64, now_ns: u64) -> (sensor:
        Self)
        requires
            is_noisy_base(base_value, noise_std),
        ensures
            sensor.wf(),
            sensor@ == (SensorState {
                sensor_type,
                base_value,
                noise_std,
                sequence: 0,
                prev_ns: now_ns,
            }),
    {
        SensorThread { sensor_type, base_value, noise_std, sequence: 0, prev_ns: now_ns }
    }

    /// Number of the next reading.
    pub fn sequence(&self) -> (sequence: u64)
        ensures
            sequence == self@.sequence,
    {
        self.sequence
    }

    /// The sensor wakes at `now_ns`: the jitter counts, unless the measurements
    /// are out of reach.
    pub fn wake(&mut self, now_ns: u64, metrics: Option<&mut ControlMetrics>)
        requires
            old(self).wf(),
            metrics matches Some(m) ==> m.total_loop_iterations < u64::MAX,
        ensures
            final(self).wf(),
            final(self)@ == (SensorState { prev_ns: now_ns, ..old(self)@ }),
            metrics matches Some(m) ==> final(m)@ == (ControlView {
                sensor_jitter_us: sampled(m@.sensor_jitter_us, jitter_of(old(self)@.prev_ns, now_ns)),
                total_loop_iterations: (m@.total_loop_iterations + 1) as u64,
                ..m@
            }),
    {
        let elapsed: u64 = elapsed_us(self.prev_ns, now_ns);
        let jitter: u64 = if elapsed >= SAMPLE_PERIOD_US {
            elapsed - SAMPLE_PERIOD_US
        } else {
            SAMPLE_PERIOD_US - elapsed
        };
        if let Some(m) = metrics {
            m.sensor_jitter_us.push(jitter);
            m.total_loop_iterations = m.total_loop_iterations + 1;
        }
        self.prev_ns = now_ns;
    }

    /// A reading whose noise lies `deviate` millionths of a standard deviation
    /// off.
    pub fn read_at(
        &mut self,
        deviate: i64,
        now_ns: u64,
        metrics: Option<&mut ControlMetrics>,
    ) -> (data: SensorData)
        requires
            old(self).wf(),
            -NOISE_REACH * UNIT <= deviate <= NOISE_REACH * UNIT,
            old(self)@.sequence < u64::MAX,
        ensures
            final(self).wf(),
            in_limits(data.raw_value),
            data.raw_value == noisy_value(
                old(self)@.base_value,
                old(self)@.noise_std,
                deviate as int,
            ),
            data == SensorData::fresh(
                old(self)@.sensor_type,
                data.raw_value,
                old(self)@.sequence,
                now_ns,
            ),
            final(self)@ == (SensorState {
                sequence: (old(self)@.sequence + 1) as u64,
                ..old(self)@
            }),
            metrics matches Some(m) ==> final(m)@ == m@.with_reading(
                old(self)@.sensor_type,
                data.raw_value,
            ),
    {
        proof {
            lemma_noise_is_bounded(self.base_value, self.noise_std, deviate as int);
            let n = self.noise_std as int;
            let z = deviate as int;
            assert(0 <= n * (z + 6_000_000) <= 12_000_000_000_000_000_000_000) by (nonlinear_arith)
                requires
                    0 <= n <= 1_000_000_000_000_000,
                    0 <= z + 6_000_000 <= 12_000_000,
            ;
            assert(n * (z + 6_000_000) == n * z + 6 * n * 1_000_000) by (nonlinear_arith);
            vstd::arithmetic::div_mod::lemma_hoist_over_denominator(
                n * z,
                6 * n,
                1_000_000,
            );
        }
        let raised: i128 = self.noise_std as i128 * (deviate as i128 + 6_000_000) / 1_000_000;
        let raw_value: i64 = (self.base_value as i128 + raised - 6 * self.noise_std as i128) as i64;
        let data = SensorData::new(self.sensor_type, raw_value, self.sequence, now_ns);
        self.sequence = self.sequence + 1;
        if let Some(m) = metrics {
            m.push_reading(self.sensor_type, raw_value);
        }
        data
    }

    /// The next reading of a sensor of this seed, with its noise.
    pub fn read(
        &mut self,
        seed: u64,
        now_ns: u64,
        metrics: Option<&mut ControlMetrics>,
    ) -> (data: SensorData)
        requires
            old(self).wf(),
            old(self)@.sequence < u64::MAX,
        ensures
            final(self).wf(),
            in_limits(data.raw_value),
            are_points(seeded_draws(seed, old(self)@.sequence)),
            data.raw_value == noisy_value(
                old(self)@.base_value,
                old(self)@.noise_std,
                deviate_of(seeded_draws(seed, old(self)@.sequence)),
            ),
            data == SensorData::fresh(
                old(self)@.sensor_type,
                data.raw_value,
                old(self)@.sequence,
                now_ns,
            ),
            final(self)@ == (SensorState {
                sequence: (old(self)@.sequence + 1) as u64,
                ..old(self)@
            }),
            metrics matches Some(m) ==> final(m)@ == m@.with_reading(
                old(self)@.sensor_type,
                data.raw_value,
            ),
    {
        let draws = draw_noise(seed, self.sequence);
        let z: i64 = deviate(&draws);
        self.read_at(z, now_ns, metrics)
    }
}

} // verus!
