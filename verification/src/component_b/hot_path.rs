//! The hot path of a packet, from its dispatch (T2) to the end of its
//! processing (T3).
//!
//! 1. T2 is stamped and the scheduling drift recorded, also for a packet that
//!    is then skipped.
//! 2. A bot packet that the fail-safe mode does not admit is skipped.
//! 3. Under stress every n-th packet is to be delayed.
//! 4. The leaderboard counts the edit.
//! 5. T3 is stamped, the latency recorded and held against the deadline.
//! 6. The fail-safe controller takes the latency into account.

use vstd::prelude::*;

use crate::component_c::priority_scheduler::{drift_recorded, record_drift, stamped_t2};
use crate::component_d::leaderboard::{
    is_known, lemma_increment_raises_one_count, write_recorded, writes_of, writes_of_strategy,
    Leaderboard, LeaderboardView, SyncStrategy,
};
use crate::component_e::fail_safe::{
    lemma_bot_admission, lemma_next_mode, mode_recorded, FailSafe, FailSafeState,
};
use crate::metrics::{
    push_capped, DeadlineMissEvent, DeadlineMissView, MetricsView, SharedMetrics, WINDOW,
};
use crate::types::{
    elapsed_us, in_window, micros_between, window_covers, ChangePacket, Priority, StressConfig,
    SystemMode, JITTER_THRESHOLD_US,
};

verus! {

/// Deadline of a packet on the hot path, in µs.
pub const HOT_DEADLINE: u64 = 2_000;

/// Delay that stress injects, in ns.
pub const INJECTED_LATENCY_NS: u64 = 3_000_000;

/// State of a hot-path processor.
#[verifier::ext_equal]
pub struct HotPathState {
    pub stress: StressConfig,
    /// Clock reading from which the stress window is measured.
    pub start_ns: u64,
    /// Packets that came past the stress step so far, modulo 2⁶⁴.
    pub stress_counter: u64,
}

impl HotPathState {
    /// Packets are delayed at this time.
    pub open spec fn is_stressed(self, now_ns: u64) -> bool {
        &&& self.stress.enabled
        &&& self.stress.inject_latency_every_nth > 0
        &&& self.stress.inject_window matches Some(window) ==> in_window(
            window,
            self.start_ns,
            now_ns,
        )
    }

    /// The next packet is delayed.
    pub open spec fn injects(self, now_ns: u64) -> bool {
        self.is_stressed(now_ns) && self.stress_counter % self.stress.inject_latency_every_nth == 0
    }

    /// The state after one more packet came past the stress step.
    pub open spec fn counted(self, now_ns: u64) -> Self {
        if self.is_stressed(now_ns) {
            HotPathState { stress_counter: self.stress_counter.wrapping_add(1), ..self }
        } else {
            self
        }
    }

    /// The state after packets came past the stress step at these times.
    pub open spec fn counted_all(self, times: Seq<u64>) -> Self
        decreases times.len(),
    {
        if times.len() == 0 {
            self
        } else {
            self.counted_all(times.drop_last()).counted(times.last())
        }
    }
}

/// The mode does not admit the packet.
pub open spec fn is_skipped(pkt: ChangePacket, fail_safe: FailSafeState) -> bool {
    pkt.priority == Priority::Low && !fail_safe.allows_bot()
}

/// The fail-safe state after the packet was judged.
pub open spec fn judged(pkt: ChangePacket, fail_safe: FailSafeState) -> FailSafeState {
    match pkt.priority {
        Priority::High => fail_safe,
        Priority::Low => fail_safe.after_bot(),
    }
}

/// The latency misses the deadline.
pub open spec fn is_miss(latency_us: u64) -> bool {
    latency_us > HOT_DEADLINE
}

/// The counters that a packet raises can go up.
pub open spec fn room_for_packet(m: MetricsView, strategy: SyncStrategy) -> bool {
    &&& m.deadline_misses < u64::MAX
    &&& m.fail_safe_activations < u64::MAX
    &&& writes_of(m, strategy) < u64::MAX
}

/// Only a full count leaves no room for a packet.
pub proof fn lemma_room_for_packet(m: MetricsView, board: LeaderboardView, domain: Seq<char>)
    ensures
        room_for_packet(m, SyncStrategy::Mutex) <==> m.deadline_misses < u64::MAX
            && m.fail_safe_activations < u64::MAX && m.mutex_write_ops < u64::MAX,
        room_for_packet(m, SyncStrategy::RwLock) <==> m.deadline_misses < u64::MAX
            && m.fail_safe_activations < u64::MAX && m.rwlock_write_ops < u64::MAX,
        room_for_packet(m, SyncStrategy::Atomic) <==> m.deadline_misses < u64::MAX
            && m.fail_safe_activations < u64::MAX && m.atomic_write_ops < u64::MAX,
        board.strategy == SyncStrategy::Atomic ==> board.has_room_for(domain),
        board.strategy != SyncStrategy::Atomic ==> (board.has_room_for(domain) <==> board.edits(
            domain,
        ) < u64::MAX),
{
}

/// Whether the counters that a packet raises can go up.
pub fn has_room_for_packet(metrics: &SharedMetrics, strategy: SyncStrategy) -> (yes: bool)
    ensures
        yes == room_for_packet(metrics@, strategy),
{
    metrics.deadline_misses < u64::MAX && metrics.fail_safe_activations < u64::MAX
        && writes_of_strategy(metrics, strategy) < u64::MAX
}

/// The store after a packet was processed with the given latency: the sample,
/// and a miss both counted and logged.
pub open spec fn latency_recorded(
    m: MetricsView,
    pkt: ChangePacket,
    latency_us: u64,
    t3: u64,
) -> MetricsView {
    let sampled = m.with_latency(pkt.priority, latency_us);
    if is_miss(latency_us) {
        MetricsView {
            deadline_misses: (sampled.deadline_misses + 1) as u64,
            ..sampled
        }.with_deadline_miss(
            DeadlineMissView {
                occurred_at: t3,
                latency_us,
                domain: pkt.server_name@,
                priority: pkt.priority,
            },
        )
    } else {
        sampled
    }
}

/// The store after the deadline and the fail-safe step of a packet that was
/// dispatched at `t2` and done at `t3`.
pub open spec fn conclusion_recorded(
    m: MetricsView,
    pkt: ChangePacket,
    t2: u64,
    t3: u64,
    fail_safe: FailSafeState,
) -> MetricsView {
    let us = micros_between(t2, t3);
    mode_recorded(
        latency_recorded(m, pkt, us, t3),
        fail_safe.mode,
        fail_safe.after_latency(us).mode,
    )
}

/// The store after a packet went along the whole hot path.
pub open spec fn processing_recorded(
    m: MetricsView,
    pkt: ChangePacket,
    t2: u64,
    t3: u64,
    strategy: SyncStrategy,
    fail_safe: FailSafeState,
) -> MetricsView {
    let drifted = drift_recorded(m, pkt, t2);
    if is_skipped(pkt, fail_safe) {
        drifted
    } else {
        conclusion_recorded(write_recorded(drifted, strategy), pkt, t2, t3, judged(pkt, fail_safe))
    }
}

/// The deadline was kept by a packet that was dispatched at `t2` and done at
/// `t3`; a skipped packet is no miss.
pub open spec fn keeps_deadline(
    pkt: ChangePacket,
    t2: u64,
    t3: u64,
    fail_safe: FailSafeState,
) -> bool {
    is_skipped(pkt, fail_safe) || !is_miss(micros_between(t2, t3))
}

/// The leaderboard after a packet went along the whole hot path.
pub open spec fn board_after(
    board: LeaderboardView,
    pkt: ChangePacket,
    fail_safe: FailSafeState,
) -> LeaderboardView {
    if is_skipped(pkt, fail_safe) {
        board
    } else {
        board.incremented(pkt.server_name@)
    }
}

/// The fail-safe state after a packet went along the whole hot path.
pub open spec fn fail_safe_after(
    pkt: ChangePacket,
    t2: u64,
    t3: u64,
    fail_safe: FailSafeState,
) -> FailSafeState {
    if is_skipped(pkt, fail_safe) {
        judged(pkt, fail_safe)
    } else {
        judged(pkt, fail_safe).after_latency(micros_between(t2, t3))
    }
}

/// A packet that was not skipped keeps its deadline exactly where no more than
/// 2000 whole microseconds lie between its dispatch and its end; then, and only
/// then, a Normal or Recovery engine stays out of Degraded mode.
pub proof fn lemma_deadline_is_two_ms(
    pkt: ChangePacket,
    t2: u64,
    t3: u64,
    fail_safe: FailSafeState,
)
    requires
        t2 <= t3,
        fail_safe.wf(),
        !is_skipped(pkt, fail_safe),
    ensures
        keeps_deadline(pkt, t2, t3, fail_safe) <==> (t3 - t2) / 1000 <= 2_000,
        fail_safe.mode != SystemMode::Degraded ==> (fail_safe_after(
            pkt,
            t2,
            t3,
            fail_safe,
        ).mode == SystemMode::Degraded <==> (t3 - t2) / 1000 > 2_000),
{
    lemma_bot_admission(fail_safe);
    lemma_next_mode(judged(pkt, fail_safe), micros_between(t2, t3));
}

/// A packet is skipped exactly where it is a bot edit and the engine is Degraded,
/// or in Recovery at every second bot packet.
pub proof fn lemma_skipped_packets(pkt: ChangePacket, fail_safe: FailSafeState)
    ensures
        is_skipped(pkt, fail_safe) <==> pkt.priority == Priority::Low && (fail_safe.mode
            == SystemMode::Degraded || fail_safe.mode == SystemMode::Recovery
            && fail_safe.recovery_tick % 2 == 1),
        pkt.priority == Priority::High ==> judged(pkt, fail_safe) == fail_safe,
{
}

/// What the whole hot path leaves behind. The drift is recorded for every
/// packet. A skipped one changes nothing else: not the leaderboard, nor the
/// samples, nor the misses. One that is processed counts once for its own
/// domain and adds its latency to its own class.
pub proof fn lemma_trace_of_a_packet(
    m: MetricsView,
    board: LeaderboardView,
    pkt: ChangePacket,
    t2: u64,
    t3: u64,
    fail_safe: FailSafeState,
)
    requires
        t2 <= t3,
        board.wf(),
        board.edits(pkt.server_name@) < u64::MAX,
        room_for_packet(m, board.strategy),
    ensures
        ({
            let skipped = pkt.priority == Priority::Low && (fail_safe.mode
                == SystemMode::Degraded || fail_safe.mode == SystemMode::Recovery
                && fail_safe.recovery_tick % 2 == 1);
            let us = (t3 - t2) / 1000;
            let after = processing_recorded(m, pkt, t2, t3, board.strategy, fail_safe);
            let counted = board_after(board, pkt, fail_safe);
            &&& after.overflow_log == m.overflow_log && after.watchdog_resets == m.watchdog_resets
                && after.domain_counts == m.domain_counts && after.uptime_ns == m.uptime_ns
            &&& skipped ==> after == drift_recorded(m, pkt, t2)
            &&& after.human_drift_us == drift_recorded(m, pkt, t2).human_drift_us
            &&& after.bot_drift_us == drift_recorded(m, pkt, t2).bot_drift_us
            &&& skipped ==> counted == board && after.human_latency_us == m.human_latency_us
                && after.bot_latency_us == m.bot_latency_us && after.deadline_misses
                == m.deadline_misses && after.deadline_miss_log == m.deadline_miss_log
                && writes_of(after, board.strategy) == writes_of(m, board.strategy)
            &&& !skipped ==> writes_of(after, board.strategy) == writes_of(m, board.strategy) + 1
                && after.deadline_misses == m.deadline_misses + (if us > 2_000 {
                1int
            } else {
                0int
            })
            &&& !skipped && pkt.priority == Priority::High ==> after.human_latency_us.last() == us
                && after.bot_latency_us == m.bot_latency_us
            &&& !skipped && pkt.priority == Priority::Low ==> after.bot_latency_us.last() == us
                && after.human_latency_us == m.human_latency_us
            &&& !skipped && (board.strategy != SyncStrategy::Atomic || is_known(pkt.server_name@))
                ==> counted.edits(pkt.server_name@) == board.edits(pkt.server_name@) + 1
            &&& forall|d: Seq<char>|
                d != pkt.server_name@ ==> #[trigger] counted.edits(d) == board.edits(d)
        }),
{
    lemma_increment_raises_one_count(board, pkt.server_name@);
}

/// A miss is counted and logged, and nothing else is: with whole microseconds
/// above 2000 the count goes up by one and the log ends with the packet, its
/// latency and its end; otherwise both stay. Either way the latency is the last
/// sample of the packet's class and the other class keeps its samples.
pub proof fn lemma_misses_are_counted_and_logged(
    m: MetricsView,
    pkt: ChangePacket,
    t2: u64,
    t3: u64,
    fail_safe: FailSafeState,
)
    requires
        t2 <= t3,
        m.deadline_misses < u64::MAX,
    ensures
        ({
            let us = (t3 - t2) / 1000;
            let after = conclusion_recorded(m, pkt, t2, t3, fail_safe);
            &&& after.deadline_misses == m.deadline_misses + (if us > 2_000 {
                1int
            } else {
                0int
            })
            &&& us <= 2_000 ==> after.deadline_miss_log == m.deadline_miss_log
            &&& us > 2_000 ==> after.deadline_miss_log.len() > 0 && after.deadline_miss_log.last()
                == (DeadlineMissView {
                occurred_at: t3,
                latency_us: us as u64,
                domain: pkt.server_name@,
                priority: pkt.priority,
            })
            &&& us > 2_000 && m.deadline_miss_log.len() < 10_000
                ==> after.deadline_miss_log.drop_last() == m.deadline_miss_log
            &&& pkt.priority == Priority::High ==> after.human_latency_us.len() > 0
                && after.human_latency_us.last() == us && after.bot_latency_us == m.bot_latency_us
            &&& pkt.priority == Priority::Low ==> after.bot_latency_us.len() > 0
                && after.bot_latency_us.last() == us && after.human_latency_us
                == m.human_latency_us
            &&& after.human_drift_us == m.human_drift_us && after.bot_drift_us == m.bot_drift_us
        }),
{
    let us = micros_between(t2, t3);
    let after = conclusion_recorded(m, pkt, t2, t3, fail_safe);
    if us > 2_000 && m.deadline_miss_log.len() < 10_000 {
        assert(after.deadline_miss_log.drop_last() =~= m.deadline_miss_log);
    }
}

/// What a packet at the end of the hot path changes in the store: its class's
/// latencies, the misses and their log, and, where the mode changes, the shown
/// mode and the count of activations. An entry into Degraded mode, which is a
/// latency above 2000 whole microseconds outside it, counts as one activation.
pub proof fn lemma_conclusion_touches_little(
    m: MetricsView,
    pkt: ChangePacket,
    t2: u64,
    t3: u64,
    fail_safe: FailSafeState,
)
    requires
        t2 <= t3,
        fail_safe.wf(),
        m.fail_safe_activations < u64::MAX,
    ensures
        ({
            let us = (t3 - t2) / 1000;
            let after = conclusion_recorded(m, pkt, t2, t3, fail_safe);
            &&& after == (MetricsView {
                human_latency_us: after.human_latency_us,
                bot_latency_us: after.bot_latency_us,
                deadline_misses: after.deadline_misses,
                deadline_miss_log: after.deadline_miss_log,
                current_mode: after.current_mode,
                fail_safe_activations: after.fail_safe_activations,
                ..m
            })
            &&& after.fail_safe_activations == m.fail_safe_activations + (if us > 2_000
                && fail_safe.mode != SystemMode::Degraded {
                1int
            } else {
                0int
            })
            &&& us > 2_000 && fail_safe.mode != SystemMode::Degraded ==> after.current_mode
                == "DEGRADED"@
            &&& us < 500 && fail_safe.mode == SystemMode::Degraded ==> after.current_mode
                == "RECOVERY"@
            &&& us < 500 && fail_safe.mode == SystemMode::Recovery && fail_safe.clean_cycles == 19
                ==> after.current_mode == "NORMAL"@
        }),
{
    lemma_next_mode(fail_safe, micros_between(t2, t3));
}

/// No mode skips a human edit; Normal mode skips nothing; Degraded mode skips
/// every bot edit.
pub proof fn lemma_who_is_skipped(pkt: ChangePacket, fail_safe: FailSafeState)
    ensures
        pkt.priority == Priority::High ==> !is_skipped(pkt, fail_safe),
        fail_safe.mode == SystemMode::Normal ==> !is_skipped(pkt, fail_safe),
        fail_safe.mode == SystemMode::Degraded && pkt.priority == Priority::Low ==> is_skipped(
            pkt,
            fail_safe,
        ),
{
}

/// A packet that misses its deadline leaves the engine in Degraded mode, and
/// one that keeps it does not bring the engine there.
pub proof fn lemma_miss_degrades(fail_safe: FailSafeState, latency_us: u64)
    ensures
        is_miss(latency_us) ==> fail_safe.after_latency(latency_us).mode == SystemMode::Degraded,
        !is_miss(latency_us) && fail_safe.mode != SystemMode::Degraded
            ==> fail_safe.after_latency(latency_us).mode != SystemMode::Degraded,
{
    assert(HOT_DEADLINE == JITTER_THRESHOLD_US);
}

/// Skipping a packet leaves no trace but its drift.
pub proof fn lemma_skip_leaves_drift_only(
    m: MetricsView,
    pkt: ChangePacket,
    t2: u64,
    t3: u64,
    strategy: SyncStrategy,
    fail_safe: FailSafeState,
)
    requires
        is_skipped(pkt, fail_safe),
    ensures
        processing_recorded(m, pkt, t2, t3, strategy, fail_safe) == drift_recorded(m, pkt, t2),
        judged(pkt, fail_safe).mode == fail_safe.mode,
{
}

/// Between two delayed packets lie as many as the setting says: while packets
/// are delayed, the next one after a delayed one is the n-th from it.
pub proof fn lemma_injection_period(s: HotPathState, k: u64, now_ns: u64, later_ns: u64)
    requires
        s.injects(now_ns),
        s.is_stressed(later_ns),
        0 < k <= s.stress.inject_latency_every_nth,
        s.stress_counter + k <= u64::MAX,
    ensures
        (HotPathState { stress_counter: (s.stress_counter + k) as u64, ..s }).injects(later_ns)
            <==> k == s.stress.inject_latency_every_nth,
{
    let c = s.stress_counter as int;
    let n = s.stress.inject_latency_every_nth as int;
    let j = k as int;
    if j == n {
        vstd::arithmetic::div_mod::lemma_mod_add_multiples_vanish(c, n);
        assert((c + n) % n == 0);
    } else {
        vstd::arithmetic::div_mod::lemma_add_mod_noop(c, j, n);
        vstd::arithmetic::div_mod::lemma_small_mod(j as nat, n as nat);
        assert((c + j) % n == j);
    }
}

/// Packets are delayed where stress is on, a period is set, and the time lies in
/// the window, if there is one, counted from the start; and each packet that
/// comes by then counts.
pub proof fn lemma_when_stressed(s: HotPathState, now_ns: u64)
    requires
        s.start_ns <= now_ns,
    ensures
        s.is_stressed(now_ns) <==> s.stress.enabled && s.stress.inject_latency_every_nth > 0 && (
        s.stress.inject_window matches Some(w) ==> s.start_ns + w.0 <= now_ns < s.start_ns + w.1),
        s.is_stressed(now_ns) && s.stress_counter < u64::MAX ==> s.counted(now_ns).stress_counter
            == s.stress_counter + 1,
        !s.is_stressed(now_ns) ==> s.counted(now_ns) == s && !s.injects(now_ns),
        INJECTED_LATENCY_NS == 3_000_000,
{
}

/// While packets are delayed, a processor that has just started delays the
/// first packet and from there on every n-th one, as the setting says, and no
/// other.
pub proof fn lemma_stress_schedule(s: HotPathState, times: Seq<u64>, now_ns: u64)
    requires
        s.stress_counter == 0,
        s.is_stressed(now_ns),
        forall|i: int| 0 <= i < times.len() ==> s.is_stressed(#[trigger] times[i]),
        times.len() <= u64::MAX,
    ensures
        s.counted_all(times) == (HotPathState { stress_counter: times.len() as u64, ..s }),
        s.counted_all(times).injects(now_ns) <==> times.len() % (
        s.stress.inject_latency_every_nth as nat) == 0,
    decreases times.len(),
{
    if times.len() > 0 {
        let before = times.drop_last();
        assert forall|i: int| 0 <= i < before.len() implies s.is_stressed(#[trigger] before[i]) by {
            assert(before[i] == times[i]);
        }
        lemma_stress_schedule(s, before, now_ns);
        assert(s.is_stressed(times[times.len() - 1]));
    }
}

/// A packet that is not skipped misses its deadline where it was delayed for
/// the injected time, whatever its own work took.
pub proof fn lemma_delayed_packet_misses(
    pkt: ChangePacket,
    t2: u64,
    t3: u64,
    fail_safe: FailSafeState,
)
    requires
        !is_skipped(pkt, fail_safe),
        t3 - t2 >= INJECTED_LATENCY_NS,
    ensures
        !keeps_deadline(pkt, t2, t3, fail_safe),
        fail_safe_after(pkt, t2, t3, fail_safe).mode == SystemMode::Degraded,
{
    assert(HOT_DEADLINE == JITTER_THRESHOLD_US);
    let ns = t3 - t2;
    assert(ns / 1000 >= 3_000) by (nonlinear_arith)
        requires
            ns >= 3_000_000,
    ;
}

/// While packets are delayed, and each delay lasts the injected time, every
/// n-th packet misses its deadline, unless it is skipped, and no other packet
/// is delayed: the packet after `times.len()` others misses where the setting
/// divides that number.
pub proof fn lemma_every_nth_packet_misses(
    s: HotPathState,
    times: Seq<u64>,
    pkt: ChangePacket,
    t2: u64,
    t3: u64,
    fail_safe: FailSafeState,
)
    requires
        s.stress_counter == 0,
        s.is_stressed(t2),
        forall|i: int| 0 <= i < times.len() ==> s.is_stressed(#[trigger] times[i]),
        times.len() <= u64::MAX,
        !is_skipped(pkt, fail_safe),
        s.counted_all(times).injects(t2) ==> t3 - t2 >= INJECTED_LATENCY_NS,
    ensures
        times.len() % (s.stress.inject_latency_every_nth as nat) == 0 ==> !keeps_deadline(
            pkt,
            t2,
            t3,
            fail_safe,
        ),
        times.len() % (s.stress.inject_latency_every_nth as nat) != 0 ==> !s.counted_all(
            times,
        ).injects(t2),
{
    lemma_stress_schedule(s, times, t2);
    if s.counted_all(times).injects(t2) {
        lemma_delayed_packet_misses(pkt, t2, t3, fail_safe);
    }
}

/// While Recovery lasts, of two bot packets in a row exactly one is processed:
/// the leaderboard counts its edit and no other, and of the two latencies one
/// sample is kept.
pub proof fn lemma_recovery_processes_one_of_two(
    m: MetricsView,
    board: LeaderboardView,
    fail_safe: FailSafeState,
    first: ChangePacket,
    t2: u64,
    t3: u64,
    second: ChangePacket,
    u2: u64,
    u3: u64,
)
    requires
        first.priority == Priority::Low,
        second.priority == Priority::Low,
        fail_safe.mode == SystemMode::Recovery,
        fail_safe_after(first, t2, t3, fail_safe).mode == SystemMode::Recovery,
    ensures
        ({
            let between = fail_safe_after(first, t2, t3, fail_safe);
            let strategy = board.strategy;
            let halfway = processing_recorded(m, first, t2, t3, strategy, fail_safe);
            let after = processing_recorded(halfway, second, u2, u3, strategy, between);
            let counted = board_after(board_after(board, first, fail_safe), second, between);
            &&& is_skipped(first, fail_safe) != is_skipped(second, between)
            &&& !is_skipped(first, fail_safe) ==> {
                &&& counted == board.incremented(first.server_name@)
                &&& after.bot_latency_us == push_capped(
                    m.bot_latency_us,
                    WINDOW as int,
                    micros_between(t2, t3),
                )
            }
            &&& is_skipped(first, fail_safe) ==> {
                &&& counted == board.incremented(second.server_name@)
                &&& after.bot_latency_us == push_capped(
                    m.bot_latency_us,
                    WINDOW as int,
                    micros_between(u2, u3),
                )
            }
            &&& board.wf() && first.server_name@ == second.server_name@ && board.edits(
                first.server_name@,
            ) < u64::MAX && (strategy != SyncStrategy::Atomic || is_known(first.server_name@))
                ==> counted.edits(first.server_name@) == board.edits(first.server_name@) + 1
            &&& after.human_latency_us == m.human_latency_us
            &&& writes_of(m, strategy) < u64::MAX ==> writes_of(after, strategy) == writes_of(
                m,
                strategy,
            ) + 1
        }),
{
    if board.wf() && board.edits(first.server_name@) < u64::MAX {
        lemma_increment_raises_one_count(board, first.server_name@);
    }
}

/// Outside its window stress delays no packet.
pub proof fn lemma_no_injection_outside_window(s: HotPathState, window: (u64, u64), now_ns: u64)
    requires
        s.stress.inject_window == Some(window),
        !in_window(window, s.start_ns, now_ns),
    ensures
        !s.injects(now_ns),
        s.counted(now_ns) == s,
{
}

/// What becomes of a packet that enters the hot path.
pub enum Admission {
    /// The mode does not admit it.
    Skip,
    /// It is processed, after a delay where stress asks for one.
    Process { pkt: ChangePacket, delay: bool },
}

/// A packet at the end of the hot path.
pub struct Processed {
    pub pkt: ChangePacket,
    pub latency_us: u64,
    /// The deadline was kept.
    pub deadline_ok: bool,
    /// The fail-safe mode that the engine entered, where it changed.
    pub entered: Option<SystemMode>,
}

/// Takes packets along the hot path.
pub struct HotPathProcessor {
    stress: StressConfig,
    start_ns: u64,
    stress_counter: u64,
}

impl View for HotPathProcessor {
    type V = HotPathState;

    closed spec fn view(&self) -> HotPathState {
        HotPathState {
            stress: self.stress,
            start_ns: self.start_ns,
            stress_counter: self.stress_counter,
        }
    }
}

impl HotPathProcessor {
    /// A processor that starts at `now_ns`.
    pub fn new(stress: StressConfig, now_ns: u64) -> (processor: Self)
        ensures
            processor@ == (HotPathState {
                stress,
                start_ns: (match stress.program_start {
                    Some(start) => start,
                    None => now_ns,
                }),
                stress_counter: 0,
            }),
    {
        HotPathProcessor {
            stress,
            start_ns: stress.program_start.unwrap_or(now_ns),
            stress_counter: 0,
        }
    }

    /// Whether packets are delayed at this time.
    fn stressed(&self, now_ns: u64) -> (yes: bool)
        ensures
            yes == self@.is_stressed(now_ns),
    {
        self.stress.enabled && self.stress.inject_latency_every_nth > 0 && (match
        self.stress.inject_window {
            Some(window) => window_covers(window, self.start_ns, now_ns),
            None => true,
        })
    }

    /// First part of the hot path, at `t2`: stamp, drift, admission, and
    /// whether stress delays the packet.
    pub fn enter(
        &mut self,
        pkt: ChangePacket,
        t2: u64,
        fail_safe: &mut FailSafe,
        metrics: Option<&mut SharedMetrics>,
    ) -> (admission: Admission)
        requires
            old(fail_safe).wf(),
        ensures
            final(fail_safe).wf(),
            final(fail_safe)@ == judged(pkt, old(fail_safe)@),
            is_skipped(pkt, old(fail_safe)@) ==> admission is Skip && final(self)@ == old(self)@,
            !is_skipped(pkt, old(fail_safe)@) ==> admission == (Admission::Process {
                pkt: stamped_t2(pkt, t2),
                delay: old(self)@.injects(t2),
            }) && final(self)@ == old(self)@.counted(t2),
            metrics matches Some(m) ==> final(m).wf() == m.wf() && final(m)@ == drift_recorded(
                m@,
                pkt,
                t2,
            ),
    {
        let mut pkt = pkt;
        if let Some(m) = metrics {
            record_drift(m, &pkt, t2);
        }
        pkt.t2 = Some(t2);
        if pkt.priority == Priority::Low && !fail_safe.allow_bot_packet() {
            return Admission::Skip;
        }
        let mut delay = false;
        if self.stressed(t2) {
            delay = self.stress_counter % self.stress.inject_latency_every_nth == 0;
            self.stress_counter = self.stress_counter.wrapping_add(1);
        }
        Admission::Process { pkt, delay }
    }

    /// Last part of the hot path, for a packet that was dispatched at `t2` and
    /// is done at `t3`: stamp, latency, deadline, fail-safe.
    pub fn conclude(
        &self,
        pkt: ChangePacket,
        t2: u64,
        t3: u64,
        fail_safe: &mut FailSafe,
        metrics: Option<&mut SharedMetrics>,
    ) -> (done: Processed)
        requires
            old(fail_safe).wf(),
            metrics matches Some(m) ==> m.deadline_misses < u64::MAX && m.fail_safe_activations
                < u64::MAX,
        ensures
            final(fail_safe).wf(),
            final(fail_safe)@ == old(fail_safe)@.after_latency(micros_between(t2, t3)),
            done.pkt == (ChangePacket { t3: Some(t3), ..pkt }),
            done.latency_us == micros_between(t2, t3),
            done.deadline_ok == !is_miss(micros_between(t2, t3)),
            t2 <= t3 ==> (done.deadline_ok <==> (t3 - t2) / 1000 <= 2_000),
            t2 <= t3 && old(fail_safe)@.mode != SystemMode::Degraded ==> (final(fail_safe)@.mode
                == SystemMode::Degraded <==> (t3 - t2) / 1000 > 2_000),
            done.entered == (if final(fail_safe)@.mode == old(fail_safe)@.mode {
                None
            } else {
                Some(final(fail_safe)@.mode)
            }),
            metrics matches Some(m) ==> final(m).wf() == m.wf() && final(m)@
                == conclusion_recorded(m@, pkt, t2, t3, old(fail_safe)@),
    {
        let mut pkt = pkt;
        pkt.t3 = Some(t3);
        let latency_us: u64 = elapsed_us(t2, t3);
        let deadline_ok = latency_us <= HOT_DEADLINE;
        let entered = match metrics {
            Some(m) => {
                m.push_latency(pkt.priority, latency_us);
                if !deadline_ok {
                    m.deadline_misses = m.deadline_misses + 1;
                    m.push_deadline_miss(
                        DeadlineMissEvent {
                            occurred_at: t3,
                            latency_us,
                            domain: pkt.server_name.clone(),
                            priority: pkt.priority,
                        },
                    );
                }
                fail_safe.record_latency(latency_us, Some(m))
            },
            None => fail_safe.record_latency(latency_us, None),
        };
        Processed { pkt, latency_us, deadline_ok, entered }
    }

    /// The whole hot path of a packet that is dispatched at `t2` and, unless it
    /// is skipped, done at `t3`. `true` where the deadline was kept; a skipped
    /// packet is no miss.
    pub fn process(
        &mut self,
        pkt: ChangePacket,
        t2: u64,
        t3: u64,
        leaderboard: &mut Leaderboard,
        fail_safe: &mut FailSafe,
        metrics: Option<&mut SharedMetrics>,
    ) -> (deadline_ok: bool)
        requires
            old(leaderboard).wf(),
            old(leaderboard)@.has_room_for(pkt.server_name@),
            old(fail_safe).wf(),
            metrics matches Some(m) ==> room_for_packet(m@, old(leaderboard)@.strategy),
        ensures
            final(leaderboard).wf(),
            final(fail_safe).wf(),
            deadline_ok == keeps_deadline(pkt, t2, t3, old(fail_safe)@),
            final(self)@ == (if is_skipped(pkt, old(fail_safe)@) {
                old(self)@
            } else {
                old(self)@.counted(t2)
            }),
            final(leaderboard)@ == board_after(old(leaderboard)@, pkt, old(fail_safe)@),
            final(fail_safe)@ == fail_safe_after(pkt, t2, t3, old(fail_safe)@),
            metrics matches Some(m) ==> final(m).wf() == m.wf() && final(m)@
                == processing_recorded(
                m@,
                pkt,
                t2,
                t3,
                old(leaderboard)@.strategy,
                old(fail_safe)@,
            ),
    {
        match metrics {
            Some(m) => match self.enter(pkt, t2, fail_safe, Some(&mut *m)) {
                Admission::Skip => true,
                Admission::Process { pkt, delay: _ } => {
                    leaderboard.increment(pkt.server_name.as_str(), Some(&mut *m));
                    self.conclude(pkt, t2, t3, fail_safe, Some(m)).deadline_ok
                },
            },
            None => match self.enter(pkt, t2, fail_safe, None) {
                Admission::Skip => true,
                Admission::Process { pkt, delay: _ } => {
                    leaderboard.increment(pkt.server_name.as_str(), None);
                    self.conclude(pkt, t2, t3, fail_safe, None).deadline_ok
                },
            },
        }
    }
}

} // verus!
