//! The fail-safe mode controller.
//!
//! ```text
//!            latency > 2000 µs               latency > 2000 µs
//!   NORMAL ---------------------> DEGRADED <------------------- RECOVERY
//!      ^                             |                           ^    |
//!      |                             +---------------------------+    |
//!      |                                  one clean cycle             |
//!      +--------------------------------------------------------------+
//!                              20 clean cycles in a row
//! ```
//!
//! A cycle is clean where its latency is below 500 µs. In Degraded mode bot
//! packets are dropped; in Recovery mode every other one is admitted.

use vstd::prelude::*;

use crate::metrics::{MetricsView, SharedMetrics};
use crate::types::{SystemMode, JITTER_THRESHOLD_US, RECOVERY_THRESHOLD_US, RECOVERY_WINDOW};

verus! {

/// State of the controller.
#[verifier::ext_equal]
pub struct FailSafeState {
    pub mode: SystemMode,
    /// Clean cycles in a row, in Recovery mode.
    pub clean_cycles: nat,
    /// Bot packets judged in Recovery mode so far, modulo 2³².
    pub recovery_tick: u32,
}

/// A latency that counts as clean.
pub open spec fn is_clean(us: u64) -> bool {
    us < RECOVERY_THRESHOLD_US
}

/// A latency that counts as a spike.
pub open spec fn is_spike(us: u64) -> bool {
    us > JITTER_THRESHOLD_US
}

impl FailSafeState {
    pub open spec fn initial() -> Self {
        FailSafeState {
            mode: SystemMode::Normal,
            clean_cycles: 0,
            recovery_tick: 0,
        }
    }

    pub open spec fn wf(self) -> bool {
        &&& self.clean_cycles <= RECOVERY_WINDOW
        &&& self.mode == SystemMode::Recovery ==> self.clean_cycles < RECOVERY_WINDOW
    }

    /// The state after a packet took `us` microseconds.
    pub open spec fn after_latency(self, us: u64) -> Self {
        match self.mode {
            SystemMode::Normal => if is_spike(us) {
                FailSafeState { mode: SystemMode::Degraded, ..self }
            } else {
                self
            },
            SystemMode::Degraded => if is_clean(us) {
                FailSafeState { mode: SystemMode::Recovery, clean_cycles: 0, ..self }
            } else {
                self
            },
            SystemMode::Recovery => if is_spike(us) {
                FailSafeState { mode: SystemMode::Degraded, clean_cycles: 0, ..self }
            } else if !is_clean(us) {
                FailSafeState { clean_cycles: 0, ..self }
            } else if self.clean_cycles + 1 >= RECOVERY_WINDOW {
                FailSafeState {
                    mode: SystemMode::Normal,
                    clean_cycles: self.clean_cycles + 1,
                    ..self
                }
            } else {
                FailSafeState { clean_cycles: self.clean_cycles + 1, ..self }
            },
        }
    }

    /// The state after each of the latencies, in turn.
    pub open spec fn after_latencies(self, latencies: Seq<u64>) -> Self
        decreases latencies.len(),
    {
        if latencies.len() == 0 {
            self
        } else {
            self.after_latencies(latencies.drop_last()).after_latency(latencies.last())
        }
    }

    /// Whether a bot packet is processed now.
    pub open spec fn allows_bot(self) -> bool {
        match self.mode {
            SystemMode::Normal => true,
            SystemMode::Degraded => false,
            SystemMode::Recovery => self.recovery_tick % 2 == 0,
        }
    }

    /// The state after a bot packet was judged.
    pub open spec fn after_bot(self) -> Self {
        match self.mode {
            SystemMode::Recovery => FailSafeState {
                recovery_tick: self.recovery_tick.wrapping_add(1),
                ..self
            },
            _ => self,
        }
    }
}

/// The store after the mode went from `from` to `to`: a change of mode shows,
/// and an entry into Degraded mode counts as an activation.
pub open spec fn mode_recorded(m: MetricsView, from: SystemMode, to: SystemMode) -> MetricsView {
    if from == to {
        m
    } else {
        MetricsView {
            current_mode: to.label_text(),
            fail_safe_activations: if to == SystemMode::Degraded {
                (m.fail_safe_activations + 1) as u64
            } else {
                m.fail_safe_activations
            },
            ..m
        }
    }
}

/// The next mode, by the latency in microseconds alone and, in Recovery, by how
/// many clean cycles came before: above 2000 every mode goes to Degraded or
/// stays there; below 500 Degraded goes to Recovery, and Recovery to Normal with
/// the 20th clean cycle; otherwise the mode stays.
pub proof fn lemma_next_mode(s: FailSafeState, us: u64)
    requires
        s.wf(),
    ensures
        ({
            let after = s.after_latency(us);
            &&& s.mode != SystemMode::Degraded ==> (after.mode == SystemMode::Degraded <==> us
                > 2_000)
            &&& s.mode == SystemMode::Normal && us <= 2_000 ==> after.mode == SystemMode::Normal
            &&& s.mode == SystemMode::Degraded ==> after.mode == (if us < 500 {
                SystemMode::Recovery
            } else {
                SystemMode::Degraded
            })
            &&& s.mode == SystemMode::Recovery ==> (after.mode == SystemMode::Normal <==> us < 500
                && s.clean_cycles == 19)
            &&& s.mode == SystemMode::Recovery && after.mode == SystemMode::Recovery
                ==> after.clean_cycles == (if us < 500 {
                s.clean_cycles + 1
            } else {
                0
            })
            &&& s.mode == SystemMode::Degraded && after.mode == SystemMode::Recovery
                ==> after.clean_cycles == 0
        }),
{
}

/// What counts as a spike and as a clean cycle, and how many clean cycles end
/// Recovery.
pub proof fn lemma_thresholds(us: u64)
    ensures
        is_spike(us) <==> us > 2_000,
        is_clean(us) <==> us < 500,
        RECOVERY_WINDOW == 20,
{
}

/// After a spike the mode is Degraded, whatever it was before.
pub proof fn lemma_spike_degrades(s: FailSafeState, us: u64)
    requires
        is_spike(us),
    ensures
        s.after_latency(us).mode == SystemMode::Degraded,
{
}

/// The steps that the mode takes: Normal to Degraded only on a spike, Degraded
/// to Recovery only on a clean cycle, Recovery to Normal only on a clean cycle
/// and to Degraded only on a spike. There is no step from Normal to Recovery
/// nor from Degraded to Normal.
pub proof fn lemma_mode_steps(s: FailSafeState, us: u64)
    ensures
        ({
            let from = s.mode;
            let to = s.after_latency(us).mode;
            from != to ==> {
                ||| from == SystemMode::Normal && to == SystemMode::Degraded && is_spike(us)
                ||| from == SystemMode::Degraded && to == SystemMode::Recovery && is_clean(us)
                ||| from == SystemMode::Recovery && to == SystemMode::Normal && is_clean(us)
                ||| from == SystemMode::Recovery && to == SystemMode::Degraded && is_spike(us)
            }
        }),
        s.wf() ==> s.after_latency(us).wf(),
        s.after_latency(us).recovery_tick == s.recovery_tick,
{
}

/// The first clean cycle takes the engine out of Degraded mode, and nothing
/// else does.
pub proof fn lemma_clean_cycle_ends_degraded(s: FailSafeState, us: u64)
    requires
        s.mode == SystemMode::Degraded,
    ensures
        s.after_latency(us).mode == (if is_clean(us) {
            SystemMode::Recovery
        } else {
            SystemMode::Degraded
        }),
{
}

/// Clean cycles in a row bring the engine back by themselves: from Degraded
/// mode, it is in Recovery from the 1st of them and Normal from the 21st.
pub proof fn lemma_clean_cycles_recover(s: FailSafeState, latencies: Seq<u64>)
    requires
        s.wf(),
        s.mode == SystemMode::Degraded,
        forall|i: int| 0 <= i < latencies.len() ==> is_clean(#[trigger] latencies[i]),
    ensures
        s.after_latencies(latencies).mode == (if latencies.len() < 1 {
            SystemMode::Degraded
        } else if latencies.len() < 1 + RECOVERY_WINDOW {
            SystemMode::Recovery
        } else {
            SystemMode::Normal
        }),
        1 <= latencies.len() < 1 + RECOVERY_WINDOW ==> s.after_latencies(latencies).clean_cycles
            == latencies.len() - 1,
    decreases latencies.len(),
{
    if latencies.len() > 0 {
        let before = latencies.drop_last();
        assert forall|i: int| 0 <= i < before.len() implies is_clean(#[trigger] before[i]) by {
            assert(before[i] == latencies[i]);
        }
        lemma_clean_cycles_recover(s, before);
        assert(is_clean(latencies[latencies.len() - 1]));
    }
}

/// Clean cycles in a row after which the mode is Normal.
pub open spec fn cycles_to_normal(s: FailSafeState) -> int {
    match s.mode {
        SystemMode::Normal => 0,
        SystemMode::Degraded => 1 + RECOVERY_WINDOW,
        SystemMode::Recovery => RECOVERY_WINDOW - s.clean_cycles,
    }
}

/// From any state, clean cycles in a row bring the engine back to Normal, and
/// 21 of them are always enough.
pub proof fn lemma_engine_recovers(s: FailSafeState, latencies: Seq<u64>)
    requires
        s.wf(),
        forall|i: int| 0 <= i < latencies.len() ==> is_clean(#[trigger] latencies[i]),
    ensures
        cycles_to_normal(s) <= 1 + RECOVERY_WINDOW,
        s.after_latencies(latencies).wf(),
        s.after_latencies(latencies).mode == SystemMode::Normal <==> latencies.len()
            >= cycles_to_normal(s),
        latencies.len() < cycles_to_normal(s) ==> cycles_to_normal(s.after_latencies(latencies))
            == cycles_to_normal(s) - latencies.len(),
    decreases latencies.len(),
{
    if latencies.len() > 0 {
        let before = latencies.drop_last();
        assert forall|i: int| 0 <= i < before.len() implies is_clean(#[trigger] before[i]) by {
            assert(before[i] == latencies[i]);
        }
        lemma_engine_recovers(s, before);
        assert(is_clean(latencies[latencies.len() - 1]));
    }
}

/// The last `n` latencies exist and were clean.
pub open spec fn clean_tail(latencies: Seq<u64>, n: nat) -> bool {
    &&& n <= latencies.len()
    &&& forall|i: int|
        latencies.len() - n <= i < latencies.len() ==> is_clean(#[trigger] latencies[i])
}

/// Whatever came before, the clean cycles that the state counts were the last
/// ones that happened.
pub proof fn lemma_counts_are_clean_tails(latencies: Seq<u64>)
    ensures
        ({
            let s = FailSafeState::initial().after_latencies(latencies);
            &&& s.wf()
            &&& s.mode == SystemMode::Recovery ==> clean_tail(latencies, s.clean_cycles)
        }),
    decreases latencies.len(),
{
    if latencies.len() > 0 {
        let before = latencies.drop_last();
        lemma_counts_are_clean_tails(before);
        let s = FailSafeState::initial().after_latencies(before);
        assert forall|n: nat|
            clean_tail(before, n) && is_clean(latencies.last()) implies #[trigger] clean_tail(
            latencies,
            n + 1,
        ) by {
            assert forall|i: int|
                latencies.len() - (n + 1) <= i < latencies.len() implies is_clean(
                #[trigger] latencies[i],
            ) by {
                if i < before.len() {
                    assert(latencies[i] == before[i]);
                }
            }
        }
        if is_clean(latencies.last()) && s.mode == SystemMode::Recovery {
            assert(clean_tail(latencies, s.clean_cycles + 1));
        }
        assert(clean_tail(latencies, 0));
    }
}

/// The mode goes from Recovery to Normal only at the end of a whole window of
/// clean cycles in a row.
pub proof fn lemma_recovery_needs_clean_window(latencies: Seq<u64>, us: u64)
    ensures
        ({
            let before = FailSafeState::initial().after_latencies(latencies);
            let after = before.after_latency(us);
            let all = latencies.push(us);
            before.mode == SystemMode::Recovery && after.mode == SystemMode::Normal ==> clean_tail(
                all,
                RECOVERY_WINDOW as nat,
            )
        }),
{
    let before = FailSafeState::initial().after_latencies(latencies);
    let all = latencies.push(us);
    lemma_counts_are_clean_tails(latencies);
    assert forall|n: nat| clean_tail(latencies, n) && is_clean(us) implies #[trigger] clean_tail(
        all,
        n + 1,
    ) by {
        assert forall|i: int| all.len() - (n + 1) <= i < all.len() implies is_clean(
            #[trigger] all[i],
        ) by {
            if i < latencies.len() {
                assert(all[i] == latencies[i]);
            }
        }
    }
    if is_clean(us) && before.mode == SystemMode::Recovery {
        assert(clean_tail(all, before.clean_cycles + 1));
    }
}

/// The store counts each entry into Degraded mode once; staying there and
/// leaving it count nothing. A change of mode shows in the store, and without
/// one the store stays as it is.
pub proof fn lemma_entries_into_degraded_count(m: MetricsView, s: FailSafeState, us: u64)
    requires
        m.fail_safe_activations < u64::MAX,
    ensures
        ({
            let a = s.mode;
            let b = s.after_latency(us).mode;
            let after = mode_recorded(m, a, b);
            &&& after.fail_safe_activations == m.fail_safe_activations + (if a
                != SystemMode::Degraded && b == SystemMode::Degraded {
                1int
            } else {
                0int
            })
            &&& a != b ==> after.current_mode == b.label_text()
            &&& a == b ==> after == m
        }),
{
}

/// A change of mode touches the shown mode and the count of activations, and no
/// other measurement.
pub proof fn lemma_mode_change_touches_little(m: MetricsView, from: SystemMode, to: SystemMode)
    ensures
        ({
            let after = mode_recorded(m, from, to);
            after == (MetricsView {
                current_mode: after.current_mode,
                fail_safe_activations: after.fail_safe_activations,
                ..m
            })
        }),
{
}

/// In Recovery, of two bot packets in a row exactly one is admitted; in Normal
/// mode all are and in Degraded mode none is.
pub proof fn lemma_bot_admission(s: FailSafeState)
    ensures
        s.mode == SystemMode::Recovery ==> s.allows_bot() != s.after_bot().allows_bot(),
        s.mode == SystemMode::Normal ==> s.allows_bot(),
        s.mode == SystemMode::Degraded ==> !s.allows_bot(),
        s.after_bot().mode == s.mode,
        s.wf() ==> s.after_bot().wf(),
{
}

/// Normal admits every bot packet, Degraded none, Recovery the first one and
/// from there on every other one, whatever latencies are measured in between.
pub proof fn lemma_every_other_bot(s: FailSafeState, us: u64)
    ensures
        s.allows_bot() <==> (s.mode == SystemMode::Normal || s.mode == SystemMode::Recovery
            && s.recovery_tick % 2 == 0),
        s.mode == SystemMode::Recovery && s.recovery_tick < u32::MAX
            ==> s.after_bot().recovery_tick == s.recovery_tick + 1,
        s.mode != SystemMode::Recovery ==> s.after_bot() == s,
        s.after_bot().clean_cycles == s.clean_cycles,
        s.after_latency(us).recovery_tick == s.recovery_tick,
        FailSafeState::initial().mode == SystemMode::Normal,
        FailSafeState::initial().recovery_tick == 0,
{
}

/// The fail-safe mode controller.
pub struct FailSafe {
    mode: SystemMode,
    clean_cycles: u32,
    recovery_tick: u32,
}

impl View for FailSafe {
    type V = FailSafeState;

    closed spec fn view(&self) -> FailSafeState {
        FailSafeState {
            mode: self.mode,
            clean_cycles: self.clean_cycles as nat,
            recovery_tick: self.recovery_tick,
        }
    }
}

impl FailSafe {
    pub open spec fn wf(&self) -> bool {
        self@.wf()
    }

    pub fn new() -> (fail_safe: Self)
        ensures
            fail_safe@ == FailSafeState::initial(),
            fail_safe.wf(),
    {
        FailSafe { mode: SystemMode::Normal, clean_cycles: 0, recovery_tick: 0 }
    }

    pub fn current_mode(&self) -> (mode: SystemMode)
        ensures
            mode == self@.mode,
    {
        self.mode
    }

    pub fn is_degraded(&self) -> (yes: bool)
        ensures
            yes == (self@.mode == SystemMode::Degraded),
    {
        self.mode == SystemMode::Degraded
    }

    pub fn is_recovery(&self) -> (yes: bool)
        ensures
            yes == (self@.mode == SystemMode::Recovery),
    {
        self.mode == SystemMode::Recovery
    }

    /// Takes the processing latency of a packet into account. Returns the new
    /// mode where the mode changed, and records the change, unless the store is
    /// out of reach.
    pub fn record_latency(&mut self, latency_us: u64, metrics: Option<&mut SharedMetrics>) -> (entered:
        Option<SystemMode>)
        requires
            old(self).wf(),
            metrics matches Some(m) ==> m.fail_safe_activations < u64::MAX,
        ensures
            final(self).wf(),
            final(self)@ == old(self)@.after_latency(latency_us),
            entered == (if final(self)@.mode == old(self)@.mode {
                None
            } else {
                Some(final(self)@.mode)
            }),
            metrics matches Some(m) ==> final(m).wf() == m.wf() && final(m)@ == mode_recorded(
                m@,
                old(self)@.mode,
                final(self)@.mode,
            ),
    {
        match self.mode {
            SystemMode::Normal => {
                if latency_us > JITTER_THRESHOLD_US {
                    return self.transition_to(SystemMode::Degraded, metrics);
                }
            },
            SystemMode::Degraded => {
                if latency_us < RECOVERY_THRESHOLD_US {
                    self.clean_cycles = 0;
                    return self.transition_to(SystemMode::Recovery, metrics);
                }
            },
            SystemMode::Recovery => {
                if latency_us < RECOVERY_THRESHOLD_US {
                    self.clean_cycles = self.clean_cycles + 1;
                    if self.clean_cycles >= RECOVERY_WINDOW {
                        return self.transition_to(SystemMode::Normal, metrics);
                    }
                } else if latency_us > JITTER_THRESHOLD_US {
                    self.clean_cycles = 0;
                    return self.transition_to(SystemMode::Degraded, metrics);
                } else {
                    self.clean_cycles = 0;
                }
            },
        }
        None
    }

    /// Whether a bot packet is processed in the current mode: always in Normal
    /// mode, never in Degraded mode, every other time in Recovery.
    pub fn allow_bot_packet(&mut self) -> (allowed: bool)
        requires
            old(self).wf(),
        ensures
            final(self).wf(),
            allowed == old(self)@.allows_bot(),
            final(self)@ == old(self)@.after_bot(),
    {
        match self.mode {
            SystemMode::Normal => true,
            SystemMode::Degraded => false,
            SystemMode::Recovery => {
                let tick: u32 = self.recovery_tick;
                self.recovery_tick = tick.wrapping_add(1);
                tick % 2 == 0
            },
        }
    }

    fn transition_to(&mut self, mode: SystemMode, metrics: Option<&mut SharedMetrics>) -> (entered:
        Option<SystemMode>)
        requires
            metrics matches Some(m) ==> m.fail_safe_activations < u64::MAX,
        ensures
            final(self)@ == (FailSafeState { mode, ..old(self)@ }),
            entered == (if mode == old(self)@.mode {
                None
            } else {
                Some(mode)
            }),
            metrics matches Some(m) ==> final(m).wf() == m.wf() && final(m)@ == mode_recorded(
                m@,
                old(self)@.mode,
                mode,
            ),
    {
        let before = self.mode;
        self.mode = mode;
        if before == mode {
            return None;
        }
        if let Some(m) = metrics {
            m.current_mode = mode.label().to_owned();
            if mode == SystemMode::Degraded {
                m.fail_safe_activations = m.fail_safe_activations + 1;
            }
        }
        Some(mode)
    }
}

} // verus!
