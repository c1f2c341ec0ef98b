//! The network watchdog: a reset after ten seconds without an event.
//!
//! Times are milliseconds since the Unix epoch; 0 stands for no event yet. The
//! watchdog is polled once a second.

use vstd::prelude::*;

use crate::metrics::{MetricsView, SharedMetrics};

verus! {

/// Silence, in ms, that the watchdog tolerates.
pub const WATCHDOG_TIMEOUT_MS: i64 = 10_000;

/// State of the watchdog.
#[verifier::ext_equal]
pub struct WatchdogState {
    /// Time of the latest event or reset; 0 before the first event.
    pub last_event_ms: i64,
    /// Network resets so far.
    pub reset_count: u64,
    /// A reconnection is asked for.
    pub reconnect: bool,
}

impl WatchdogState {
    /// Silence at `now_ms`.
    pub open spec fn silence(self, now_ms: i64) -> int {
        now_ms - self.last_event_ms
    }

    /// Whether a poll at `now_ms` resets the network.
    pub open spec fn fires(self, now_ms: i64) -> bool {
        self.last_event_ms != 0 && self.silence(now_ms) > WATCHDOG_TIMEOUT_MS
    }

    /// The state after a poll: a reset counts, asks for a reconnection and
    /// starts the timer anew.
    pub open spec fn polled(self, now_ms: i64) -> Self {
        if self.fires(now_ms) {
            WatchdogState {
                last_event_ms: now_ms,
                reset_count: (self.reset_count + 1) as u64,
                reconnect: true,
            }
        } else {
            self
        }
    }

    /// The state after an event.
    pub open spec fn beaten(self, now_ms: i64) -> Self {
        WatchdogState { last_event_ms: now_ms, ..self }
    }
}

/// A network reset.
#[derive(Debug, Clone, Copy, PartialEq, Eq, Structural)]
pub struct NetworkReset {
    /// Which reset of the run this is, from 1.
    pub number: u64,
    pub silence_ms: i64,
}

/// A reset is not followed by another before more than the timeout has gone by
/// again, and an event puts it off in the same way.
pub proof fn lemma_reset_restarts_timer(s: WatchdogState, now_ms: i64, later_ms: i64)
    requires
        later_ms - now_ms <= WATCHDOG_TIMEOUT_MS,
    ensures
        s.fires(now_ms) ==> !s.polled(now_ms).fires(later_ms),
        !s.beaten(now_ms).fires(later_ms),
{
}

/// With one poll a second or more, a reset comes at most a second late: the
/// first poll that fires finds no more than 11 s of silence.
pub proof fn lemma_reset_is_timely(s: WatchdogState, previous_poll_ms: i64, now_ms: i64)
    requires
        !s.fires(previous_poll_ms),
        s.fires(now_ms),
        now_ms - previous_poll_ms <= 1_000,
    ensures
        WATCHDOG_TIMEOUT_MS < s.silence(now_ms) <= WATCHDOG_TIMEOUT_MS + 1_000,
{
}

/// Before the first event the watchdog stays quiet, however long that takes.
pub proof fn lemma_quiet_before_first_event(s: WatchdogState, now_ms: i64)
    requires
        s.last_event_ms == 0,
    ensures
        s.polled(now_ms) == s,
{
}

/// After more than ten seconds without an event or a reset a poll always resets
/// the network: it counts the reset, asks for a reconnection and starts the
/// timer anew. Until then, and before the first event, a poll changes nothing.
pub proof fn lemma_silence_always_resets(s: WatchdogState, now_ms: i64)
    requires
        s.reset_count < u64::MAX,
    ensures
        s.last_event_ms != 0 && now_ms - s.last_event_ms > 10_000 ==> {
            let after = s.polled(now_ms);
            &&& after.reconnect
            &&& after.reset_count == s.reset_count + 1
            &&& after.last_event_ms == now_ms
        },
        s.last_event_ms == 0 || now_ms - s.last_event_ms <= 10_000 ==> s.polled(now_ms) == s,
        s.fires(now_ms) <==> s.last_event_ms != 0 && now_ms - s.last_event_ms > 10_000,
{
}

/// An event sets the timer to its own time and leaves the rest: the next reset
/// comes with the first poll more than ten seconds later.
pub proof fn lemma_event_sets_timer(s: WatchdogState, event_ms: i64, now_ms: i64)
    requires
        event_ms != 0,
        s.reset_count < u64::MAX,
    ensures
        s.beaten(event_ms).last_event_ms == event_ms,
        s.beaten(event_ms).reset_count == s.reset_count,
        s.beaten(event_ms).reconnect == s.reconnect,
        now_ms - event_ms > 10_000 <==> s.beaten(event_ms).polled(now_ms).reset_count
            == s.reset_count + 1,
{
}

/// The network watchdog.
pub struct Watchdog {
    last_event_ms: i64,
    reset_count: u64,
    reconnect: bool,
}

impl View for Watchdog {
    type V = WatchdogState;

    closed spec fn view(&self) -> WatchdogState {
        WatchdogState {
            last_event_ms: self.last_event_ms,
            reset_count: self.reset_count,
            reconnect: self.reconnect,
        }
    }
}

impl Watchdog {
    pub fn new(last_event_ms: i64) -> (watchdog: Self)
        ensures
            watchdog@ == (WatchdogState { last_event_ms, reset_count: 0, reconnect: false }),
    {
        Watchdog { last_event_ms, reset_count: 0, reconnect: false }
    }

    /// An event came in.
    pub fn heartbeat(&mut self, now_ms: i64)
        ensures
            final(self)@ == old(self)@.beaten(now_ms),
    {
        self.last_event_ms = now_ms;
    }

    /// Time of the latest event or reset; 0 before the first event.
    pub fn last_event_ms(&self) -> (ms: i64)
        ensures
            ms == self@.last_event_ms,
    {
        self.last_event_ms
    }

    /// Whether a reconnection is asked for.
    pub fn reconnect_flag(&self) -> (asked: bool)
        ensures
            asked == self@.reconnect,
    {
        self.reconnect
    }

    /// Whether a reconnection is asked for; the request is then met.
    pub fn take_reconnect(&mut self) -> (asked: bool)
        ensures
            asked == old(self)@.reconnect,
            final(self)@ == (WatchdogState { reconnect: false, ..old(self)@ }),
    {
        let asked = self.reconnect;
        self.reconnect = false;
        asked
    }

    /// Network resets so far.
    pub fn reset_count(&self) -> (n: u64)
        ensures
            n == self@.reset_count,
    {
        self.reset_count
    }

    /// Looks at the clock. A silence beyond the timeout resets the network; the
    /// number of resets goes into the store, unless that is out of reach.
    pub fn poll(&mut self, now_ms: i64, metrics: Option<&mut SharedMetrics>) -> (reset: Option<
        NetworkReset,
    >)
        requires
            i64::MIN <= old(self)@.silence(now_ms) <= i64::MAX,
            old(self)@.reset_count < u64::MAX,
        ensures
            final(self)@ == old(self)@.polled(now_ms),
            reset is Some <==> old(self)@.last_event_ms != 0 && now_ms - old(self)@.last_event_ms
                > 10_000,
            reset matches Some(r) ==> {
                &&& r.number == old(self)@.reset_count + 1
                &&& r.silence_ms == now_ms - old(self)@.last_event_ms
                &&& final(self)@.reconnect
                &&& final(self)@.last_event_ms == now_ms
                &&& final(self)@.reset_count == old(self)@.reset_count + 1
            },
            reset is None ==> final(self)@ == old(self)@,
            reset == (if old(self)@.fires(now_ms) {
                Some(
                    NetworkReset {
                        number: final(self)@.reset_count,
                        silence_ms: old(self)@.silence(now_ms) as i64,
                    },
                )
            } else {
                None
            }),
            metrics matches Some(m) ==> final(m).wf() == m.wf() && final(m)@ == (if old(self)@.fires(now_ms) {
                MetricsView { watchdog_resets: final(self)@.reset_count, ..m@ }
            } else {
                m@
            }),
    {
        if self.last_event_ms == 0 {
            return None;
        }
        let silence_ms: i64 = now_ms - self.last_event_ms;
        if silence_ms <= WATCHDOG_TIMEOUT_MS {
            return None;
        }
        self.reset_count = self.reset_count + 1;
        if let Some(m) = metrics {
            m.watchdog_resets = self.reset_count;
        }
        self.reconnect = true;
        self.last_event_ms = now_ms;
        Some(NetworkReset { number: self.reset_count, silence_ms })
    }
}

} // verus!
