//! Core types of the monitoring engine.

use std::cmp::Ordering;

use vstd::prelude::*;
use vstd::std_specs::cmp::{PartialOrdSpec, PartialOrdSpecImpl};

verus! {

/// Jitter (µs) above which the engine enters Degraded mode.
pub const JITTER_THRESHOLD_US: u64 = 2_000;

/// Jitter (µs) below which a cycle counts as clean.
pub const RECOVERY_THRESHOLD_US: u64 = 500;

/// Consecutive clean cycles needed to return from Recovery to Normal.
pub const RECOVERY_WINDOW: u32 = 20;

/// A Wikipedia recent-changes event whose text borrows from the JSON buffer.
#[derive(Debug, Clone, Copy)]
pub struct WikiChange<'a> {
    /// Name of the editor, human or bot.
    pub user: Option<&'a str>,
    /// True when a registered bot account made the edit.
    pub bot: bool,
    /// Domain of the wiki, such as `en.wikipedia.org`.
    pub server_name: Option<&'a str>,
    /// Title of the page.
    pub title: Option<&'a str>,
    /// Kind of change: `edit`, `new`, `log`, `categorize` and so on.
    pub change_type: Option<&'a str>,
    /// Unix timestamp of the change, in seconds.
    pub timestamp: Option<i64>,
    /// Wiki namespace; 0 is the article space.
    pub namespace: Option<i64>,
}

/// Processing priority of an event. Human edits outrank bot edits.
#[derive(Debug, Clone, Copy, PartialEq, Eq, Ord, Hash, Structural)]
pub enum Priority {
    /// A bot edit.
    Low,
    /// A human edit.
    High,
}

impl PartialOrd for Priority {
    fn partial_cmp(&self, other: &Self) -> (order: Option<Ordering>) {
        match (*self, *other) {
            (Priority::Low, Priority::High) => Some(Ordering::Less),
            (Priority::High, Priority::Low) => Some(Ordering::Greater),
            _ => Some(Ordering::Equal),
        }
    }
}

impl PartialOrdSpecImpl for Priority {
    open spec fn obeys_partial_cmp_spec() -> bool {
        true
    }

    /// A bot edit is below a human edit.
    open spec fn partial_cmp_spec(&self, other: &Self) -> Option<Ordering> {
        match (*self, *other) {
            (Priority::Low, Priority::High) => Some(Ordering::Less),
            (Priority::High, Priority::Low) => Some(Ordering::Greater),
            _ => Some(Ordering::Equal),
        }
    }
}

/// The priority of an event by its bot flag.
pub open spec fn priority_of(is_bot: bool) -> Priority {
    if is_bot {
        Priority::Low
    } else {
        Priority::High
    }
}

/// A human edit outranks a bot edit, and edits of one kind rank the same.
pub proof fn lemma_humans_outrank_bots(is_bot: bool)
    ensures
        PartialOrdSpec::partial_cmp_spec(&priority_of(false), &priority_of(true)) == Some(
            Ordering::Greater,
        ),
        PartialOrdSpec::partial_cmp_spec(&priority_of(true), &priority_of(false)) == Some(
            Ordering::Less,
        ),
        PartialOrdSpec::partial_cmp_spec(&priority_of(is_bot), &priority_of(is_bot)) == Some(
            Ordering::Equal,
        ),
        priority_of(is_bot) == Priority::Low <==> is_bot,
        priority_of(is_bot) == Priority::High <==> !is_bot,
{
}

impl Priority {
    pub fn from_bot_flag(is_bot: bool) -> (priority: Self)
        ensures
            priority == priority_of(is_bot),
    {
        if is_bot {
            Priority::Low
        } else {
            Priority::High
        }
    }

    /// What `label` returns.
    pub open spec fn label_text(self) -> Seq<char> {
        match self {
            Priority::High => "human"@,
            Priority::Low => "bot"@,
        }
    }

    pub fn label(self) -> (label: &'static str)
        ensures
            label@ == self.label_text(),
    {
        match self {
            Priority::High => "human",
            Priority::Low => "bot",
        }
    }

    /// What `name` returns.
    pub open spec fn name_text(self) -> Seq<char> {
        match self {
            Priority::High => "High"@,
            Priority::Low => "Low"@,
        }
    }

    /// The variant's name, as the event logs write it.
    pub fn name(self) -> (name: &'static str)
        ensures
            name@ == self.name_text(),
    {
        match self {
            Priority::High => "High",
            Priority::Low => "Low",
        }
    }
}

/// The text of an optional field, or a default where the field is absent.
pub open spec fn text_or(field: Option<&str>, default: Seq<char>) -> Seq<char> {
    match field {
        Some(text) => text@,
        None => default,
    }
}

/// A change event that owns its text, so that it outlives the JSON buffer.
///
/// The stamps are nanoseconds of the engine's monotonic clock.
#[derive(Debug, Clone)]
pub struct ChangePacket {
    pub user: String,
    pub server_name: String,
    pub title: String,
    pub change_type: String,
    pub priority: Priority,
    pub wiki_timestamp: i64,
    /// T0: the packet was made from the raw event.
    pub t0: u64,
    /// T1: the packet entered the priority queue.
    pub t1: Option<u64>,
    /// T2: the packet was taken from the queue.
    pub t2: Option<u64>,
    /// T3: processing finished.
    pub t3: Option<u64>,
}

impl ChangePacket {
    /// The packet carries what the event says, with `unknown` for a missing
    /// user, domain or kind, an empty title and timestamp 0 where those are
    /// missing, and has been stamped with T0 alone.
    pub open spec fn made_from(self, c: &WikiChange<'_>, t0: u64) -> bool {
        &&& self.user@ == text_or(c.user, "unknown"@)
        &&& self.server_name@ == text_or(c.server_name, "unknown"@)
        &&& self.title@ == text_or(c.title, ""@)
        &&& self.change_type@ == text_or(c.change_type, "unknown"@)
        &&& self.priority == (if c.bot { Priority::Low } else { Priority::High })
        &&& self.wiki_timestamp == (match c.timestamp {
            Some(ts) => ts,
            None => 0,
        })
        &&& self.t0 == t0
        &&& self.t1 is None
        &&& self.t2 is None
        &&& self.t3 is None
    }

    /// Makes an owned packet from a borrowed event and stamps T0 with `now_ns`.
    pub fn from_change(c: &WikiChange<'_>, now_ns: u64) -> (packet: Self)
        ensures
            packet.made_from(c, now_ns),
    {
        let priority = Priority::from_bot_flag(c.bot);
        ChangePacket {
            user: c.user.unwrap_or("unknown").to_owned(),
            server_name: c.server_name.unwrap_or("unknown").to_owned(),
            title: c.title.unwrap_or("").to_owned(),
            change_type: c.change_type.unwrap_or("unknown").to_owned(),
            priority,
            wiki_timestamp: c.timestamp.unwrap_or(0),
            t0: now_ns,
            t1: None,
            t2: None,
            t3: None,
        }
    }
}

/// Logged when a bounded queue is full and a packet has to be dropped.
#[derive(Debug, Clone)]
pub struct OverflowEvent {
    /// When the drop occurred, in nanoseconds of the monotonic clock.
    pub dropped_at: u64,
    /// The domain that produced the dropped packet.
    pub domain: String,
    /// Priority of the dropped packet.
    pub priority: Priority,
    /// Overflow events so far, this one included.
    pub total_drops: u64,
}

/// What an overflow event says.
#[verifier::ext_equal]
pub struct OverflowView {
    pub dropped_at: u64,
    pub domain: Seq<char>,
    pub priority: Priority,
    pub total_drops: u64,
}

impl View for OverflowEvent {
    type V = OverflowView;

    open spec fn view(&self) -> OverflowView {
        OverflowView {
            dropped_at: self.dropped_at,
            domain: self.domain@,
            priority: self.priority,
            total_drops: self.total_drops,
        }
    }
}

/// Stress settings of a run. Windows give the times after the start, in
/// nanoseconds, from which and until which they last.
#[derive(Debug, Clone, Copy, PartialEq, Eq)]
pub struct StressConfig {
    pub enabled: bool,
    /// Every how many packets the hot path is delayed; 0 for never.
    pub inject_latency_every_nth: u64,
    /// While this lasts packets are delayed; without it, all the time.
    pub inject_window: Option<(u64, u64)>,
    /// While this lasts the mock stream stays silent.
    pub silence_window: Option<(u64, u64)>,
    /// Clock reading from which windows are measured; without it, each part
    /// of the engine measures from its own start.
    pub program_start: Option<u64>,
}

impl StressConfig {
    /// No stress at all.
    pub fn off() -> (config: Self)
        ensures
            config == (StressConfig {
                enabled: false,
                inject_latency_every_nth: 0,
                inject_window: None,
                silence_window: None,
                program_start: None,
            }),
    {
        StressConfig {
            enabled: false,
            inject_latency_every_nth: 0,
            inject_window: None,
            silence_window: None,
            program_start: None,
        }
    }

    /// Stress all along: a delay at every 50th packet, and a stream that is
    /// silent from 25 s to 35 s after the start.
    pub fn default_stress() -> (config: Self)
        ensures
            config == (StressConfig {
                enabled: true,
                inject_latency_every_nth: 50,
                inject_window: None,
                silence_window: Some((25_000_000_000u64, 35_000_000_000u64)),
                program_start: None,
            }),
    {
        StressConfig {
            enabled: true,
            inject_latency_every_nth: 50,
            inject_window: None,
            silence_window: Some((25_000_000_000, 35_000_000_000)),
            program_start: None,
        }
    }

    /// The scripted demo: a delay at every 50th packet from 15 s to 25 s after
    /// the start, then silence until 35 s after it.
    pub fn default_demo() -> (config: Self)
        ensures
            config == (StressConfig {
                enabled: true,
                inject_latency_every_nth: 50,
                inject_window: Some((15_000_000_000u64, 25_000_000_000u64)),
                silence_window: Some((25_000_000_000u64, 35_000_000_000u64)),
                program_start: None,
            }),
    {
        StressConfig {
            enabled: true,
            inject_latency_every_nth: 50,
            inject_window: Some((15_000_000_000, 25_000_000_000)),
            silence_window: Some((25_000_000_000, 35_000_000_000)),
            program_start: None,
        }
    }
}

/// Nanoseconds from `start` to `now`; none before the start.
pub open spec fn since(start: u64, now: u64) -> u64 {
    if start <= now {
        (now - start) as u64
    } else {
        0
    }
}

/// The window covers the time `now`, where it is measured from `start`: its
/// beginning does, its end does not.
pub open spec fn in_window(window: (u64, u64), start: u64, now: u64) -> bool {
    window.0 <= since(start, now) < window.1
}

/// Whether the window covers the time `now`, measured from `start`.
pub fn window_covers(window: (u64, u64), start: u64, now: u64) -> (yes: bool)
    ensures
        yes == in_window(window, start, now),
{
    let elapsed: u64 = if start <= now {
        now - start
    } else {
        0
    };
    window.0 <= elapsed && elapsed < window.1
}

/// Operating mode of the engine.
///
/// Normal → Degraded   when jitter exceeds `JITTER_THRESHOLD_US`
/// Degraded → Recovery when jitter falls below `RECOVERY_THRESHOLD_US`
/// Recovery → Normal   after `RECOVERY_WINDOW` consecutive clean cycles
#[derive(Debug, Clone, Copy, PartialEq, Eq, Structural)]
pub enum SystemMode {
    /// All events are processed.
    Normal,
    /// Jitter is too high; bot edits are dropped to shed load.
    Degraded,
    /// Jitter is recovering; bot edits are admitted at half rate.
    Recovery,
}

impl SystemMode {
    /// What `label` returns.
    pub open spec fn label_text(self) -> Seq<char> {
        match self {
            SystemMode::Normal => "NORMAL"@,
            SystemMode::Degraded => "DEGRADED"@,
            SystemMode::Recovery => "RECOVERY"@,
        }
    }

    /// The mode as it is shown and logged.
    pub fn label(self) -> (label: &'static str)
        ensures
            label@ == self.label_text(),
    {
        match self {
            SystemMode::Normal => "NORMAL",
            SystemMode::Degraded => "DEGRADED",
            SystemMode::Recovery => "RECOVERY",
        }
    }
}

/// Whole microseconds from `earlier` to `later`, and 0 where the clock
/// reading `later` does not come after `earlier`.
pub open spec fn micros_between(earlier: u64, later: u64) -> u64 {
    if earlier <= later {
        ((later - earlier) / 1000) as u64
    } else {
        0
    }
}

pub fn elapsed_us(earlier: u64, later: u64) -> (us: u64)
    ensures
        us == micros_between(earlier, later),
{
    if earlier <= later {
        (later - earlier) / 1000
    } else {
        0
    }
}

/// A time in whole microseconds falls short of the time itself by less than one
/// microsecond, and no time has gone by where the clock went back.
pub proof fn lemma_whole_microseconds(earlier: u64, later: u64)
    ensures
        earlier <= later ==> micros_between(earlier, later) * 1000 <= later - earlier < (
        micros_between(earlier, later) + 1) * 1000,
        earlier > later ==> micros_between(earlier, later) == 0,
        earlier <= later ==> since(earlier, later) == later - earlier,
        earlier > later ==> since(earlier, later) == 0,
{
}

/// A window lasts from its first time, counted from the start, until just before
/// its last one.
pub proof fn lemma_window_is_half_open(window: (u64, u64), start: u64, now: u64)
    ensures
        start <= now ==> (in_window(window, start, now) <==> start + window.0 <= now < start
            + window.1),
        start > now ==> (in_window(window, start, now) <==> window.0 == 0 && window.1 > 0),
{
}

/// A packet carries each text of its event as it is; where the event has none,
/// a user, a domain and a kind are `unknown` and a title is empty. It is a bot
/// edit exactly where the event says so, and only T0 is stamped.
pub proof fn lemma_packet_carries_the_event(c: &WikiChange<'_>, p: ChangePacket, t0: u64)
    requires
        p.made_from(c, t0),
    ensures
        c.user matches Some(user) ==> p.user@ == user@,
        c.user is None ==> p.user@ == "unknown"@,
        c.server_name matches Some(domain) ==> p.server_name@ == domain@,
        c.server_name is None ==> p.server_name@ == "unknown"@,
        c.title matches Some(title) ==> p.title@ == title@,
        c.title is None ==> p.title@ == ""@,
        c.change_type matches Some(kind) ==> p.change_type@ == kind@,
        c.change_type is None ==> p.change_type@ == "unknown"@,
        p.priority == Priority::Low <==> c.bot,
        p.priority == Priority::High <==> !c.bot,
        c.timestamp matches Some(secs) ==> p.wiki_timestamp == secs,
        c.timestamp is None ==> p.wiki_timestamp == 0,
        p.t0 == t0 && p.t1 is None && p.t2 is None && p.t3 is None,
{
}

/// The words for priorities and modes.
pub proof fn lemma_labels()
    ensures
        Priority::High.label_text() == "human"@,
        Priority::Low.label_text() == "bot"@,
        Priority::High.name_text() == "High"@,
        Priority::Low.name_text() == "Low"@,
        SystemMode::Normal.label_text() == "NORMAL"@,
        SystemMode::Degraded.label_text() == "DEGRADED"@,
        SystemMode::Recovery.label_text() == "RECOVERY"@,
{
}

} // verus!
