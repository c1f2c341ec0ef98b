//! A synthetic stream of change events.
//!
//! About four in five events are bot edits, spread over ten domains. Events
//! come at a set rate; a silence window suppresses them for a while.

use vstd::prelude::*;
use vstd::string::*;

use crate::component_b::zero_copy_parser::is_change;
use crate::component_d::leaderboard::{is_known, known_domain, known_domain_text, DOMAIN_SLOTS};
use crate::random::{
    draw_range, draw_ratio, draw_seed, seed_of_draw, seeded_range, seeded_ratio,
};
use crate::text::{
    bool_name, bool_text, decimal, decimal_text, digit_text, lemma_decimal_denotes,
};
use crate::types::{in_window, window_covers, ChangePacket, Priority, WikiChange};

verus! {

/// Seed of the stream, so that runs can be repeated.
pub const MOCK_SEED: u64 = 20_240_501;

/// Names of human editors.
pub const HUMAN_USERS: usize = 5;

/// Names of bots.
pub const BOT_USERS: usize = 4;

/// The human editor of this number.
pub open spec fn human_user_text(i: int) -> Seq<char> {
    if i == 0 {
        "Alice"@
    } else if i == 1 {
        "Bob_wiki"@
    } else if i == 2 {
        "Carol"@
    } else if i == 3 {
        "Dave42"@
    } else {
        "Eve_Editor"@
    }
}

/// The bot of this number.
pub open spec fn bot_user_text(i: int) -> Seq<char> {
    if i == 0 {
        "ClueBot_NG"@
    } else if i == 1 {
        "AntiVandal"@
    } else if i == 2 {
        "PageMover_bot"@
    } else {
        "RefBot"@
    }
}

/// The random part of an event.
#[derive(Debug, Clone, Copy, PartialEq, Eq, Structural)]
pub struct MockDraw {
    pub is_bot: bool,
    /// Which of the known domains.
    pub domain: usize,
    /// Which of the bots, or of the human editors.
    pub user: usize,
    pub namespace: u64,
}

impl MockDraw {
    /// Every number is within its list, and the namespace is one that exists.
    pub open spec fn wf(self) -> bool {
        &&& self.domain < DOMAIN_SLOTS
        &&& self.user < (if self.is_bot {
            BOT_USERS
        } else {
            HUMAN_USERS
        })
        &&& self.namespace <= 14
    }

    /// The random part that the draws make up: whether a bot edits, which
    /// domain, which user of the list that the first draw picks, and which
    /// namespace, where it is not the article space.
    pub open spec fn of_draws(
        is_bot: bool,
        domain: usize,
        user: usize,
        other_space: Option<u64>,
    ) -> Self {
        MockDraw {
            is_bot,
            domain,
            user,
            namespace: match other_space {
                Some(space) => space,
                None => 0,
            },
        }
    }

    /// The random part that the draws make up.
    pub fn from_draws(is_bot: bool, domain: usize, user: usize, other_space: Option<u64>) -> (draw:
        Self)
        ensures
            draw == MockDraw::of_draws(is_bot, domain, user, other_space),
    {
        let namespace: u64 = match other_space {
            Some(space) => space,
            None => 0,
        };
        MockDraw { is_bot, domain, user, namespace }
    }

    pub open spec fn user_text(self) -> Seq<char> {
        if self.is_bot {
            bot_user_text(self.user as int)
        } else {
            human_user_text(self.user as int)
        }
    }

    /// Whether every number is within its list.
    pub fn is_wf(&self) -> (yes: bool)
        ensures
            yes == self.wf(),
    {
        let users: usize = if self.is_bot {
            BOT_USERS
        } else {
            HUMAN_USERS
        };
        self.domain < DOMAIN_SLOTS && self.user < users && self.namespace <= 14
    }

    fn user_name(&self) -> (name: &'static str)
        requires
            self.wf(),
        ensures
            name@ == self.user_text(),
    {
        if self.is_bot {
            if self.user == 0 {
                "ClueBot_NG"
            } else if self.user == 1 {
                "AntiVandal"
            } else if self.user == 2 {
                "PageMover_bot"
            } else {
                "RefBot"
            }
        } else {
            if self.user == 0 {
                "Alice"
            } else if self.user == 1 {
                "Bob_wiki"
            } else if self.user == 2 {
                "Carol"
            } else if self.user == 3 {
                "Dave42"
            } else {
                "Eve_Editor"
            }
        }
    }
}

/// Users of the kind: bots, or human editors.
pub open spec fn users_of(is_bot: bool) -> u64 {
    if is_bot {
        BOT_USERS as u64
    } else {
        HUMAN_USERS as u64
    }
}

/// Draws that an event takes at most.
pub const EVENT_DRAWS: u64 = 5;

/// The random part of the event of number `seq` in a stream of this seed: a bot
/// in four of five cases; any domain; any user of the kind; and, where
/// namespaces vary, the article space in seven of ten cases and else any of the
/// spaces 1 to 14.
pub open spec fn event_draw(seed: u64, seq: u64, vary_namespace: bool) -> MockDraw {
    let is_bot = seeded_ratio(draw_seed(seed, seq, EVENT_DRAWS, 0), 4, 5);
    let domain = seeded_range(draw_seed(seed, seq, EVENT_DRAWS, 1), 0, DOMAIN_SLOTS as u64);
    let user = seeded_range(draw_seed(seed, seq, EVENT_DRAWS, 2), 0, users_of(is_bot));
    let article = seeded_ratio(draw_seed(seed, seq, EVENT_DRAWS, 3), 7, 10);
    let space = seeded_range(draw_seed(seed, seq, EVENT_DRAWS, 4), 1, 15);
    MockDraw::of_draws(
        is_bot,
        domain as usize,
        user as usize,
        if !vary_namespace || article {
            None
        } else {
            Some(space)
        },
    )
}

/// Draws the random part of the event of number `seq` in a stream of this seed.
pub fn draw_event(seed: u64, seq: u64, vary_namespace: bool) -> (draw: MockDraw)
    ensures
        draw == event_draw(seed, seq, vary_namespace),
        draw.wf(),
        !vary_namespace ==> draw.namespace == 0,
{
    let is_bot = draw_ratio(seed_of_draw(seed, seq, EVENT_DRAWS, 0), 4, 5);
    let domain: u64 = draw_range(seed_of_draw(seed, seq, EVENT_DRAWS, 1), 0, DOMAIN_SLOTS as u64);
    let users: u64 = if is_bot {
        BOT_USERS as u64
    } else {
        HUMAN_USERS as u64
    };
    let user: u64 = draw_range(seed_of_draw(seed, seq, EVENT_DRAWS, 2), 0, users);
    let other_space: Option<u64> = if !vary_namespace || draw_ratio(
        seed_of_draw(seed, seq, EVENT_DRAWS, 3),
        7,
        10,
    ) {
        None
    } else {
        Some(draw_range(seed_of_draw(seed, seq, EVENT_DRAWS, 4), 1, 15))
    };
    MockDraw::from_draws(is_bot, domain as usize, user as usize, other_space)
}

/// The JSON text of an event up to its timestamp: user, bot flag, domain,
/// title, type and namespace.
pub open spec fn event_head(draw: MockDraw, seq: u64) -> Seq<char> {
    "{\"user\":\""@ + draw.user_text() + "\",\"bot\":"@ + bool_text(draw.is_bot)
        + ",\"server_name\":\""@ + known_domain_text(draw.domain as int) + "\",\"title\":\"Page_"@
        + decimal_text(seq as nat) + "\",\"type\":\"edit\",\"namespace\":"@ + decimal_text(
        draw.namespace as nat,
    ) + ",\"timestamp\":"@
}

/// The JSON text of an event.
pub open spec fn event_text(draw: MockDraw, seq: u64, unix_secs: u64) -> Seq<char> {
    event_head(draw, seq) + decimal_text(unix_secs as nat) + "}"@
}

/// The title of the event of this number.
pub open spec fn title_text(seq: u64) -> Seq<char> {
    "Page_"@ + decimal_text(seq as nat)
}

/// The text stands in a JSON string as it is: nothing in it has to be escaped.
pub open spec fn is_plain(text: Seq<char>) -> bool {
    forall|i: int|
        0 <= i < text.len() ==> ' ' <= #[trigger] text[i] && text[i] != '"' && text[i] != '\\'
}

proof fn lemma_decimal_is_plain(n: nat)
    ensures
        is_plain(decimal_text(n)),
    decreases n,
{
    reveal_strlit("0");
    reveal_strlit("1");
    reveal_strlit("2");
    reveal_strlit("3");
    reveal_strlit("4");
    reveal_strlit("5");
    reveal_strlit("6");
    reveal_strlit("7");
    reveal_strlit("8");
    reveal_strlit("9");
    assert(is_plain(digit_text(n % 10)));
    if n >= 10 {
        lemma_decimal_is_plain(n / 10);
        let text = decimal_text(n);
        let head = decimal_text(n / 10);
        assert forall|i: int| 0 <= i < text.len() implies ' ' <= #[trigger] text[i] && text[i]
            != '"' && text[i] != '\\' by {
            if i < head.len() {
                assert(text[i] == head[i]);
            } else {
                assert(text[i] == digit_text(n % 10)[i - head.len()]);
            }
        }
    }
}

/// Every string in an event is plain: its characters stand between the quotes
/// as they are.
pub proof fn lemma_event_strings_are_plain(draw: MockDraw, seq: u64)
    ensures
        is_plain(draw.user_text()),
        is_plain(known_domain_text(draw.domain as int)),
        is_plain(title_text(seq)),
        is_plain("edit"@),
{
    reveal_strlit("Alice");
    reveal_strlit("Bob_wiki");
    reveal_strlit("Carol");
    reveal_strlit("Dave42");
    reveal_strlit("Eve_Editor");
    reveal_strlit("ClueBot_NG");
    reveal_strlit("AntiVandal");
    reveal_strlit("PageMover_bot");
    reveal_strlit("RefBot");
    reveal_strlit("edit");
    reveal_strlit("Page_");
    lemma_known_domain_is_plain(draw.domain as int);
    lemma_decimal_is_plain(seq as nat);
    let title = title_text(seq);
    assert forall|i: int| 0 <= i < title.len() implies ' ' <= #[trigger] title[i] && title[i] != '"'
        && title[i] != '\\' by {
        if i >= 5 {
            assert(title[i] == decimal_text(seq as nat)[i - 5]);
        } else {
            assert(title[i] == "Page_"@[i]);
        }
    }
}

proof fn lemma_known_domain_is_plain(slot: int)
    ensures
        is_plain(known_domain_text(slot)),
{
    reveal_strlit("en.wikipedia.org");
    reveal_strlit("de.wikipedia.org");
    reveal_strlit("fr.wikipedia.org");
    reveal_strlit("es.wikipedia.org");
    reveal_strlit("ru.wikipedia.org");
    reveal_strlit("ja.wikipedia.org");
    reveal_strlit("zh.wikipedia.org");
    reveal_strlit("pt.wikipedia.org");
    reveal_strlit("it.wikipedia.org");
    reveal_strlit("nl.wikipedia.org");
}

/// Events of different numbers have different titles.
pub proof fn lemma_titles_differ(i: u64, j: u64)
    requires
        i != j,
    ensures
        title_text(i) != title_text(j),
{
    lemma_decimal_denotes(i as nat);
    lemma_decimal_denotes(j as nat);
    let n = "Page_"@.len() as int;
    assert(title_text(i).skip(n) =~= decimal_text(i as nat));
    assert(title_text(j).skip(n) =~= decimal_text(j as nat));
}

/// The event that was read says what the event of this draw and number says.
pub open spec fn says(change: &WikiChange<'_>, draw: MockDraw, seq: u64, unix_secs: u64) -> bool {
    &&& change.user matches Some(user) && user@ == draw.user_text()
    &&& change.bot == draw.is_bot
    &&& change.server_name matches Some(domain) && domain@ == known_domain_text(draw.domain as int)
    &&& change.title matches Some(title) && title@ == title_text(seq)
    &&& change.change_type matches Some(kind) && kind@ == "edit"@
    &&& change.namespace == Some(draw.namespace as i64)
    &&& change.timestamp == Some(unix_secs as i64)
}

/// A user of the stream, by priority: a bot for a low one, a human editor for a
/// high one.
pub open spec fn is_user_of(priority: Priority, user: Seq<char>) -> bool {
    match priority {
        Priority::Low => exists|i: int| 0 <= i < BOT_USERS && user == #[trigger] bot_user_text(i),
        Priority::High => exists|i: int|
            0 <= i < HUMAN_USERS && user == #[trigger] human_user_text(i),
    }
}

/// The packet of a mock event that was read back is an edit of a known domain,
/// by a user of its priority, of the page that its number gives.
pub proof fn lemma_mock_event_becomes_packet(
    draw: MockDraw,
    seq: u64,
    unix_secs: u64,
    change: WikiChange<'_>,
    packet: ChangePacket,
    now_ns: u64,
)
    requires
        draw.wf(),
        says(&change, draw, seq, unix_secs),
        packet.made_from(&change, now_ns),
    ensures
        is_change(Some(change)),
        is_known(packet.server_name@),
        packet.server_name@ == known_domain_text(draw.domain as int),
        packet.change_type@ == "edit"@,
        packet.priority == (if draw.is_bot {
            Priority::Low
        } else {
            Priority::High
        }),
        is_user_of(packet.priority, packet.user@),
        packet.title@ == title_text(seq),
        packet.wiki_timestamp == unix_secs as i64,
{
    assert(known_domain_text(draw.domain as int) == packet.server_name@);
    if draw.is_bot {
        assert(packet.user@ == bot_user_text(draw.user as int));
    } else {
        assert(packet.user@ == human_user_text(draw.user as int));
    }
}

/// The JSON text of an event.
pub fn event_json(draw: &MockDraw, seq: u64, unix_secs: u64) -> (json: String)
    requires
        draw.wf(),
    ensures
        json@ == event_text(*draw, seq, unix_secs),
{
    let mut json = "{\"user\":\"".to_owned();
    json.append(draw.user_name());
    json.append("\",\"bot\":");
    json.append(bool_name(draw.is_bot));
    json.append(",\"server_name\":\"");
    json.append(known_domain(draw.domain));
    json.append("\",\"title\":\"Page_");
    json.append(decimal(seq as u128).as_str());
    json.append("\",\"type\":\"edit\",\"namespace\":");
    json.append(decimal(draw.namespace as u128).as_str());
    json.append(",\"timestamp\":");
    json.append(decimal(unix_secs as u128).as_str());
    json.append("}");
    json
}

/// Time between two events, in µs. A rate of 0 counts as 1.
pub open spec fn interval_of(events_per_second: u64) -> int {
    if events_per_second > 1 {
        1_000_000int / events_per_second as int
    } else {
        1_000_000
    }
}

/// A stream at the interval keeps its rate: a second holds as many intervals as
/// there are events in it, and at most the rest of a division more.
pub proof fn lemma_interval_keeps_rate(events_per_second: u64)
    requires
        events_per_second > 0,
    ensures
        interval_of(events_per_second) * events_per_second <= 1_000_000,
        1_000_000 < (interval_of(events_per_second) + 1) * events_per_second,
{
    let r = events_per_second as int;
    vstd::arithmetic::div_mod::lemma_fundamental_div_mod(1_000_000, r);
    let q = 1_000_000int / r;
    assert(q * r == r * q && (q + 1) * r == r * q + r) by (nonlinear_arith);
    vstd::arithmetic::div_mod::lemma_mod_bound(1_000_000, r);
    if r == 1 {
        assert(1_000_000int / 1int == 1_000_000);
    }
    assert(interval_of(events_per_second) == q);
}

/// Without a rate, and at one event a second, events come a second apart.
pub proof fn lemma_slowest_interval()
    ensures
        interval_of(0) == 1_000_000,
        interval_of(1) == 1_000_000,
{
}

/// Time between two events, in µs.
pub fn interval_us(events_per_second: u64) -> (us: u64)
    ensures
        us == interval_of(events_per_second),
{
    let rate: u64 = if events_per_second > 1 {
        events_per_second
    } else {
        1
    };
    1_000_000 / rate
}

/// State of a mock stream.
#[verifier::ext_equal]
pub struct MockState {
    /// Number of the next event.
    pub seq: u64,
    pub start_ns: u64,
    pub silence_window: Option<(u64, u64)>,
}

impl MockState {
    /// The stream is silent at this time.
    pub open spec fn is_silent(self, now_ns: u64) -> bool {
        match self.silence_window {
            Some(window) => in_window(window, self.start_ns, now_ns),
            None => false,
        }
    }

    /// The stream after one more event.
    pub open spec fn advanced(self) -> Self {
        MockState { seq: (self.seq + 1) as u64, ..self }
    }

    /// The stream after `n` more events.
    pub open spec fn advanced_by(self, n: nat) -> Self
        decreases n,
    {
        if n == 0 {
            self
        } else {
            self.advanced_by((n - 1) as nat).advanced()
        }
    }

    /// The text of the next event, or none in the silence window.
    pub open spec fn event(self, draw: MockDraw, now_ns: u64, unix_secs: u64) -> Option<
        Seq<char>,
    > {
        if self.is_silent(now_ns) {
            None
        } else {
            Some(event_text(draw, self.seq, unix_secs))
        }
    }
}

/// Two streams that have just started and have the same seed send the same
/// events: where both send their `i`-th event, and without a silence window
/// they do, the two texts agree but for the timestamp, whenever they are sent.
/// Numbers go up by one with each event.
pub proof fn lemma_runs_of_one_seed_agree(
    a: MockState,
    b: MockState,
    seed: u64,
    vary_namespace: bool,
    i: u64,
    a_ns: u64,
    a_secs: u64,
    b_ns: u64,
    b_secs: u64,
)
    requires
        a.seq == 0,
        b.seq == 0,
    ensures
        ({
            let s = a.advanced_by(i as nat);
            let t = b.advanced_by(i as nat);
            let x = s.event(event_draw(seed, s.seq, vary_namespace), a_ns, a_secs);
            let y = t.event(event_draw(seed, t.seq, vary_namespace), b_ns, b_secs);
            let head = event_head(event_draw(seed, i, vary_namespace), i);
            &&& s.seq == i && t.seq == i
            &&& a.silence_window is None ==> x is Some
            &&& b.silence_window is None ==> y is Some
            &&& x matches Some(text) ==> text == head + decimal_text(a_secs as nat) + "}"@
            &&& y matches Some(text) ==> text == head + decimal_text(b_secs as nat) + "}"@
        }),
{
    lemma_advanced_by(a, i as nat);
    lemma_advanced_by(b, i as nat);
}

proof fn lemma_advanced_by(s: MockState, n: nat)
    requires
        s.seq + n <= u64::MAX,
    ensures
        s.advanced_by(n) == (MockState { seq: (s.seq + n) as u64, ..s }),
    decreases n,
{
    if n > 0 {
        lemma_advanced_by(s, (n - 1) as nat);
    }
}

/// A synthetic stream.
pub struct MockStream {
    seq: u64,
    start_ns: u64,
    silence_window: Option<(u64, u64)>,
}

impl View for MockStream {
    type V = MockState;

    closed spec fn view(&self) -> MockState {
        MockState {
            seq: self.seq,
            start_ns: self.start_ns,
            silence_window: self.silence_window,
        }
    }
}

impl MockStream {
    /// A stream that starts at `now_ns`. Its silence window is measured from
    /// `program_start`, or from its own start where there is none.
    pub fn new(
        silence_window: Option<(u64, u64)>,
        program_start: Option<u64>,
        now_ns: u64,
    ) -> (stream: Self)
        ensures
            stream@ == (MockState {
                seq: 0,
                start_ns: (match program_start {
                    Some(start) => start,
                    None => now_ns,
                }),
                silence_window,
            }),
    {
        MockStream { seq: 0, start_ns: program_start.unwrap_or(now_ns), silence_window }
    }

    /// Number of the next event.
    pub fn seq(&self) -> (seq: u64)
        ensures
            seq == self@.seq,
    {
        self.seq
    }

    /// The next event, at `now_ns`, or none in the silence window. Numbers go
    /// on also while the stream is silent.
    pub fn next_event(&mut self, draw: &MockDraw, now_ns: u64, unix_secs: u64) -> (json: Option<
        String,
    >)
        requires
            draw.wf(),
            old(self)@.seq < u64::MAX,
        ensures
            final(self)@ == old(self)@.advanced(),
            json is Some <==> old(self)@.event(*draw, now_ns, unix_secs) is Some,
            json matches Some(text) ==> Some(text@) == old(self)@.event(*draw, now_ns, unix_secs),
    {
        let seq: u64 = self.seq;
        self.seq = seq + 1;
        let silent = match self.silence_window {
            Some(window) => window_covers(window, self.start_ns, now_ns),
            None => false,
        };
        if silent {
            None
        } else {
            Some(event_json(draw, seq, unix_secs))
        }
    }

    /// The next event of a stream of this seed, at `now_ns`, or none in the
    /// silence window.
    pub fn next_seeded_event(
        &mut self,
        seed: u64,
        vary_namespace: bool,
        now_ns: u64,
        unix_secs: u64,
    ) -> (json: Option<String>)
        requires
            old(self)@.seq < u64::MAX,
        ensures
            final(self)@ == old(self)@.advanced(),
            event_draw(seed, old(self)@.seq, vary_namespace).wf(),
            ({
                let event = old(self)@.event(
                    event_draw(seed, old(self)@.seq, vary_namespace),
                    now_ns,
                    unix_secs,
                );
                &&& json is Some <==> event is Some
                &&& json matches Some(text) ==> Some(text@) == event
            }),
    {
        let draw = draw_event(seed, self.seq, vary_namespace);
        self.next_event(&draw, now_ns, unix_secs)
    }
}

/// A stream is silent exactly in its window, counted from its start.
pub proof fn lemma_silence(s: MockState, draw: MockDraw, now_ns: u64, unix_secs: u64)
    requires
        s.start_ns <= now_ns,
    ensures
        s.event(draw, now_ns, unix_secs) is None <==> (s.silence_window matches Some(w)
            && s.start_ns + w.0 <= now_ns < s.start_ns + w.1),
        s.event(draw, now_ns, unix_secs) matches Some(text) ==> text == event_text(
            draw,
            s.seq,
            unix_secs,
        ),
        s.seq < u64::MAX ==> s.advanced().seq == s.seq + 1,
        s.advanced().start_ns == s.start_ns && s.advanced().silence_window == s.silence_window,
{
}

/// What the draws of an event decide: with odds of four in five a bot, any of the
/// ten domains, any of the four bots or five editors, and, where namespaces vary,
/// with odds of three in ten one of the spaces 1 to 14 in place of 0.
pub proof fn lemma_odds(seed: u64, seq: u64)
    ensures
        ({
            let d = event_draw(seed, seq, true);
            let e = event_draw(seed, seq, false);
            &&& d.is_bot == seeded_ratio(draw_seed(seed, seq, 5, 0), 4, 5)
            &&& d.domain == seeded_range(draw_seed(seed, seq, 5, 1), 0, 10) as usize
            &&& d.user == seeded_range(
                draw_seed(seed, seq, 5, 2),
                0,
                if d.is_bot {
                    4
                } else {
                    5
                },
            ) as usize
            &&& seeded_ratio(draw_seed(seed, seq, 5, 3), 7, 10) ==> d.namespace == 0
            &&& !seeded_ratio(draw_seed(seed, seq, 5, 3), 7, 10) ==> d.namespace == seeded_range(
                draw_seed(seed, seq, 5, 4),
                1,
                15,
            )
            &&& e == (MockDraw { namespace: 0, ..d })
        }),
{
}

/// The users, by kind and number.
pub proof fn lemma_users(draw: MockDraw)
    ensures
        draw.is_bot ==> draw.user_text() == bot_user_text(draw.user as int),
        !draw.is_bot ==> draw.user_text() == human_user_text(draw.user as int),
        human_user_text(0) == "Alice"@,
        human_user_text(1) == "Bob_wiki"@,
        human_user_text(2) == "Carol"@,
        human_user_text(3) == "Dave42"@,
        human_user_text(4) == "Eve_Editor"@,
        bot_user_text(0) == "ClueBot_NG"@,
        bot_user_text(1) == "AntiVandal"@,
        bot_user_text(2) == "PageMover_bot"@,
        bot_user_text(3) == "RefBot"@,
{
}

/// A text between quotes.
pub open spec fn quoted(text: Seq<char>) -> Seq<char> {
    seq!['"'] + text + seq!['"']
}

/// The text of a JSON object with these members, up to its closing brace.
pub open spec fn opened_object(fields: Seq<(Seq<char>, Seq<char>)>) -> Seq<char>
    decreases fields.len(),
{
    if fields.len() == 0 {
        seq!['{']
    } else {
        let before = opened_object(fields.drop_last());
        (if fields.len() == 1 {
            before
        } else {
            before + seq![',']
        }) + quoted(fields.last().0) + seq![':'] + fields.last().1
    }
}

proof fn lemma_object_grows(fields: Seq<(Seq<char>, Seq<char>)>, name: Seq<char>, value: Seq<char>)
    ensures
        fields.len() == 0 ==> opened_object(fields.push((name, value))) == seq!['{'] + quoted(name)
            + seq![':'] + value,
        fields.len() > 0 ==> opened_object(fields.push((name, value))) == opened_object(fields)
            + seq![','] + quoted(name) + seq![':'] + value,
{
    reveal_with_fuel(opened_object, 2);
    assert(fields.push((name, value)).drop_last() =~= fields);
}

proof fn lemma_regroup_first(p: Seq<char>, q: Seq<char>, r: Seq<char>, s: Seq<char>, v: Seq<char>)
    ensures
        p + q + r + (s + v + s) == (p + q + r + s) + v + s,
{
    assert(p + q + r + (s + v + s) =~= (p + q + r + s) + v + s);
}

proof fn lemma_regroup_quoted(
    t: Seq<char>,
    p: Seq<char>,
    q: Seq<char>,
    r: Seq<char>,
    s: Seq<char>,
    v: Seq<char>,
)
    ensures
        t + p + q + r + (s + v + s) == t + (p + q + r + s) + v + s,
{
    assert(t + p + q + r + (s + v + s) =~= t + (p + q + r + s) + v + s);
}

proof fn lemma_regroup_four(
    t: Seq<char>,
    s: Seq<char>,
    p: Seq<char>,
    q: Seq<char>,
    r: Seq<char>,
    v: Seq<char>,
)
    ensures
        (t + s) + p + q + r + v == t + (s + p + q + r) + v,
{
    assert((t + s) + p + q + r + v =~= t + (s + p + q + r) + v);
}

proof fn lemma_regroup_title(
    t: Seq<char>,
    s: Seq<char>,
    p: Seq<char>,
    q: Seq<char>,
    r: Seq<char>,
    w: Seq<char>,
    v: Seq<char>,
)
    ensures
        (t + s) + p + q + r + (s + (w + v) + s) == t + (s + p + q + r + s + w) + v + s,
{
    assert((t + s) + p + q + r + (s + (w + v) + s) =~= t + (s + p + q + r + s + w) + v + s);
}

proof fn lemma_regroup_two(
    t: Seq<char>,
    s: Seq<char>,
    p: Seq<char>,
    q: Seq<char>,
    r: Seq<char>,
    w: Seq<char>,
    z: Seq<char>,
    v: Seq<char>,
)
    ensures
        ((t + s) + p + q + r + w) + p + z + r + v == t + (s + p + q + r + w + p + z + r) + v,
{
    assert(((t + s) + p + q + r + w) + p + z + r + v =~= t + (s + p + q + r + w + p + z + r) + v);
}

proof fn lemma_regroup_last(t: Seq<char>, p: Seq<char>, q: Seq<char>, r: Seq<char>, v: Seq<char>)
    ensures
        t + p + q + r + v == t + (p + q + r) + v,
{
    assert(t + p + q + r + v =~= t + (p + q + r) + v);
}

/// An event is a JSON object of seven members: the user, whether it is a bot, the
/// domain, the title `Page_` with the event's number, the type `edit`, the
/// namespace and the timestamp.
pub proof fn lemma_event_is_json_object(draw: MockDraw, seq: u64, unix_secs: u64)
    ensures
        event_text(draw, seq, unix_secs) == opened_object(
            seq![
                ("user"@, quoted(draw.user_text())),
                ("bot"@, bool_text(draw.is_bot)),
                ("server_name"@, quoted(known_domain_text(draw.domain as int))),
                ("title"@, quoted("Page_"@ + decimal_text(seq as nat))),
                ("type"@, quoted("edit"@)),
                ("namespace"@, decimal_text(draw.namespace as nat)),
                ("timestamp"@, decimal_text(unix_secs as nat)),
            ],
        ) + seq!['}'],
{
    let a = draw.user_text();
    let b = bool_text(draw.is_bot);
    let c = known_domain_text(draw.domain as int);
    let d = decimal_text(seq as nat);
    let e = decimal_text(draw.namespace as nat);
    let f = decimal_text(unix_secs as nat);
    let q = seq!['"'];
    let comma = seq![','];
    let colon = seq![':'];
    lemma_event_pieces();
    let f0 = Seq::<(Seq<char>, Seq<char>)>::empty();
    let f1 = f0.push(("user"@, quoted(a)));
    let f2 = f1.push(("bot"@, b));
    let f3 = f2.push(("server_name"@, quoted(c)));
    let f4 = f3.push(("title"@, quoted("Page_"@ + d)));
    let f5 = f4.push(("type"@, quoted("edit"@)));
    let f6 = f5.push(("namespace"@, e));
    let f7 = f6.push(("timestamp"@, f));
    lemma_object_grows(f0, "user"@, quoted(a));
    lemma_object_grows(f1, "bot"@, b);
    lemma_object_grows(f2, "server_name"@, quoted(c));
    lemma_object_grows(f3, "title"@, quoted("Page_"@ + d));
    lemma_object_grows(f4, "type"@, quoted("edit"@));
    lemma_object_grows(f5, "namespace"@, e);
    lemma_object_grows(f6, "timestamp"@, f);
    let t1 = "{\"user\":\""@ + a;
    lemma_regroup_first(seq!['{'], quoted("user"@), colon, q, a);
    let t2 = t1 + "\",\"bot\":"@ + b;
    lemma_regroup_four(t1, q, comma, quoted("bot"@), colon, b);
    let t3 = t2 + ",\"server_name\":\""@ + c;
    lemma_regroup_quoted(t2, comma, quoted("server_name"@), colon, q, c);
    let t4 = t3 + "\",\"title\":\"Page_"@ + d;
    lemma_regroup_title(t3, q, comma, quoted("title"@), colon, "Page_"@, d);
    let t6 = t4 + "\",\"type\":\"edit\",\"namespace\":"@ + e;
    lemma_regroup_two(
        t4,
        q,
        comma,
        quoted("type"@),
        colon,
        quoted("edit"@),
        quoted("namespace"@),
        e,
    );
    lemma_regroup_last(t6, comma, quoted("timestamp"@), colon, f);
    assert(opened_object(f1) == t1 + q);
    assert(opened_object(f2) == t2);
    assert(opened_object(f3) == t3 + q);
    assert(opened_object(f4) == t4 + q);
    assert(opened_object(f6) == t6);
    assert(opened_object(f7) == t6 + ",\"timestamp\":"@ + f);
    assert(f7 =~= seq![
        ("user"@, quoted(a)),
        ("bot"@, b),
        ("server_name"@, quoted(c)),
        ("title"@, quoted("Page_"@ + d)),
        ("type"@, quoted("edit"@)),
        ("namespace"@, e),
        ("timestamp"@, f),
    ]);
}

proof fn lemma_event_pieces()
    ensures
        "{\"user\":\""@ == seq!['{'] + quoted("user"@) + seq![':'] + seq!['"'],
        "\",\"bot\":"@ == seq!['"'] + seq![','] + quoted("bot"@) + seq![':'],
        ",\"server_name\":\""@ == seq![','] + quoted("server_name"@) + seq![':'] + seq!['"'],
        "\",\"title\":\"Page_"@ == seq!['"'] + seq![','] + quoted("title"@) + seq![':'] + seq!['"']
            + "Page_"@,
        "\",\"type\":\"edit\",\"namespace\":"@ == seq!['"'] + seq![','] + quoted("type"@)
            + seq![':'] + quoted("edit"@) + seq![','] + quoted("namespace"@) + seq![':'],
        ",\"timestamp\":"@ == seq![','] + quoted("timestamp"@) + seq![':'],
        "}"@ == seq!['}'],
{
    reveal_strlit("{\"user\":\"");
    reveal_strlit("\",\"bot\":");
    reveal_strlit(",\"server_name\":\"");
    reveal_strlit("\",\"title\":\"Page_");
    reveal_strlit("\",\"type\":\"edit\",\"namespace\":");
    reveal_strlit(",\"timestamp\":");
    reveal_strlit("}");
    reveal_strlit("user");
    reveal_strlit("bot");
    reveal_strlit("server_name");
    reveal_strlit("title");
    reveal_strlit("Page_");
    reveal_strlit("type");
    reveal_strlit("edit");
    reveal_strlit("namespace");
    reveal_strlit("timestamp");
    assert("{\"user\":\""@ =~= seq!['{'] + quoted("user"@) + seq![':'] + seq!['"']);
    assert("\",\"bot\":"@ =~= seq!['"'] + seq![','] + quoted("bot"@) + seq![':']);
    assert(",\"server_name\":\""@ =~= seq![','] + quoted("server_name"@) + seq![':'] + seq!['"']);
    assert("\",\"title\":\"Page_"@ =~= seq!['"'] + seq![','] + quoted("title"@) + seq![':'] + seq![
        '"',
    ] + "Page_"@);
    assert("\",\"type\":\"edit\",\"namespace\":"@ =~= seq!['"'] + seq![','] + quoted("type"@)
        + seq![':'] + quoted("edit"@) + seq![','] + quoted("namespace"@) + seq![':']);
    assert(",\"timestamp\":"@ =~= seq![','] + quoted("timestamp"@) + seq![':']);
    assert("}"@ =~= seq!['}']);
}

} // verus!
