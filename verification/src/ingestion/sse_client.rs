//! The client of the recent-changes stream.
//!
//! The stream is a sequence of blocks, each ended by an empty line:
//!
//! ```text
//! event: message
//! data: { ... }
//!
//! ```
//!
//! The decoder takes the bytes in whatever chunks they arrive, cuts them at the
//! double newlines and strips the `data:` prefix. The client decides when to
//! connect, to wait, to read and to end. It ends where it is asked to or where
//! the connection drops; its caller then starts the next one.

use vstd::prelude::*;
use vstd::slice::{slice_subrange, slice_to_vec};

use crate::component_e::watchdog::{Watchdog, WatchdogState};

verus! {

pub const WIKI_SSE_URL: &'static str = "https://stream.wikimedia.org/v2/stream/recentchange";

/// The byte `\n`.
pub const NEWLINE: u8 = 10;

/// The byte `{`.
pub const OPEN_BRACE: u8 = 123;

/// The byte of a blank.
pub const BLANK: u8 = 32;

/// Wait after a connection that could not be made, in ms.
pub const CONNECT_RETRY_MS: u64 = 3_000;

/// Wait after a connection that dropped, in ms.
pub const STREAM_RETRY_MS: u64 = 2_000;

/// A double newline stands at `i`.
pub open spec fn is_break(s: Seq<u8>, i: int) -> bool {
    0 <= i && i + 1 < s.len() && s[i] == NEWLINE && s[i + 1] == NEWLINE
}

/// `i` is where the first double newline stands.
pub open spec fn is_first_break(s: Seq<u8>, i: int) -> bool {
    is_break(s, i) && forall|k: int| k < i ==> !is_break(s, k)
}

/// There is a double newline.
pub open spec fn has_break(s: Seq<u8>) -> bool {
    exists|i: int| is_first_break(s, i)
}

/// Where the first double newline stands.
pub open spec fn first_break(s: Seq<u8>) -> int {
    choose|i: int| is_first_break(s, i)
}

proof fn lemma_first_break(s: Seq<u8>, i: int)
    requires
        is_first_break(s, i),
    ensures
        has_break(s),
        first_break(s) == i,
{
    let j = first_break(s);
    assert(is_first_break(s, j));
    if j < i {
        assert(!is_break(s, j));
    }
    if i < j {
        assert(!is_break(s, i));
    }
}

/// Position of the first `\n\n`.
pub fn find_double_newline(buf: &[u8]) -> (pos: Option<usize>)
    ensures
        pos matches Some(p) ==> is_first_break(buf@, p as int),
        pos is None ==> forall|k: int| !is_break(buf@, k),
{
    let mut i: usize = 0;
    while i < buf.len() && i + 1 < buf.len()
        invariant
            i <= buf.len(),
            forall|k: int| k < i ==> !is_break(buf@, k),
        decreases buf.len() - i,
    {
        if buf[i] == NEWLINE && buf[i + 1] == NEWLINE {
            assert(is_break(buf@, i as int));
            return Some(i);
        }
        assert(!is_break(buf@, i as int));
        i += 1;
    }
    None
}

/// The bytes of the marker `data:`.
pub open spec fn data_marker() -> Seq<u8> {
    seq![100u8, 97u8, 116u8, 97u8, 58u8]
}

/// What a line says after `data: ` or `data:`, if it starts with one of them.
pub open spec fn data_field(line: Seq<u8>) -> Option<Seq<u8>> {
    if data_marker().push(BLANK).is_prefix_of(line) {
        Some(line.skip(6))
    } else if data_marker().is_prefix_of(line) {
        Some(line.skip(5))
    } else {
        None
    }
}

/// The JSON object that a line carries: a data field that starts with `{`.
pub open spec fn line_payload(line: Seq<u8>) -> Option<Seq<u8>> {
    match data_field(line) {
        Some(json) => if json.len() > 0 && json[0] == OPEN_BRACE {
            Some(json)
        } else {
            None
        },
        None => None,
    }
}

/// Where the line that starts at `from` ends: at the next newline, or at the
/// end of the block.
pub open spec fn line_end(block: Seq<u8>, from: int) -> int
    decreases block.len() - from,
{
    if from >= block.len() || block[from] == NEWLINE {
        from
    } else {
        line_end(block, from + 1)
    }
}

proof fn lemma_line_end(block: Seq<u8>, from: int)
    requires
        0 <= from <= block.len(),
    ensures
        from <= line_end(block, from) <= block.len(),
        line_end(block, from) < block.len() ==> block[line_end(block, from)] == NEWLINE,
        forall|k: int| from <= k < line_end(block, from) ==> #[trigger] block[k] != NEWLINE,
    decreases block.len() - from,
{
    if from < block.len() && block[from] != NEWLINE {
        lemma_line_end(block, from + 1);
    }
}

/// The payload of the first line, from `from` on, that carries one.
pub open spec fn payload_from(block: Seq<u8>, from: int) -> Option<Seq<u8>>
    decreases block.len() - from,
    when 0 <= from <= block.len()
    via payload_from_decreases
{
    let end = line_end(block, from);
    match line_payload(block.subrange(from, end)) {
        Some(json) => Some(json),
        None => if end >= block.len() {
            None
        } else {
            payload_from(block, end + 1)
        },
    }
}

#[via_fn]
proof fn payload_from_decreases(block: Seq<u8>, from: int) {
    lemma_line_end(block, from);
}

/// The payload of a block.
pub open spec fn block_payload(block: Seq<u8>) -> Option<Seq<u8>> {
    payload_from(block, 0)
}

/// The JSON of the first line of the block that carries one, without its
/// prefix.
pub fn extract_data_line(block: &[u8]) -> (json: Option<&[u8]>)
    ensures
        json is Some <==> block_payload(block@) is Some,
        json matches Some(j) ==> block_payload(block@) == Some(j@),
{
    let n: usize = block.len();
    let mut from: usize = 0;
    loop
        invariant
            n == block.len(),
            from <= n,
            block_payload(block@) == payload_from(block@, from as int),
        decreases n - from,
    {
        let mut end: usize = from;
        while end < n && block[end] != NEWLINE
            invariant
                n == block.len(),
                from <= end <= n,
                line_end(block@, from as int) == line_end(block@, end as int),
            decreases n - end,
        {
            end += 1;
        }
        let line = slice_subrange(block, from, end);
        assert(line@ == block@.subrange(from as int, line_end(block@, from as int)));
        if let Some(json) = strip_data_marker(line) {
            if json.len() > 0 && json[0] == OPEN_BRACE {
                return Some(json);
            }
        }
        if end >= n {
            return None;
        }
        from = end + 1;
    }
}

/// What the line says after its `data:` marker.
fn strip_data_marker(line: &[u8]) -> (field: Option<&[u8]>)
    ensures
        field is Some <==> data_field(line@) is Some,
        field matches Some(f) ==> data_field(line@) == Some(f@),
{
    let n: usize = line.len();
    if n < 5 || line[0] != 100 || line[1] != 97 || line[2] != 116 || line[3] != 97 || line[4]
        != 58 {
        proof {
            if data_marker().is_prefix_of(line@) {
                assert(data_marker() =~= line@.subrange(0, 5));
                assert(line@.subrange(0, 5)[0] == line@[0]);
                assert(line@.subrange(0, 5)[1] == line@[1]);
                assert(line@.subrange(0, 5)[2] == line@[2]);
                assert(line@.subrange(0, 5)[3] == line@[3]);
                assert(line@.subrange(0, 5)[4] == line@[4]);
            }
            if data_marker().push(BLANK).is_prefix_of(line@) {
                assert(data_marker().push(BLANK) =~= line@.subrange(0, 6));
                assert(line@.subrange(0, 6)[0] == line@[0]);
                assert(line@.subrange(0, 6)[1] == line@[1]);
                assert(line@.subrange(0, 6)[2] == line@[2]);
                assert(line@.subrange(0, 6)[3] == line@[3]);
                assert(line@.subrange(0, 6)[4] == line@[4]);
            }
        }
        return None;
    }
    assert(data_marker() =~= line@.subrange(0, 5));
    if n >= 6 && line[5] == BLANK {
        assert(data_marker().push(BLANK) =~= line@.subrange(0, 6));
        let field = slice_subrange(line, 6, n);
        assert(field@ =~= line@.skip(6));
        Some(field)
    } else {
        proof {
            if data_marker().push(BLANK).is_prefix_of(line@) {
                assert(data_marker().push(BLANK) =~= line@.subrange(0, 6));
                assert(line@.subrange(0, 6)[5] == line@[5]);
            }
        }
        let field = slice_subrange(line, 5, n);
        assert(field@ =~= line@.skip(5));
        Some(field)
    }
}

/// The payloads of the complete blocks, in order.
pub open spec fn payloads(s: Seq<u8>) -> Seq<Seq<u8>>
    decreases s.len(),
{
    if has_break(s) && 0 <= first_break(s) && first_break(s) + 2 <= s.len() {
        let cut = first_break(s) + 2;
        let rest = payloads(s.skip(cut));
        match block_payload(s.take(cut)) {
            Some(json) => seq![json] + rest,
            None => rest,
        }
    } else {
        Seq::empty()
    }
}

/// What comes after the last complete block.
pub open spec fn leftover(s: Seq<u8>) -> Seq<u8>
    decreases s.len(),
{
    if has_break(s) && 0 <= first_break(s) && first_break(s) + 2 <= s.len() {
        leftover(s.skip(first_break(s) + 2))
    } else {
        s
    }
}

/// How the bytes were cut into chunks makes no difference: decoding `s` and
/// then, behind what was left over, `t`, gives what decoding `s + t` gives.
pub proof fn lemma_chunking_is_irrelevant(s: Seq<u8>, t: Seq<u8>)
    ensures
        payloads(s + t) == payloads(s) + payloads(leftover(s) + t),
        leftover(s + t) == leftover(leftover(s) + t),
    decreases s.len(),
{
    if has_break(s) {
        let p = first_break(s);
        let cut = p + 2;
        assert(is_first_break(s, p));
        assert(is_first_break(s + t, p)) by {
            assert forall|k: int| k < p implies !is_break(s + t, k) by {
                assert(!is_break(s, k));
            }
        }
        lemma_first_break(s + t, p);
        assert((s + t).take(cut) =~= s.take(cut));
        assert((s + t).skip(cut) =~= s.skip(cut) + t);
        lemma_chunking_is_irrelevant(s.skip(cut), t);
        let rest = payloads(s.skip(cut)) + payloads(leftover(s) + t);
        match block_payload(s.take(cut)) {
            Some(json) => {
                assert(payloads(s + t) =~= seq![json] + rest);
                assert(payloads(s) + payloads(leftover(s) + t) =~= seq![json] + rest);
            },
            None => {},
        }
    } else {
        assert(payloads(s) + payloads(s + t) =~= payloads(s + t));
    }
}

/// What is left over holds no complete block.
pub proof fn lemma_leftover_is_incomplete(s: Seq<u8>)
    ensures
        forall|k: int| !is_break(leftover(s), k),
        leftover(s).len() <= s.len(),
        payloads(leftover(s)).len() == 0,
    decreases s.len(),
{
    if has_break(s) {
        assert(is_first_break(s, first_break(s)));
        lemma_leftover_is_incomplete(s.skip(first_break(s) + 2));
    } else {
        assert forall|k: int| !is_break(s, k) by {
            if is_break(s, k) {
                lemma_some_break_is_first(s, k);
            }
        }
    }
}

proof fn lemma_some_break_is_first(s: Seq<u8>, k: int)
    requires
        is_break(s, k),
    ensures
        has_break(s),
    decreases k,
{
    if exists|j: int| j < k && is_break(s, j) {
        let j = choose|j: int| j < k && is_break(s, j);
        lemma_some_break_is_first(s, j);
    } else {
        assert(is_first_break(s, k));
    }
}

/// The bytes of the line `event: message`, with its newline.
pub open spec fn event_line() -> Seq<u8> {
    seq![101u8, 118u8, 101u8, 110u8, 116u8, 58u8, 32u8, 109u8, 101u8, 115u8, 115u8, 97u8, 103u8,
        101u8, 10u8]
}

/// The block in which the stream sends a JSON text.
pub open spec fn wire_block(json: Seq<u8>) -> Seq<u8> {
    event_line() + data_marker().push(BLANK) + json + seq![NEWLINE, NEWLINE]
}

/// The blocks of the JSON texts, one behind the other.
pub open spec fn wire(jsons: Seq<Seq<u8>>) -> Seq<u8>
    decreases jsons.len(),
{
    if jsons.len() == 0 {
        Seq::empty()
    } else {
        wire(jsons.drop_last()) + wire_block(jsons.last())
    }
}

/// A JSON object on a single line.
pub open spec fn is_json_line(json: Seq<u8>) -> bool {
    &&& json.len() > 0
    &&& json[0] == OPEN_BRACE
    &&& forall|i: int| 0 <= i < json.len() ==> #[trigger] json[i] != NEWLINE
}

proof fn lemma_line_end_is(block: Seq<u8>, from: int, end: int)
    requires
        0 <= from <= end < block.len(),
        block[end] == NEWLINE,
        forall|k: int| from <= k < end ==> #[trigger] block[k] != NEWLINE,
    ensures
        line_end(block, from) == end,
    decreases end - from,
{
    if from < end {
        lemma_line_end_is(block, from + 1, end);
    }
}

proof fn lemma_wire_block(json: Seq<u8>)
    requires
        is_json_line(json),
    ensures
        payloads(wire_block(json)) == seq![json],
        leftover(wire_block(json)) == Seq::<u8>::empty(),
{
    let w = wire_block(json);
    let n = json.len() as int;
    let head = event_line() + data_marker().push(BLANK);
    assert(head.len() == 21);
    assert(w.len() == 23 + n);
    assert forall|k: int| 21 <= k < 21 + n implies #[trigger] w[k] != NEWLINE by {
        assert(w[k] == json[k - 21]);
    }
    assert forall|k: int| 0 <= k < 21 implies #[trigger] w[k] == head[k] by {}
    assert(forall|k: int| 0 <= k < 15 ==> #[trigger] head[k] == event_line()[k]);
    assert(forall|k: int| 15 <= k < 21 ==> #[trigger] head[k] == data_marker().push(BLANK)[k - 15]);
    assert(is_first_break(w, 21 + n)) by {
        assert forall|k: int| k < 21 + n implies !is_break(w, k) by {
            if 0 <= k < 21 {
                assert(w[k] == head[k]);
                if k == 14 {
                    assert(w[15] == 100);
                }
            }
        }
    }
    lemma_first_break(w, 21 + n);
    assert(w.take(23 + n) =~= w);
    assert(w.skip(23 + n) =~= Seq::<u8>::empty());
    lemma_line_end_is(w, 0, 14);
    let first = w.subrange(0, 14);
    assert(first[0] == 101);
    assert(data_field(first) is None) by {
        if data_marker().is_prefix_of(first) {
            assert(data_marker() =~= first.subrange(0, 5));
            assert(data_marker()[0] == first.subrange(0, 5)[0]);
        }
        if data_marker().push(BLANK).is_prefix_of(first) {
            assert(data_marker().push(BLANK) =~= first.subrange(0, 6));
            assert(data_marker().push(BLANK)[0] == first.subrange(0, 6)[0]);
        }
    }
    lemma_line_end_is(w, 15, 21 + n);
    let second = w.subrange(15, 21 + n);
    assert(second.subrange(0, 6) =~= data_marker().push(BLANK));
    assert(second.skip(6) =~= json);
    assert(payload_from(w, 15) == Some(json));
    assert(block_payload(w) == Some(json));
    let none = Seq::<u8>::empty();
    assert(!has_break(none)) by {
        if has_break(none) {
            assert(is_break(none, first_break(none)));
        }
    }
    assert(seq![json] + payloads(none) =~= seq![json]);
    assert(leftover(none) == none);
    assert(leftover(w) == leftover(w.skip(23 + n)));
}

/// The decoder gives back what the stream sent: from the blocks of any JSON
/// objects, each on a line of its own, come those objects, in order, and
/// nothing is left over.
pub proof fn lemma_wire_round_trip(jsons: Seq<Seq<u8>>)
    requires
        forall|i: int| 0 <= i < jsons.len() ==> is_json_line(#[trigger] jsons[i]),
    ensures
        payloads(wire(jsons)) == jsons,
        leftover(wire(jsons)) == Seq::<u8>::empty(),
    decreases jsons.len(),
{
    if jsons.len() > 0 {
        let before = jsons.drop_last();
        assert forall|i: int| 0 <= i < before.len() implies is_json_line(#[trigger] before[i]) by {
            assert(before[i] == jsons[i]);
        }
        lemma_wire_round_trip(before);
        assert(is_json_line(jsons[jsons.len() - 1]));
        lemma_wire_block(jsons.last());
        lemma_chunking_is_irrelevant(wire(before), wire_block(jsons.last()));
        assert(Seq::<u8>::empty() + wire_block(jsons.last()) =~= wire_block(jsons.last()));
        assert(before + seq![jsons.last()] =~= jsons);
    } else {
        let none = Seq::<u8>::empty();
        assert(!has_break(none)) by {
            if has_break(none) {
                assert(is_break(none, first_break(none)));
            }
        }
        assert(payloads(none) =~= jsons);
    }
}

/// The lines, each with its newline.
pub open spec fn joined_lines(lines: Seq<Seq<u8>>) -> Seq<u8>
    decreases lines.len(),
{
    if lines.len() == 0 {
        Seq::empty()
    } else {
        lines[0] + seq![10u8] + joined_lines(lines.skip(1))
    }
}

/// No newline stands in the line.
pub open spec fn is_single_line(line: Seq<u8>) -> bool {
    forall|i: int| 0 <= i < line.len() ==> #[trigger] line[i] != 10
}

/// The line is `data: ` or `data:` and then a text that starts with `{`.
pub open spec fn carries(line: Seq<u8>, json: Seq<u8>) -> bool {
    &&& json.len() > 0 && json[0] == 123
    &&& line == seq![100u8, 97u8, 116u8, 97u8, 58u8, 32u8] + json || line == seq![
        100u8,
        97u8,
        116u8,
        97u8,
        58u8,
    ] + json
}

proof fn lemma_line_payload(line: Seq<u8>, json: Seq<u8>)
    ensures
        line_payload(line) == Some(json) <==> carries(line, json),
{
    let short = seq![100u8, 97u8, 116u8, 97u8, 58u8];
    let long = seq![100u8, 97u8, 116u8, 97u8, 58u8, 32u8];
    assert(data_marker() =~= short);
    assert(data_marker().push(BLANK) =~= long);
    if line_payload(line) == Some(json) {
        if long.is_prefix_of(line) {
            assert(long =~= line.subrange(0, 6));
            assert(line =~= long + json);
        } else {
            assert(short =~= line.subrange(0, 5));
            assert(line =~= short + json);
        }
    }
    if carries(line, json) {
        if line == long + json {
            assert(line.subrange(0, 6) =~= long);
            assert(line.skip(6) =~= json);
        } else {
            assert(line.subrange(0, 5) =~= short);
            assert(line.skip(5) =~= json);
            if long.is_prefix_of(line) {
                assert(long =~= line.subrange(0, 6));
                assert(line.subrange(0, 6)[5] == line[5]);
                assert(line[5] == json[0]);
            }
        }
    }
}

proof fn lemma_line_end_of_rest(block: Seq<u8>, from: int, k: int)
    requires
        0 <= from,
        0 <= k,
        from + k <= block.len(),
    ensures
        line_end(block, from + k) == from + line_end(block.skip(from), k),
    decreases block.len() - from - k,
{
    if from + k < block.len() && block[from + k] != NEWLINE {
        assert(block.skip(from)[k] == block[from + k]);
        lemma_line_end_of_rest(block, from, k + 1);
    } else if from + k < block.len() {
        assert(block.skip(from)[k] == block[from + k]);
    }
}

proof fn lemma_payload_of_rest(block: Seq<u8>, from: int, k: int)
    requires
        0 <= from,
        0 <= k,
        from + k <= block.len(),
    ensures
        payload_from(block, from + k) == payload_from(block.skip(from), k),
    decreases block.len() - from - k,
{
    let rest = block.skip(from);
    lemma_line_end_of_rest(block, from, k);
    lemma_line_end(rest, k);
    let end = line_end(rest, k);
    assert(block.subrange(from + k, from + end) =~= rest.subrange(k, end));
    if end < rest.len() {
        lemma_payload_of_rest(block, from, end + 1);
    }
}

proof fn lemma_line_end_at_end(block: Seq<u8>, from: int)
    requires
        0 <= from <= block.len(),
        forall|k: int| from <= k < block.len() ==> #[trigger] block[k] != NEWLINE,
    ensures
        line_end(block, from) == block.len(),
    decreases block.len() - from,
{
    if from < block.len() {
        lemma_line_end_at_end(block, from + 1);
    }
}

/// A first line without a payload is passed over.
proof fn lemma_line_is_passed_over(line: Seq<u8>, rest: Seq<u8>)
    requires
        is_single_line(line),
        forall|json: Seq<u8>| !carries(line, json),
    ensures
        block_payload(line + seq![10u8] + rest) == block_payload(rest),
{
    let block = line + seq![10u8] + rest;
    let n = line.len() as int;
    assert forall|k: int| 0 <= k < n implies #[trigger] block[k] != NEWLINE by {
        assert(block[k] == line[k]);
    }
    lemma_line_end_is(block, 0, n);
    assert(block.subrange(0, n) =~= line);
    if line_payload(line) is Some {
        lemma_line_payload(line, line_payload(line)->0);
    }
    lemma_payload_of_rest(block, n + 1, 0);
    assert(block.skip(n + 1) =~= rest);
}

/// The payload of a block is the JSON of the first line that carries one,
/// whatever the lines before it say and whatever comes after it.
pub proof fn lemma_first_data_line_is_payload(
    before: Seq<Seq<u8>>,
    line: Seq<u8>,
    json: Seq<u8>,
    rest: Seq<u8>,
)
    requires
        forall|i: int| 0 <= i < before.len() ==> is_single_line(#[trigger] before[i]),
        forall|i: int, other: Seq<u8>|
            0 <= i < before.len() ==> !#[trigger] carries(before[i], other),
        is_single_line(line),
        carries(line, json),
        rest.len() > 0 ==> rest[0] == 10,
    ensures
        block_payload(joined_lines(before) + line + rest) == Some(json),
    decreases before.len(),
{
    let block = joined_lines(before) + line + rest;
    if before.len() == 0 {
        assert(block =~= line + rest);
        let n = line.len() as int;
        assert forall|k: int| 0 <= k < n implies #[trigger] block[k] != NEWLINE by {
            assert(block[k] == line[k]);
        }
        if rest.len() > 0 {
            assert(block[n] == rest[0]);
            lemma_line_end_is(block, 0, n);
        } else {
            lemma_line_end_at_end(block, 0);
        }
        assert(block.subrange(0, n) =~= line);
        lemma_line_payload(line, json);
    } else {
        let tail = before.skip(1);
        assert forall|i: int| 0 <= i < tail.len() implies is_single_line(#[trigger] tail[i]) by {
            assert(tail[i] == before[i + 1]);
        }
        assert forall|i: int, other: Seq<u8>| 0 <= i < tail.len() implies !#[trigger] carries(
            tail[i],
            other,
        ) by {
            assert(!carries(before[i + 1], other));
        }
        lemma_first_data_line_is_payload(tail, line, json, rest);
        let inner = joined_lines(tail) + line + rest;
        assert(block =~= before[0] + seq![10u8] + inner);
        lemma_line_is_passed_over(before[0], inner);
    }
}

/// A block without a line that carries a payload has none.
pub proof fn lemma_no_data_line_no_payload(before: Seq<Seq<u8>>, line: Seq<u8>)
    requires
        forall|i: int| 0 <= i < before.len() ==> is_single_line(#[trigger] before[i]),
        forall|i: int, other: Seq<u8>|
            0 <= i < before.len() ==> !#[trigger] carries(before[i], other),
        is_single_line(line),
        forall|other: Seq<u8>| !carries(line, other),
    ensures
        block_payload(joined_lines(before) + line) is None,
    decreases before.len(),
{
    let block = joined_lines(before) + line;
    if before.len() == 0 {
        assert(block =~= line);
        lemma_line_end_at_end(block, 0);
        assert(block.subrange(0, block.len() as int) =~= line);
        if line_payload(line) is Some {
            lemma_line_payload(line, line_payload(line)->0);
        }
    } else {
        let tail = before.skip(1);
        assert forall|i: int| 0 <= i < tail.len() implies is_single_line(#[trigger] tail[i]) by {
            assert(tail[i] == before[i + 1]);
        }
        assert forall|i: int, other: Seq<u8>| 0 <= i < tail.len() implies !#[trigger] carries(
            tail[i],
            other,
        ) by {
            assert(!carries(before[i + 1], other));
        }
        lemma_no_data_line_no_payload(tail, line);
        let inner = joined_lines(tail) + line;
        assert(block =~= before[0] + seq![10u8] + inner);
        lemma_line_is_passed_over(before[0], inner);
    }
}

proof fn lemma_joined_lines_hold_no_break(lines: Seq<Seq<u8>>)
    requires
        forall|i: int| 0 <= i < lines.len() ==> is_single_line(#[trigger] lines[i]),
        forall|i: int| 0 <= i < lines.len() ==> (#[trigger] lines[i]).len() > 0,
    ensures
        forall|k: int| !is_break(joined_lines(lines), k),
        lines.len() > 0 ==> joined_lines(lines).len() > 1 && joined_lines(lines).last() == 10
            && joined_lines(lines)[0] != 10,
        lines.len() == 0 ==> joined_lines(lines).len() == 0,
    decreases lines.len(),
{
    if lines.len() > 0 {
        let tail = lines.skip(1);
        assert forall|i: int| 0 <= i < tail.len() implies is_single_line(#[trigger] tail[i]) by {
            assert(tail[i] == lines[i + 1]);
        }
        assert forall|i: int| 0 <= i < tail.len() implies (#[trigger] tail[i]).len() > 0 by {
            assert(tail[i] == lines[i + 1]);
        }
        lemma_joined_lines_hold_no_break(tail);
        let s = joined_lines(lines);
        let rest = joined_lines(tail);
        let n = lines[0].len() as int;
        assert(is_single_line(lines[0]));
        assert(s.len() == n + 1 + rest.len());
        assert(forall|k: int| 0 <= k < n ==> #[trigger] s[k] == lines[0][k]);
        assert(forall|k: int| n < k < s.len() ==> #[trigger] s[k] == rest[k - n - 1]);
        assert forall|k: int| !is_break(s, k) by {
            if is_break(s, k) {
                if k < n {
                    assert(s[k] == lines[0][k]);
                } else if k == n {
                    assert(s[n + 1] == rest[0]);
                } else {
                    assert(is_break(rest, k - n - 1));
                }
            }
        }
        assert(s[0] == lines[0][0]);
        if tail.len() > 0 {
            assert(s.last() == rest.last());
        }
    }
}

/// A stream is decoded block by block: a block, which is any number of lines
/// that are not empty and then an empty one, gives its payload, if it has one,
/// and what follows it is decoded as if it stood alone.
pub proof fn lemma_stream_is_decoded_by_blocks(lines: Seq<Seq<u8>>, rest: Seq<u8>)
    requires
        lines.len() > 0,
        forall|i: int| 0 <= i < lines.len() ==> is_single_line(#[trigger] lines[i]),
        forall|i: int| 0 <= i < lines.len() ==> (#[trigger] lines[i]).len() > 0,
    ensures
        ({
            let block = joined_lines(lines) + seq![10u8];
            &&& payloads(block + rest) == (match block_payload(block) {
                Some(json) => seq![json] + payloads(rest),
                None => payloads(rest),
            })
            &&& leftover(block + rest) == leftover(rest)
        }),
{
    let text = joined_lines(lines);
    let block = text + seq![10u8];
    let all = block + rest;
    let p = text.len() - 1;
    lemma_joined_lines_hold_no_break(lines);
    assert(forall|k: int| 0 <= k <= p ==> #[trigger] all[k] == text[k]);
    assert(all[p + 1] == 10);
    assert(is_first_break(all, p)) by {
        assert forall|k: int| k < p implies !is_break(all, k) by {
            if is_break(all, k) {
                assert(all[k] == text[k] && all[k + 1] == text[k + 1]);
                assert(is_break(text, k));
            }
        }
    }
    lemma_first_break(all, p);
    assert(all.take(p + 2) =~= block);
    assert(all.skip(p + 2) =~= rest);
}

/// Bytes without an empty line give nothing yet, and none of them is lost.
pub proof fn lemma_incomplete_block_waits(s: Seq<u8>)
    requires
        forall|i: int| 0 <= i && i + 1 < s.len() && #[trigger] s[i] == 10 ==> s[i + 1] != 10,
    ensures
        payloads(s) == Seq::<Seq<u8>>::empty(),
        leftover(s) == s,
{
    if has_break(s) {
        assert(is_break(s, first_break(s)));
    }
}

/// The message of a JSON text: any field lines, the line that carries it, any
/// further lines, and an empty one.
pub open spec fn message(before: Seq<Seq<u8>>, line: Seq<u8>, after: Seq<Seq<u8>>) -> Seq<u8> {
    joined_lines(before) + line + seq![10u8] + joined_lines(after) + seq![10u8]
}

/// A message gives its JSON text, whatever other fields it has, and what
/// follows it is decoded as if it stood alone.
pub proof fn lemma_message_gives_its_json(
    before: Seq<Seq<u8>>,
    line: Seq<u8>,
    json: Seq<u8>,
    after: Seq<Seq<u8>>,
    rest: Seq<u8>,
)
    requires
        forall|i: int| 0 <= i < before.len() ==> is_single_line(#[trigger] before[i]),
        forall|i: int| 0 <= i < before.len() ==> (#[trigger] before[i]).len() > 0,
        forall|i: int, other: Seq<u8>|
            0 <= i < before.len() ==> !#[trigger] carries(before[i], other),
        is_single_line(line),
        carries(line, json),
        forall|i: int| 0 <= i < after.len() ==> is_single_line(#[trigger] after[i]),
        forall|i: int| 0 <= i < after.len() ==> (#[trigger] after[i]).len() > 0,
    ensures
        payloads(message(before, line, after) + rest) == seq![json] + payloads(rest),
        leftover(message(before, line, after) + rest) == leftover(rest),
{
    let lines = before + seq![line] + after;
    let m = message(before, line, after);
    lemma_joined_concat(before, seq![line] + after);
    lemma_joined_concat(seq![line], after);
    assert(before + (seq![line] + after) =~= lines);
    assert(seq![line].skip(1) =~= Seq::<Seq<u8>>::empty());
    assert(joined_lines(seq![line].skip(1)) =~= Seq::<u8>::empty());
    assert(joined_lines(seq![line]) =~= line + seq![10u8]);
    assert(m =~= joined_lines(lines) + seq![10u8]);
    assert forall|i: int| 0 <= i < lines.len() implies is_single_line(#[trigger] lines[i])
        && lines[i].len() > 0 by {
        if i < before.len() {
            assert(lines[i] == before[i]);
        } else if i > before.len() {
            assert(lines[i] == after[i - before.len() - 1]);
        }
    }
    lemma_stream_is_decoded_by_blocks(lines, rest);
    let tail = seq![10u8] + joined_lines(after) + seq![10u8];
    lemma_first_data_line_is_payload(before, line, json, tail);
    assert(joined_lines(before) + line + tail =~= m);
}

proof fn lemma_joined_concat(a: Seq<Seq<u8>>, b: Seq<Seq<u8>>)
    ensures
        joined_lines(a + b) == joined_lines(a) + joined_lines(b),
    decreases a.len(),
{
    if a.len() == 0 {
        assert(a + b =~= b);
        assert(joined_lines(a) + joined_lines(b) =~= joined_lines(b));
    } else {
        lemma_joined_concat(a.skip(1), b);
        assert((a + b).skip(1) =~= a.skip(1) + b);
        assert((a + b)[0] == a[0]);
        assert(joined_lines(a + b) =~= joined_lines(a) + joined_lines(b));
    }
}

/// Takes a byte stream apart into the JSON objects that it carries.
pub struct SseDecoder {
    buf: Vec<u8>,
}

impl View for SseDecoder {
    type V = Seq<u8>;

    /// The bytes of the block that is not complete yet.
    closed spec fn view(&self) -> Seq<u8> {
        self.buf@
    }
}

/// The payloads as sequences of bytes.
pub open spec fn byte_views(v: Seq<Vec<u8>>) -> Seq<Seq<u8>> {
    v.map_values(|b: Vec<u8>| b@)
}

impl SseDecoder {
    pub fn new() -> (decoder: Self)
        ensures
            decoder@ == Seq::<u8>::empty(),
    {
        SseDecoder { buf: Vec::new() }
    }

    /// Takes in a chunk and hands out the payloads of the blocks that it
    /// completes.
    pub fn feed(&mut self, chunk: &[u8]) -> (jsons: Vec<Vec<u8>>)
        ensures
            byte_views(jsons@) == payloads(old(self)@ + chunk@),
            final(self)@ == leftover(old(self)@ + chunk@),
    {
        let ghost all = self.buf@ + chunk@;
        self.buf.extend_from_slice(chunk);
        assert(self.buf@ =~= all);
        let n: usize = self.buf.len();
        let mut jsons: Vec<Vec<u8>> = Vec::new();
        let mut start: usize = 0;
        assert(all.skip(0) =~= all);
        assert(byte_views(jsons@) + payloads(all.skip(0)) =~= payloads(all));
        loop
            invariant_except_break
                n == self.buf.len(),
                self.buf@ == all,
                start <= n,
                byte_views(jsons@) + payloads(all.skip(start as int)) == payloads(all),
                leftover(all.skip(start as int)) == leftover(all),
            ensures
                self.buf@ == all,
                start <= n,
                n == all.len(),
                byte_views(jsons@) == payloads(all),
                all.skip(start as int) == leftover(all),
            decreases n - start,
        {
            let rest = slice_subrange(self.buf.as_slice(), start, n);
            let ghost tail = all.skip(start as int);
            assert(rest@ =~= tail);
            match find_double_newline(rest) {
                Some(pos) => {
                    let cut: usize = pos + 2;
                    let block = slice_subrange(rest, 0, cut);
                    proof {
                        lemma_first_break(tail, pos as int);
                        assert(block@ =~= tail.take(cut as int));
                        assert(tail.skip(cut as int) =~= all.skip(start as int + cut as int));
                    }
                    let ghost done = jsons@;
                    match extract_data_line(block) {
                        Some(json) => {
                            jsons.push(slice_to_vec(json));
                            proof {
                                assert(byte_views(jsons@) =~= byte_views(done).push(json@));
                                assert(byte_views(done).push(json@) + payloads(
                                    tail.skip(cut as int),
                                ) =~= byte_views(done) + (seq![json@] + payloads(
                                    tail.skip(cut as int),
                                )));
                            }
                        },
                        None => {},
                    }
                    start = start + cut;
                },
                None => {
                    proof {
                        if has_break(tail) {
                            assert(is_break(tail, first_break(tail)));
                        }
                        assert(byte_views(jsons@) + payloads(tail) =~= byte_views(jsons@));
                    }
                    break;
                },
            }
        }
        let tail = self.buf.split_off(start);
        assert(tail@ =~= all.skip(start as int));
        self.buf = tail;
        jsons
    }

    /// Forgets the block that is not complete.
    pub fn reset(&mut self)
        ensures
            final(self)@ == Seq::<u8>::empty(),
    {
        self.buf = Vec::new();
    }
}

/// What happened to the connection.
pub enum SseEvent<'a> {
    /// The client starts, or a wait is over.
    Ready,
    /// The connection could not be made.
    ConnectFailed,
    /// The connection stands.
    Connected,
    /// Bytes came in.
    Chunk(&'a [u8]),
    /// Nothing came in for a while.
    Quiet,
    /// Reading failed.
    Failed,
    /// The stream ended.
    Ended,
}

/// What is to be done next.
#[derive(Debug, Clone, Copy, PartialEq, Eq, Structural)]
pub enum SseAction {
    /// Stop for good.
    Finish,
    /// Make a new connection, in place of any there is.
    Connect,
    /// Wait this many ms.
    Wait(u64),
    /// Read on.
    Read,
}

/// The client's answer to an event, where `stop` asks it to end and
/// `reconnect` to make a new connection.
pub open spec fn sse_action(event: SseEvent, stop: bool, reconnect: bool) -> SseAction {
    match event {
        SseEvent::Ready => if stop {
            SseAction::Finish
        } else {
            SseAction::Connect
        },
        SseEvent::ConnectFailed => SseAction::Wait(CONNECT_RETRY_MS),
        SseEvent::Connected => SseAction::Read,
        SseEvent::Chunk(_) | SseEvent::Quiet => if stop {
            SseAction::Finish
        } else if reconnect {
            SseAction::Connect
        } else {
            SseAction::Read
        },
        SseEvent::Failed | SseEvent::Ended => SseAction::Finish,
    }
}

/// The client ends where it is asked to, at the latest at the next chunk or
/// pause, or where the connection drops, and nowhere else. In particular a
/// connection that could not be made is tried again, and one that is to be
/// replaced is.
pub proof fn lemma_when_client_ends(event: SseEvent, stop: bool, reconnect: bool)
    ensures
        sse_action(event, stop, reconnect) == SseAction::Finish <==> {
            ||| event is Failed
            ||| event is Ended
            ||| stop && (event is Ready || event is Chunk || event is Quiet)
        },
        event is ConnectFailed ==> sse_action(event, stop, reconnect) == SseAction::Wait(
            CONNECT_RETRY_MS,
        ),
        event is Quiet && !stop && reconnect ==> sse_action(event, stop, reconnect)
            == SseAction::Connect,
        sse_action(SseEvent::Ready, false, reconnect) == SseAction::Connect,
{
}

/// The client's answers, one by one. A new connection is made at the start and
/// where one is asked for; one that could not be made is tried again after three
/// seconds; a request to stop is heard at the start and at each chunk or pause.
pub proof fn lemma_client_answers(event: SseEvent, stop: bool, reconnect: bool)
    ensures
        ({
            let action = sse_action(event, stop, reconnect);
            &&& event is Ready ==> action == (if stop {
                SseAction::Finish
            } else {
                SseAction::Connect
            })
            &&& event is ConnectFailed ==> action == SseAction::Wait(3_000)
            &&& event is Connected ==> action == SseAction::Read
            &&& event is Chunk || event is Quiet ==> action == (if stop {
                SseAction::Finish
            } else if reconnect {
                SseAction::Connect
            } else {
                SseAction::Read
            })
            &&& event is Failed || event is Ended ==> action == SseAction::Finish
        }),
        STREAM_RETRY_MS == 2_000,
{
}

/// How long, in ms, the caller of a client that ended waits before it starts
/// the next one; `None` where it is asked to stop.
pub fn retry_after_drop(stop: bool) -> (wait: Option<u64>)
    ensures
        wait == (if stop {
            None
        } else {
            Some(STREAM_RETRY_MS)
        }),
{
    if stop {
        None
    } else {
        Some(STREAM_RETRY_MS)
    }
}

/// The JSON texts that an event completes, where `buffered` is the block that is
/// not complete yet.
pub open spec fn texts_of(buffered: Seq<u8>, event: SseEvent, stop: bool) -> Seq<Seq<u8>> {
    match event {
        SseEvent::Chunk(chunk) if !stop => payloads(buffered + chunk@),
        _ => Seq::empty(),
    }
}

/// The block that is not complete after an event.
pub open spec fn rest_of(buffered: Seq<u8>, event: SseEvent, stop: bool) -> Seq<u8> {
    match event {
        SseEvent::Connected => Seq::empty(),
        SseEvent::Chunk(chunk) if !stop => leftover(buffered + chunk@),
        _ => buffered,
    }
}

/// The event ends a read.
pub open spec fn is_read(event: SseEvent) -> bool {
    event is Chunk || event is Quiet || event is Failed || event is Ended
}

/// The watchdog after the client answered an event that completed so many JSON
/// texts: a read takes its request for a new connection, and each text is a
/// heartbeat.
pub open spec fn attended(
    w: WatchdogState,
    event: SseEvent,
    texts: nat,
    now_ms: i64,
) -> WatchdogState {
    let asked = if is_read(event) {
        WatchdogState { reconnect: false, ..w }
    } else {
        w
    };
    if texts > 0 {
        asked.beaten(now_ms)
    } else {
        asked
    }
}

/// The time of the last event is that of the last JSON text: an event without
/// one leaves it, and one with any sets it.
pub proof fn lemma_texts_are_heartbeats(w: WatchdogState, event: SseEvent, texts: nat, now_ms: i64)
    ensures
        texts > 0 ==> attended(w, event, texts, now_ms).last_event_ms == now_ms,
        texts == 0 ==> attended(w, event, texts, now_ms).last_event_ms == w.last_event_ms,
        attended(w, event, texts, now_ms).reset_count == w.reset_count,
{
}

/// A chunk is decoded behind the bytes that waited, unless the client was asked
/// to stop; a new connection starts with none; nothing else changes them or gives
/// a text. A read, and nothing else, meets a request for a new connection.
pub proof fn lemma_what_an_event_gives(
    buffered: Seq<u8>,
    event: SseEvent,
    stop: bool,
    w: WatchdogState,
    texts: nat,
    now_ms: i64,
)
    ensures
        event matches SseEvent::Chunk(chunk) ==> {
            &&& !stop ==> texts_of(buffered, event, stop) == payloads(buffered + chunk@)
                && rest_of(buffered, event, stop) == leftover(buffered + chunk@)
            &&& stop ==> texts_of(buffered, event, stop).len() == 0 && rest_of(
                buffered,
                event,
                stop,
            ) == buffered
        },
        !(event is Chunk) ==> texts_of(buffered, event, stop).len() == 0,
        event is Connected ==> rest_of(buffered, event, stop).len() == 0,
        !(event is Chunk) && !(event is Connected) ==> rest_of(buffered, event, stop) == buffered,
        attended(w, event, texts, now_ms).reconnect <==> w.reconnect && (event is Ready
            || event is ConnectFailed || event is Connected),
{
}

/// The bytes of the chunks, one behind the other.
pub open spec fn all_bytes(chunks: Seq<Seq<u8>>) -> Seq<u8>
    decreases chunks.len(),
{
    if chunks.len() == 0 {
        Seq::empty()
    } else {
        all_bytes(chunks.drop_last()) + chunks.last()
    }
}

/// The block that is not complete after a connection delivered the chunks.
pub open spec fn rest_after(chunks: Seq<Seq<u8>>) -> Seq<u8>
    decreases chunks.len(),
{
    if chunks.len() == 0 {
        Seq::empty()
    } else {
        leftover(rest_after(chunks.drop_last()) + chunks.last())
    }
}

/// The JSON texts that come out while a connection delivers the chunks.
pub open spec fn texts_after(chunks: Seq<Seq<u8>>) -> Seq<Seq<u8>>
    decreases chunks.len(),
{
    if chunks.len() == 0 {
        Seq::empty()
    } else {
        texts_after(chunks.drop_last()) + payloads(rest_after(chunks.drop_last()) + chunks.last())
    }
}

/// What a connection gives depends on its bytes alone, not on where they were
/// cut: the payloads of the complete blocks, in order; the tail that is not
/// complete gives nothing.
pub proof fn lemma_connection_depends_on_bytes(chunks: Seq<Seq<u8>>)
    ensures
        texts_after(chunks) == payloads(all_bytes(chunks)),
        rest_after(chunks) == leftover(all_bytes(chunks)),
    decreases chunks.len(),
{
    if chunks.len() == 0 {
        let none = Seq::<u8>::empty();
        assert(!has_break(none));
    } else {
        lemma_connection_depends_on_bytes(chunks.drop_last());
        lemma_chunking_is_irrelevant(all_bytes(chunks.drop_last()), chunks.last());
    }
}

/// The client of the stream.
pub struct SseClient {
    decoder: SseDecoder,
}

impl View for SseClient {
    type V = Seq<u8>;

    /// The bytes of the block that is not complete yet.
    closed spec fn view(&self) -> Seq<u8> {
        self.decoder@
    }
}

impl SseClient {
    pub fn new() -> (client: Self)
        ensures
            client@ == Seq::<u8>::empty(),
    {
        SseClient { decoder: SseDecoder::new() }
    }

    /// Answers an event: what is to be done next, and the JSON texts that a
    /// chunk completed. A new connection starts with an empty buffer; a chunk
    /// that comes after the request to stop is not looked at.
    pub fn step(&mut self, event: SseEvent, stop: bool, reconnect: bool) -> (answer: (
        SseAction,
        Vec<Vec<u8>>,
    ))
        ensures
            answer.0 == sse_action(event, stop, reconnect),
            byte_views(answer.1@) == texts_of(old(self)@, event, stop),
            final(self)@ == rest_of(old(self)@, event, stop),
    {
        let mut jsons: Vec<Vec<u8>> = Vec::new();
        assert(byte_views(jsons@) =~= Seq::empty());
        let action = match event {
            SseEvent::Ready => {
                if stop {
                    SseAction::Finish
                } else {
                    SseAction::Connect
                }
            },
            SseEvent::ConnectFailed => SseAction::Wait(CONNECT_RETRY_MS),
            SseEvent::Connected => {
                self.decoder.reset();
                SseAction::Read
            },
            SseEvent::Chunk(chunk) => {
                if stop {
                    SseAction::Finish
                } else {
                    jsons = self.decoder.feed(chunk);
                    if reconnect {
                        SseAction::Connect
                    } else {
                        SseAction::Read
                    }
                }
            },
            SseEvent::Quiet => {
                if stop {
                    SseAction::Finish
                } else if reconnect {
                    SseAction::Connect
                } else {
                    SseAction::Read
                }
            },
            SseEvent::Failed | SseEvent::Ended => SseAction::Finish,
        };
        (action, jsons)
    }

    /// Answers an event at `now_ms`, together with the watchdog: a read meets
    /// its request for a new connection, and every JSON text is a heartbeat.
    pub fn attend(
        &mut self,
        event: SseEvent,
        stop: bool,
        now_ms: i64,
        watchdog: &mut Watchdog,
    ) -> (answer: (SseAction, Vec<Vec<u8>>))
        ensures
            answer.0 == sse_action(
                event,
                stop,
                is_read(event) && old(watchdog)@.reconnect,
            ),
            byte_views(answer.1@) == texts_of(old(self)@, event, stop),
            final(self)@ == rest_of(old(self)@, event, stop),
            final(watchdog)@ == attended(
                old(watchdog)@,
                event,
                texts_of(old(self)@, event, stop).len(),
                now_ms,
            ),
    {
        let reconnect = match event {
            SseEvent::Chunk(_) | SseEvent::Quiet | SseEvent::Failed | SseEvent::Ended =>
            watchdog.take_reconnect(),
            _ => false,
        };
        let (action, jsons) = self.step(event, stop, reconnect);
        assert(jsons@.len() == byte_views(jsons@).len());
        if jsons.len() > 0 {
            watchdog.heartbeat(now_ms);
        }
        (action, jsons)
    }
}

} // verus!
