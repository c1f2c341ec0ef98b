//! From a parsed event to what the engine keeps of it.
//!
//! A `WikiChange` borrows its text from the JSON buffer. Only a packet, which
//! outlives the buffer, owns text of its own.

use vstd::prelude::*;

use crate::types::{ChangePacket, Priority, WikiChange};

verus! {

/// The event counts as a change: it was well-formed and names its domain.
pub open spec fn is_change(parsed: Option<WikiChange<'_>>) -> bool {
    parsed matches Some(change) && change.server_name is Some
}

/// The packet of an event, stamped with T0. `None` where the event was
/// malformed or does not name a domain.
pub fn parse_zero_copy(parsed: Option<WikiChange<'_>>, now_ns: u64) -> (packet: Option<
    ChangePacket,
>)
    ensures
        packet is Some <==> is_change(parsed),
        packet is Some <==> parsed is Some && parsed->0.server_name is Some,
        packet matches Some(p) ==> p.server_name@ == parsed->0.server_name->0@ && p.t0 == now_ns
            && (p.priority == Priority::Low <==> parsed->0.bot),
        packet matches Some(p) ==> p.made_from(&parsed->0, now_ns),
{
    match parsed {
        None => None,
        Some(change) => {
            if change.server_name.is_none() {
                return None;
            }
            Some(ChangePacket::from_change(&change, now_ns))
        },
    }
}

/// Domain and bot flag of an event, without making a packet.
pub fn parse_hot_fields<'a>(parsed: Option<WikiChange<'a>>) -> (fields: Option<(&'a str, bool)>)
    ensures
        fields is Some <==> is_change(parsed),
        fields is Some <==> parsed is Some && parsed->0.server_name is Some,
        fields matches Some(f) ==> Some(f.0) == parsed->0.server_name && f.1 == parsed->0.bot,
{
    match parsed {
        None => None,
        Some(change) => match change.server_name {
            None => None,
            Some(domain) => Some((domain, change.bot)),
        },
    }
}

/// The two ways of reading an event agree on its domain and its priority.
pub proof fn lemma_packet_has_hot_fields(
    parsed: Option<WikiChange<'_>>,
    packet: ChangePacket,
    now_ns: u64,
)
    requires
        is_change(parsed),
        packet.made_from(&parsed->0, now_ns),
    ensures
        packet.server_name@ == parsed->0.server_name->0@,
        packet.priority == (if parsed->0.bot {
            crate::types::Priority::Low
        } else {
            crate::types::Priority::High
        }),
{
}

/// Sets a count of allocations back to 0 and returns what it was.
pub fn alloc_count_since_reset(count: &mut u64) -> (allocs: u64)
    ensures
        allocs == *old(count),
        *final(count) == 0,
{
    let allocs: u64 = *count;
    *count = 0;
    allocs
}

} // verus!
