//! The event logs as text: a heading, then a line per event.

use vstd::prelude::*;
use vstd::string::*;

use crate::metrics::{deadline_miss_views, overflow_views, DeadlineMissEvent, DeadlineMissView};
use crate::text::{decimal, decimal_text};
use crate::types::{OverflowEvent, OverflowView, Priority};

verus! {

/// The line of an overflow event.
pub open spec fn overflow_line(ev: OverflowView) -> Seq<char> {
    decimal_text(ev.total_drops as nat) + ","@ + ev.domain + ","@ + ev.priority.name_text()
        + "\n"@
}

/// The overflow log.
pub open spec fn overflow_text(log: Seq<OverflowView>) -> Seq<char>
    decreases log.len(),
{
    if log.len() == 0 {
        "total_drops,domain,priority\n"@
    } else {
        overflow_text(log.drop_last()) + overflow_line(log.last())
    }
}

/// The line of a deadline miss.
pub open spec fn deadline_miss_line(ev: DeadlineMissView) -> Seq<char> {
    decimal_text(ev.latency_us as nat) + ".0,"@ + ev.domain + ","@ + ev.priority.name_text()
        + "\n"@
}

/// The deadline-miss log.
pub open spec fn deadline_miss_text(log: Seq<DeadlineMissView>) -> Seq<char>
    decreases log.len(),
{
    if log.len() == 0 {
        "latency_us,domain,priority\n"@
    } else {
        deadline_miss_text(log.drop_last()) + deadline_miss_line(log.last())
    }
}

/// The overflow log, in order. Without events there is no log.
pub fn overflow_csv(log: &Vec<OverflowEvent>) -> (csv: Option<String>)
    ensures
        csv is None <==> log.len() == 0,
        csv matches Some(text) ==> text@ == overflow_text(overflow_views(log@)),
{
    if log.len() == 0 {
        return None;
    }
    let ghost views = overflow_views(log@);
    let mut text = "total_drops,domain,priority\n".to_owned();
    for i in 0..log.len()
        invariant
            views == overflow_views(log@),
            text@ == overflow_text(views.take(i as int)),
    {
        let ev = &log[i];
        let ghost so_far = text@;
        text.append(decimal(ev.total_drops as u128).as_str());
        text.append(",");
        text.append(ev.domain.as_str());
        text.append(",");
        text.append(ev.priority.name());
        text.append("\n");
        proof {
            assert(text@ =~= so_far + overflow_line(views[i as int]));
            assert(views.take(i as int + 1).drop_last() =~= views.take(i as int));
        }
    }
    assert(views.take(log.len() as int) =~= views);
    Some(text)
}

/// The deadline-miss log, in order. Without events there is no log.
pub fn deadline_miss_csv(log: &Vec<DeadlineMissEvent>) -> (csv: Option<String>)
    ensures
        csv is None <==> log.len() == 0,
        csv matches Some(text) ==> text@ == deadline_miss_text(deadline_miss_views(log@)),
{
    if log.len() == 0 {
        return None;
    }
    let ghost views = deadline_miss_views(log@);
    let mut text = "latency_us,domain,priority\n".to_owned();
    for i in 0..log.len()
        invariant
            views == deadline_miss_views(log@),
            text@ == deadline_miss_text(views.take(i as int)),
    {
        let ev = &log[i];
        let ghost so_far = text@;
        text.append(decimal(ev.latency_us as u128).as_str());
        text.append(".0,");
        text.append(ev.domain.as_str());
        text.append(",");
        text.append(ev.priority.name());
        text.append("\n");
        proof {
            assert(text@ =~= so_far + deadline_miss_line(views[i as int]));
            assert(views.take(i as int + 1).drop_last() =~= views.take(i as int));
        }
    }
    assert(views.take(log.len() as int) =~= views);
    Some(text)
}

/// The fields, with commas between them, as a line.
pub open spec fn csv_row(fields: Seq<Seq<char>>) -> Seq<char>
    decreases fields.len(),
{
    if fields.len() == 0 {
        "\n"@
    } else if fields.len() == 1 {
        fields[0] + "\n"@
    } else {
        fields[0] + ","@ + csv_row(fields.skip(1))
    }
}

/// A log is its heading and then, in order, a row per event: of an overflow the
/// number of drops so far, the domain and the priority; of a missed deadline the
/// latency with one decimal place, the domain and the priority.
pub proof fn lemma_logs_are_rows(
    drops: Seq<OverflowView>,
    drop: OverflowView,
    misses: Seq<DeadlineMissView>,
    miss: DeadlineMissView,
)
    ensures
        overflow_text(Seq::empty()) == "total_drops,domain,priority\n"@,
        overflow_text(drops.push(drop)) == overflow_text(drops) + csv_row(
            seq![
                decimal_text(drop.total_drops as nat),
                drop.domain,
                if drop.priority == Priority::High {
                    "High"@
                } else {
                    "Low"@
                },
            ],
        ),
        deadline_miss_text(Seq::empty()) == "latency_us,domain,priority\n"@,
        deadline_miss_text(misses.push(miss)) == deadline_miss_text(misses) + csv_row(
            seq![
                decimal_text(miss.latency_us as nat) + ".0"@,
                miss.domain,
                if miss.priority == Priority::High {
                    "High"@
                } else {
                    "Low"@
                },
            ],
        ),
{
    reveal_with_fuel(csv_row, 3);
    reveal_strlit(".0,");
    reveal_strlit(".0");
    reveal_strlit(",");
    assert(drops.push(drop).drop_last() =~= drops);
    assert(misses.push(miss).drop_last() =~= misses);
    let a = decimal_text(drop.total_drops as nat);
    let p = drop.priority.name_text();
    let row = seq![a, drop.domain, p];
    assert(row.skip(1) =~= seq![drop.domain, p]);
    assert(row.skip(1).skip(1) =~= seq![p]);
    assert(overflow_line(drop) =~= csv_row(row));
    let b = decimal_text(miss.latency_us as nat) + ".0"@;
    let q = miss.priority.name_text();
    let other = seq![b, miss.domain, q];
    assert(other.skip(1) =~= seq![miss.domain, q]);
    assert(other.skip(1).skip(1) =~= seq![q]);
    assert(".0,"@ =~= ".0"@ + ","@);
    assert(deadline_miss_line(miss) =~= csv_row(other));
}

} // verus!
