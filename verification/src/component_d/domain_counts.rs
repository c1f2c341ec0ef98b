//! Edit counts per domain, and their ranking.

use vstd::hash_map::StringHashMap;
use vstd::prelude::*;

verus! {

/// One line of the leaderboard.
#[derive(Debug, Clone)]
pub struct LeaderboardEntry {
    pub domain: String,
    pub edits: u64,
}

/// The entries as pairs of name and count.
pub open spec fn pairs(entries: Seq<LeaderboardEntry>) -> Seq<(Seq<char>, u64)> {
    entries.map_values(|e: LeaderboardEntry| (e.domain@, e.edits))
}

/// The name occurs among the pairs.
pub open spec fn has_name(s: Seq<(Seq<char>, u64)>, name: Seq<char>) -> bool {
    exists|i: int| 0 <= i < s.len() && #[trigger] s[i].0 == name
}

/// Where the name occurs.
pub open spec fn name_index(s: Seq<(Seq<char>, u64)>, name: Seq<char>) -> int {
    choose|i: int| 0 <= i < s.len() && #[trigger] s[i].0 == name
}

/// No name occurs twice.
pub open spec fn names_distinct(s: Seq<(Seq<char>, u64)>) -> bool {
    forall|i: int, j: int| 0 <= i < s.len() && 0 <= j < s.len() && s[i].0 == s[j].0 ==> i == j
}

/// The count of a name; a name that does not occur counts 0.
pub open spec fn count_of(s: Seq<(Seq<char>, u64)>, name: Seq<char>) -> u64 {
    if has_name(s, name) {
        s[name_index(s, name)].1
    } else {
        0
    }
}

/// The pairs after one more edit of `name`: its count goes up by one, in its
/// place; a name seen for the first time comes last.
pub open spec fn counted(s: Seq<(Seq<char>, u64)>, name: Seq<char>) -> Seq<(Seq<char>, u64)> {
    if has_name(s, name) {
        let i = name_index(s, name);
        s.update(i, (name, (s[i].1 + 1) as u64))
    } else {
        s.push((name, 1))
    }
}

/// Sum of all counts.
pub open spec fn total_of(s: Seq<(Seq<char>, u64)>) -> nat
    decreases s.len(),
{
    if s.len() == 0 {
        0
    } else {
        total_of(s.drop_last()) + s.last().1 as nat
    }
}

/// A total grows by each count that is added.
pub proof fn lemma_total_grows(s: Seq<(Seq<char>, u64)>, x: (Seq<char>, u64))
    ensures
        total_of(Seq::empty()) == 0,
        total_of(s.push(x)) == total_of(s) + x.1,
{
    assert(s.push(x).drop_last() =~= s);
}

/// The count of a name is the one it stands with, wherever that is, and 0 where
/// it does not stand.
pub proof fn lemma_count_is_where_it_stands(s: Seq<(Seq<char>, u64)>, name: Seq<char>, i: int)
    requires
        names_distinct(s),
    ensures
        0 <= i < s.len() && s[i].0 == name ==> count_of(s, name) == s[i].1,
        (forall|k: int| 0 <= k < s.len() ==> (#[trigger] s[k]).0 != name) ==> count_of(s, name)
            == 0,
{
    if 0 <= i < s.len() && s[i].0 == name {
        assert(has_name(s, name));
    }
}

/// `x` placed into a ranking, behind everything that counts at least as much.
pub open spec fn placed(ranking: Seq<(Seq<char>, u64)>, x: (Seq<char>, u64)) -> Seq<
    (Seq<char>, u64),
>
    decreases ranking.len(),
{
    if ranking.len() == 0 || ranking.last().1 >= x.1 {
        ranking.push(x)
    } else {
        placed(ranking.drop_last(), x).push(ranking.last())
    }
}

/// The pairs by falling count; of equal counts the earlier pair comes first.
pub open spec fn ranked(s: Seq<(Seq<char>, u64)>) -> Seq<(Seq<char>, u64)>
    decreases s.len(),
{
    if s.len() == 0 {
        s
    } else {
        placed(ranked(s.drop_last()), s.last())
    }
}

/// The first `n` pairs of the ranking, or all of them where there are fewer.
pub open spec fn top(s: Seq<(Seq<char>, u64)>, n: int) -> Seq<(Seq<char>, u64)> {
    if n <= s.len() {
        ranked(s).take(n)
    } else {
        ranked(s)
    }
}

/// Counts fall, or stay, along the sequence.
pub open spec fn is_descending(s: Seq<(Seq<char>, u64)>) -> bool {
    forall|i: int, j: int| 0 <= i <= j < s.len() ==> s[i].1 >= s[j].1
}

proof fn lemma_placed(ranking: Seq<(Seq<char>, u64)>, x: (Seq<char>, u64))
    ensures
        placed(ranking, x).to_multiset() == ranking.to_multiset().insert(x),
        placed(ranking, x).len() == ranking.len() + 1,
        is_descending(ranking) ==> is_descending(placed(ranking, x)),
    decreases ranking.len(),
{
    broadcast use vstd::seq_lib::group_to_multiset_ensures, vstd::multiset::group_multiset_axioms;

    if ranking.len() == 0 || ranking.last().1 >= x.1 {
    } else {
        let head = ranking.drop_last();
        lemma_placed(head, x);
        assert(ranking =~= head.push(ranking.last()));
        assert(placed(ranking, x).to_multiset() =~= ranking.to_multiset().insert(x));
        if is_descending(ranking) {
            let p = placed(head, x);
            assert forall|i: int| 0 <= i < p.len() implies p[i].1 >= ranking.last().1 by {
                assert(p.to_multiset().count(p[i]) > 0);
                if p[i] != x {
                    assert(head.to_multiset().count(p[i]) > 0);
                    let k = choose|k: int| 0 <= k < head.len() && head[k] == p[i];
                    assert(ranking[k] == head[k]);
                    assert(ranking[k].1 >= ranking[ranking.len() - 1].1);
                }
            }
        }
    }
}

/// `placed` is an insertion at the one position that keeps the order.
proof fn lemma_placed_at(ranking: Seq<(Seq<char>, u64)>, x: (Seq<char>, u64), at: int)
    requires
        0 <= at <= ranking.len(),
        at > 0 ==> ranking[at - 1].1 >= x.1,
        forall|k: int| at <= k < ranking.len() ==> (#[trigger] ranking[k]).1 < x.1,
    ensures
        placed(ranking, x) == ranking.insert(at, x),
    decreases ranking.len(),
{
    if at == ranking.len() {
        assert(ranking.insert(at, x) =~= ranking.push(x));
    } else {
        let head = ranking.drop_last();
        assert forall|k: int| at <= k < head.len() implies (#[trigger] head[k]).1 < x.1 by {
            assert(head[k] == ranking[k]);
        }
        lemma_placed_at(head, x, at);
        assert(ranking.insert(at, x) =~= head.insert(at, x).push(ranking.last()));
    }
}

/// A ranking holds the pairs it was made of, each as often, by falling count.
pub proof fn lemma_ranked(s: Seq<(Seq<char>, u64)>)
    ensures
        ranked(s).to_multiset() == s.to_multiset(),
        ranked(s).len() == s.len(),
        is_descending(ranked(s)),
    decreases s.len(),
{
    broadcast use vstd::seq_lib::group_to_multiset_ensures;

    if s.len() > 0 {
        lemma_ranked(s.drop_last());
        lemma_placed(ranked(s.drop_last()), s.last());
        assert(s =~= s.drop_last().push(s.last()));
    }
}

/// Nothing outside the top counts more than anything inside it.
pub proof fn lemma_top_is_greatest(s: Seq<(Seq<char>, u64)>, n: int, inside: int, outside: int)
    requires
        0 <= inside < n <= outside < s.len(),
    ensures
        top(s, n)[inside].1 >= ranked(s)[outside].1,
{
    lemma_ranked(s);
}

/// The top holds as many pairs as are asked for, or all there are, by falling
/// count, and what it leaves out, which together with it makes up all the pairs,
/// counts at most as much as anything in it.
pub proof fn lemma_top_leaves_out_the_least(s: Seq<(Seq<char>, u64)>, n: int) -> (rest: Seq<
    (Seq<char>, u64),
>)
    requires
        n >= 0,
    ensures
        top(s, n).len() == (if n <= s.len() {
            n
        } else {
            s.len() as int
        }),
        forall|i: int, j: int| 0 <= i <= j < top(s, n).len() ==> top(s, n)[i].1 >= top(s, n)[j].1,
        top(s, n).to_multiset().add(rest.to_multiset()) == s.to_multiset(),
        forall|i: int, j: int|
            0 <= i < top(s, n).len() && 0 <= j < rest.len() ==> (#[trigger] top(s, n)[i]).1 >= (
            #[trigger] rest[j]).1,
{
    lemma_ranked(s);
    let r = ranked(s);
    let k = if n <= s.len() {
        n
    } else {
        s.len() as int
    };
    let rest = r.skip(k);
    assert(top(s, n) =~= r.take(k));
    assert(r.take(k) + rest =~= r);
    vstd::seq_lib::lemma_multiset_commutative(r.take(k), rest);
    rest
}

/// A pair that the top leaves out counts at most as much as each pair in it.
pub proof fn lemma_left_out_counts_least(s: Seq<(Seq<char>, u64)>, n: int, x: (Seq<char>, u64))
    requires
        n >= 0,
        s.contains(x),
        !top(s, n).contains(x),
    ensures
        top(s, n).len() == n,
        forall|i: int| 0 <= i < top(s, n).len() ==> (#[trigger] top(s, n)[i]).1 >= x.1,
{
    broadcast use vstd::seq_lib::group_to_multiset_ensures, vstd::multiset::group_multiset_axioms;

    let t = top(s, n);
    let rest = lemma_top_leaves_out_the_least(s, n);
    assert(s.to_multiset().count(x) > 0);
    assert(t.to_multiset().count(x) == 0);
    assert(rest.to_multiset().count(x) > 0);
    let j = choose|j: int| 0 <= j < rest.len() && rest[j] == x;
    assert(rest[j] == x);
    if n > s.len() {
        assert(t.to_multiset().len() == s.to_multiset().len());
        assert(rest.to_multiset().len() == 0);
    }
}

/// The pairs with this count, in their order.
pub open spec fn with_count(s: Seq<(Seq<char>, u64)>, c: u64) -> Seq<(Seq<char>, u64)>
    decreases s.len(),
{
    if s.len() == 0 {
        Seq::empty()
    } else if s.last().1 == c {
        with_count(s.drop_last(), c).push(s.last())
    } else {
        with_count(s.drop_last(), c)
    }
}

proof fn lemma_placed_keeps_order(
    ranking: Seq<(Seq<char>, u64)>,
    x: (Seq<char>, u64),
    c: u64,
)
    ensures
        with_count(placed(ranking, x), c) == (if x.1 == c {
            with_count(ranking, c).push(x)
        } else {
            with_count(ranking, c)
        }),
    decreases ranking.len(),
{
    if ranking.len() == 0 || ranking.last().1 >= x.1 {
        assert(ranking.push(x).drop_last() =~= ranking);
    } else {
        let head = placed(ranking.drop_last(), x);
        lemma_placed_keeps_order(ranking.drop_last(), x, c);
        assert(head.push(ranking.last()).drop_last() =~= head);
    }
}

/// Pairs of the same count keep their order in the ranking.
pub proof fn lemma_ranking_is_stable(s: Seq<(Seq<char>, u64)>, c: u64)
    ensures
        with_count(top(s, s.len() as int), c) == with_count(s, c),
    decreases s.len(),
{
    lemma_ranked(s);
    assert(top(s, s.len() as int) =~= ranked(s));
    if s.len() > 0 {
        let before = s.drop_last();
        lemma_ranking_is_stable(before, c);
        lemma_ranked(before);
        assert(top(before, before.len() as int) =~= ranked(before));
        lemma_placed_keeps_order(ranked(before), s.last(), c);
    }
}

/// A shorter top is the beginning of a longer one.
pub proof fn lemma_top_is_prefix(s: Seq<(Seq<char>, u64)>, n: int, m: int)
    requires
        0 <= n <= m,
    ensures
        top(s, n).is_prefix_of(top(s, m)),
{
    lemma_ranked(s);
    if n <= s.len() {
        assert(top(s, n) =~= top(s, m).take(n));
        assert(top(s, n) =~= top(s, m).subrange(0, n));
    } else {
        assert(top(s, n) =~= top(s, m).subrange(0, top(s, n).len() as int));
    }
}

proof fn lemma_total_update(s: Seq<(Seq<char>, u64)>, i: int, x: (Seq<char>, u64))
    requires
        0 <= i < s.len(),
    ensures
        total_of(s.update(i, x)) == total_of(s) - s[i].1 + x.1,
    decreases s.len(),
{
    let t = s.update(i, x);
    if i == s.len() - 1 {
        assert(t.drop_last() =~= s.drop_last());
    } else {
        lemma_total_update(s.drop_last(), i, x);
        assert(t.drop_last() =~= s.drop_last().update(i, x));
    }
}

/// One edit raises the count of its own name by one, leaves every other
/// count, raises the total by one, and keeps names distinct.
pub proof fn lemma_counted(s: Seq<(Seq<char>, u64)>, name: Seq<char>)
    requires
        names_distinct(s),
        count_of(s, name) < u64::MAX,
    ensures
        names_distinct(counted(s, name)),
        count_of(counted(s, name), name) == count_of(s, name) + 1,
        forall|other: Seq<char>|
            other != name ==> #[trigger] count_of(counted(s, name), other) == count_of(s, other),
        total_of(counted(s, name)) == total_of(s) + 1,
{
    let t = counted(s, name);
    if has_name(s, name) {
        let i = name_index(s, name);
        assert(t[i].0 == name);
        assert(has_name(t, name));
        assert(names_distinct(t)) by {
            assert forall|a: int, b: int|
                0 <= a < t.len() && 0 <= b < t.len() && t[a].0 == t[b].0 implies a == b by {
                assert(t[a].0 == s[a].0);
                assert(t[b].0 == s[b].0);
            }
        }
        assert(name_index(t, name) == i);
        lemma_total_update(s, i, (name, (s[i].1 + 1) as u64));
        assert forall|other: Seq<char>| other != name implies #[trigger] count_of(t, other)
            == count_of(s, other) by {
            if has_name(s, other) {
                let k = name_index(s, other);
                assert(t[k].0 == other);
                assert(name_index(t, other) == k);
            } else if has_name(t, other) {
                let k = name_index(t, other);
                assert(s[k].0 == other);
            }
        }
    } else {
        assert(t[s.len() as int].0 == name);
        assert(has_name(t, name));
        assert(t.drop_last() =~= s);
        assert(names_distinct(t)) by {
            assert forall|a: int, b: int|
                0 <= a < t.len() && 0 <= b < t.len() && t[a].0 == t[b].0 implies a == b by {
                if a < s.len() {
                    assert(t[a] == s[a]);
                }
                if b < s.len() {
                    assert(t[b] == s[b]);
                }
            }
        }
        assert(name_index(t, name) == s.len());
        assert forall|other: Seq<char>| other != name implies #[trigger] count_of(t, other)
            == count_of(s, other) by {
            if has_name(s, other) {
                let k = name_index(s, other);
                assert(t[k].0 == other);
                assert(name_index(t, other) == k);
            } else if has_name(t, other) {
                let k = name_index(t, other);
                assert(t[k] == s[k]);
            }
        }
    }
}

/// Edit counts per domain, in the order in which the domains were first seen.
pub struct DomainCounts {
    entries: Vec<LeaderboardEntry>,
    /// Position of each domain in `entries`.
    index: StringHashMap<usize>,
}

impl View for DomainCounts {
    type V = Seq<(Seq<char>, u64)>;

    closed spec fn view(&self) -> Seq<(Seq<char>, u64)> {
        pairs(self.entries@)
    }
}

impl DomainCounts {
    /// Each domain stands once, and the index finds it.
    pub closed spec fn wf(&self) -> bool {
        &&& names_distinct(self@)
        &&& forall|i: int|
            #![trigger self.entries[i]]
            0 <= i < self.entries.len() ==> self.index@.contains_key(self.entries[i].domain@)
                && self.index@[self.entries[i].domain@] == i
        &&& forall|name: Seq<char>| #[trigger]
            self.index@.contains_key(name) ==> self.index@[name] < self.entries.len()
                && self.entries[self.index@[name] as int].domain@ == name
    }

    pub proof fn lemma_names_distinct(&self)
        requires
            self.wf(),
        ensures
            names_distinct(self@),
    {
    }

    pub fn new() -> (counts: Self)
        ensures
            counts.wf(),
            counts@ == Seq::<(Seq<char>, u64)>::empty(),
    {
        let counts = DomainCounts { entries: Vec::new(), index: StringHashMap::new() };
        assert(counts@ =~= Seq::<(Seq<char>, u64)>::empty());
        counts
    }

    /// Edits counted for a domain so far.
    pub fn count(&self, domain: &str) -> (edits: u64)
        requires
            self.wf(),
        ensures
            edits == count_of(self@, domain@),
    {
        match self.index.get(domain) {
            Some(i) => {
                assert(self@[*i as int].0 == domain@);
                self.entries[*i].edits
            },
            None => {
                proof {
                    if has_name(self@, domain@) {
                        let k = name_index(self@, domain@);
                        assert(self.entries[k].domain@ == domain@);
                    }
                }
                0
            },
        }
    }

    /// Counts one edit of a domain.
    pub fn increment(&mut self, domain: &str)
        requires
            old(self).wf(),
            count_of(old(self)@, domain@) < u64::MAX,
        ensures
            final(self).wf(),
            final(self)@ == counted(old(self)@, domain@),
    {
        let ghost before = self@;
        let found: Option<usize> = match self.index.get(domain) {
            Some(i) => Some(*i),
            None => None,
        };
        match found {
            Some(i) => {
                assert(before[i as int].0 == domain@);
                assert(has_name(before, domain@));
                assert(name_index(before, domain@) == i);
                let edits: u64 = self.entries[i].edits + 1;
                let name = self.entries[i].domain.clone();
                self.entries.set(i, LeaderboardEntry { domain: name, edits });
                assert(self@ =~= before.update(i as int, (domain@, edits)));
                proof {
                    lemma_counted(before, domain@);
                }
            },
            None => {
                proof {
                    if has_name(before, domain@) {
                        let k = name_index(before, domain@);
                        assert(self.entries[k].domain@ == domain@);
                    }
                    lemma_counted(before, domain@);
                }
                let at: usize = self.entries.len();
                self.entries.push(LeaderboardEntry { domain: domain.to_owned(), edits: 1 });
                self.index.insert(domain.to_owned(), at);
                assert(self@ =~= before.push((domain@, 1)));
            },
        }
    }

    /// The `n` domains with the most edits, or all of them where there are
    /// fewer, by falling count; of equal counts the one seen first comes first.
    pub fn top_n(&self, n: usize) -> (entries: Vec<LeaderboardEntry>)
        requires
            self.wf(),
        ensures
            pairs(entries@) == top(self@, n as int),
    {
        top_entries(&self.entries, n)
    }
}

/// The first `n` of the given entries by falling count.
pub fn top_entries(entries: &Vec<LeaderboardEntry>, n: usize) -> (best: Vec<LeaderboardEntry>)
    ensures
        pairs(best@) == top(pairs(entries@), n as int),
{
    let ghost all = pairs(entries@);
    let mut best: Vec<LeaderboardEntry> = Vec::new();
    assert(pairs(best@) =~= ranked(all.take(0)));
    for i in 0..entries.len()
        invariant
            all == pairs(entries@),
            best.len() == i,
            pairs(best@) == ranked(all.take(i as int)),
    {
        let ghost ranking = pairs(best@);
        let edits: u64 = entries[i].edits;
        let mut at: usize = best.len();
        while at > 0 && best[at - 1].edits < edits
            invariant
                at <= best.len(),
                ranking == pairs(best@),
                forall|k: int| at <= k < ranking.len() ==> (#[trigger] ranking[k]).1 < edits,
            decreases at,
        {
            at -= 1;
        }
        let ghost x = (entries[i as int].domain@, edits);
        proof {
            lemma_placed_at(ranking, x, at as int);
            assert(all.take(i as int + 1).drop_last() =~= all.take(i as int));
            assert(all.take(i as int + 1).last() == x);
        }
        best.insert(at, LeaderboardEntry { domain: entries[i].domain.clone(), edits });
        assert(pairs(best@) =~= ranking.insert(at as int, x));
    }
    assert(all.take(entries.len() as int) =~= all);
    best.truncate(n);
    assert(pairs(best@) =~= top(all, n as int));
    best
}

/// Each entry stands for its own name and count.
pub proof fn lemma_pairs(entries: Seq<LeaderboardEntry>, i: int)
    requires
        0 <= i < entries.len(),
    ensures
        pairs(entries).len() == entries.len(),
        pairs(entries)[i].0 == entries[i].domain@,
        pairs(entries)[i].1 == entries[i].edits,
{
}

} // verus!
