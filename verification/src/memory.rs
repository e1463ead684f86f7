//! Long-term memory entries and the choice of which of them answer a query.
use std::time::{Duration, SystemTime, UNIX_EPOCH};
use vstd::prelude::*;

use crate::text::{decimal, decimal_injective, push_decimal};

verus! {

/// One remembered fact.
#[derive(Clone, Debug)]
pub struct MemoryEntry {
    /// `mem_` followed by the creation time in seconds.
    pub id: String,
    /// The fact itself.
    pub content: String,
    /// Where the fact came from: `manual` or `auto`.
    pub source: String,
    /// Seconds since the Unix epoch at creation.
    pub created_at: u64,
}

/// The source recorded for a memory whose stored form names none.
pub fn default_source() -> (s: String)
    ensures
        s@ == "manual"@,
{
    String::from_str("manual")
}

/// The id of an entry created at `timestamp`.
pub open spec fn entry_id(timestamp: nat) -> Seq<char> {
    "mem_"@ + decimal(timestamp)
}

/// Entries created at different seconds have different ids.
pub proof fn ids_differ_by_time(t1: nat, t2: nat)
    requires
        t1 != t2,
    ensures
        entry_id(t1) != entry_id(t2),
{
    if entry_id(t1) == entry_id(t2) {
        let p = "mem_"@;
        assert(entry_id(t1).skip(p.len() as int) =~= decimal(t1));
        assert(entry_id(t2).skip(p.len() as int) =~= decimal(t2));
        decimal_injective(t1, t2);
    }
}

#[verifier::external_type_specification]
#[verifier::external_body]
pub struct ExSystemTime(SystemTime);

/// The current time of the system clock.
///
/// Trusted: `SystemTime::now`. Nothing is stated of the value, which is the
/// clock's.
#[verifier::external_body]
fn system_now() -> SystemTime {
    SystemTime::now()
}

/// How long after the Unix epoch `t` lies, or `None` when `t` lies before it.
///
/// Trusted: `SystemTime::duration_since` with `UNIX_EPOCH`, its error turned
/// into `None`. Nothing is stated of the value, which depends on the clock.
#[verifier::external_body]
fn since_epoch(t: &SystemTime) -> Option<Duration> {
    t.duration_since(UNIX_EPOCH).ok()
}

/// The whole seconds of `d`.
///
/// Trusted: `Duration::as_secs`. Nothing is stated of the value: the duration
/// type is opaque here.
#[verifier::external_body]
fn whole_secs(d: &Duration) -> u64 {
    d.as_secs()
}

impl MemoryEntry {
    /// An entry for `content` from `source`, created at `timestamp`.
    pub fn stamped(content: &str, source: &str, timestamp: u64) -> (e: Self)
        ensures
            e.id@ == entry_id(timestamp as nat),
            e.content@ == content@,
            e.source@ == source@,
            e.created_at == timestamp,
    {
        let mut id = String::from_str("mem_");
        push_decimal(&mut id, timestamp);
        MemoryEntry {
            id,
            content: String::from_str(content),
            source: String::from_str(source),
            created_at: timestamp,
        }
    }

    /// An entry for `content` from `source`, created now; `None` when the
    /// system clock reads a time before the Unix epoch.
    pub fn new(content: &str, source: &str) -> (r: Option<Self>)
        ensures
            r matches Some(e) ==> e.id@ == entry_id(e.created_at as nat) && e.content@ == content@
                && e.source@ == source@,
    {
        let now = system_now();
        match since_epoch(&now) {
            Some(elapsed) => Some(Self::stamped(content, source, whole_secs(&elapsed))),
            None => None,
        }
    }
}

/// The contents of the entries that `ranking` marks relevant, in its order.
pub open spec fn picked(entries: Seq<MemoryEntry>, ranking: Seq<(usize, bool)>) -> Seq<Seq<char>>
    decreases ranking.len(),
{
    if ranking.len() == 0 {
        seq![]
    } else {
        let rest = picked(entries, ranking.drop_last());
        if ranking.last().1 {
            rest.push(entries[ranking.last().0 as int].content@)
        } else {
            rest
        }
    }
}

/// No more contents are picked than the ranking has places, and each picked
/// content is the content of a stored entry.
pub proof fn picked_are_stored(entries: Seq<MemoryEntry>, ranking: Seq<(usize, bool)>)
    requires
        forall|i: int|
            0 <= i < ranking.len() && (#[trigger] ranking[i]).1 ==> (ranking[i].0 as int)
                < entries.len(),
    ensures
        picked(entries, ranking).len() <= ranking.len(),
        forall|j: int|
            #![trigger picked(entries, ranking)[j]]
            0 <= j < picked(entries, ranking).len() ==> exists|i: int|
                0 <= i < entries.len() && picked(entries, ranking)[j]
                    == (#[trigger] entries[i]).content@,
    decreases ranking.len(),
{
    if ranking.len() > 0 {
        let rest = ranking.drop_last();
        assert forall|i: int| 0 <= i < rest.len() && (#[trigger] rest[i]).1 implies (rest[i].0 as int)
            < entries.len() by {
            assert(rest[i] == ranking[i]);
        }
        picked_are_stored(entries, rest);
        assert forall|j: int|
            #![trigger picked(entries, ranking)[j]]
            0 <= j < picked(entries, ranking).len() implies exists|i: int|
                0 <= i < entries.len() && picked(entries, ranking)[j]
                    == (#[trigger] entries[i]).content@ by {
            let p = picked(entries, ranking);
            let q = picked(entries, rest);
            if j < q.len() {
                assert(p[j] == q[j]);
                let i = choose|i: int| 0 <= i < entries.len() && q[j] == (#[trigger] entries[i]).content@;
                assert(p[j] == entries[i].content@);
            } else {
                let last = ranking[ranking.len() - 1];
                assert(last == ranking.last());
                let i = last.0 as int;
                assert(p[j] == entries[i].content@);
            }
        }
    }
}

/// The picked contents are exactly the contents of the entries at the places
/// marked relevant, in ranking order: places not marked relevant never
/// contribute, so with no relevant place nothing is picked.
pub proof fn picked_only_relevant(entries: Seq<MemoryEntry>, ranking: Seq<(usize, bool)>)
    ensures
        picked(entries, ranking) == ranking.filter(|p: (usize, bool)| p.1).map_values(
            |p: (usize, bool)| entries[p.0 as int].content@,
        ),
        (forall|i: int| 0 <= i < ranking.len() ==> !(#[trigger] ranking[i]).1) ==> picked(
            entries,
            ranking,
        ).len() == 0,
    decreases ranking.len(),
{
    reveal_with_fuel(Seq::filter, 1);
    if ranking.len() > 0 {
        let rest = ranking.drop_last();
        picked_only_relevant(entries, rest);
        assert(picked(entries, ranking) =~= ranking.filter(|p: (usize, bool)| p.1).map_values(
            |p: (usize, bool)| entries[p.0 as int].content@,
        ));
        if forall|i: int| 0 <= i < ranking.len() ==> !(#[trigger] ranking[i]).1 {
            assert forall|i: int| 0 <= i < rest.len() implies !(#[trigger] rest[i]).1 by {
                assert(rest[i] == ranking[i]);
            }
            assert(!ranking[ranking.len() - 1].1);
        }
    }
}

/// The first `k` places of `ranking` (all of it when it is shorter).
pub open spec fn top(ranking: Seq<(usize, bool)>, k: nat) -> Seq<(usize, bool)> {
    if k < ranking.len() {
        ranking.take(k as int)
    } else {
        ranking
    }
}

/// The contents answering a query, given `ranking`: the entries' indices from
/// the most similar to the least, each with whether it is similar enough.
/// Of the first `top_k` places, those similar enough are kept, in order.
pub fn pick_memories(entries: &[MemoryEntry], ranking: &[(usize, bool)], top_k: usize) -> (r: Vec<
    String,
>)
    requires
        forall|i: int|
            0 <= i < top(ranking@, top_k as nat).len() && (#[trigger] ranking@[i]).1 ==> (
            ranking@[i].0 as int) < entries@.len(),
    ensures
        r@.map_values(|s: String| s@) == picked(entries@, top(ranking@, top_k as nat)),
        r@.len() <= top_k,
        r@.map_values(|s: String| s@) == top(ranking@, top_k as nat).filter(
            |p: (usize, bool)| p.1,
        ).map_values(|p: (usize, bool)| entries@[p.0 as int].content@),
{
    let n = if top_k < ranking.len() {
        top_k
    } else {
        ranking.len()
    };
    let ghost chosen = top(ranking@, top_k as nat);
    assert(chosen.len() == n);
    let mut r: Vec<String> = Vec::new();
    let mut i: usize = 0;
    while i < n
        invariant
            n == chosen.len(),
            n <= ranking@.len(),
            chosen == top(ranking@, top_k as nat),
            forall|t: int| 0 <= t < n ==> chosen[t] == ranking@[t],
            forall|t: int|
                0 <= t < chosen.len() && (#[trigger] ranking@[t]).1 ==> (ranking@[t].0 as int)
                    < entries@.len(),
            i <= n,
            r@.map_values(|s: String| s@) == picked(entries@, chosen.take(i as int)),
        decreases n - i,
    {
        let (idx, relevant) = ranking[i];
        assert(chosen.take(i + 1).drop_last() =~= chosen.take(i as int));
        assert(chosen.take(i + 1).last() == ranking@[i as int]);
        if relevant {
            r.push(entries[idx].content.clone());
            assert(r@.map_values(|s: String| s@) =~= picked(entries@, chosen.take(i + 1)));
        }
        i = i + 1;
    }
    assert(chosen.take(n as int) =~= chosen);
    proof {
        picked_are_stored(entries@, chosen);
        picked_only_relevant(entries@, chosen);
    }
    r
}

} // verus!
