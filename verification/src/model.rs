//! The mathematical model of the store.
//!
//! A store is a sequence of records in the order in which they were inserted,
//! oldest first. Every contract in the crate is stated over the functions of
//! this module.

use vstd::prelude::*;
use crate::config::MAX_ENTRIES;
use crate::entry::EntryView;

verus! {

/// An identifier together with the entry stored under it.
pub struct Record {
    pub id: Seq<char>,
    pub entry: EntryView,
}

/// Whether some record of `s` carries the identifier `id`.
pub open spec fn holds(s: Seq<Record>, id: Seq<char>) -> bool {
    exists|i: int| 0 <= i < s.len() && (#[trigger] s[i]).id == id
}

/// A position at which `s` carries `id`; meaningful where `holds(s, id)`.
pub open spec fn position(s: Seq<Record>, id: Seq<char>) -> int {
    choose|i: int| 0 <= i < s.len() && (#[trigger] s[i]).id == id
}

/// The entry stored under `id`, if there is one.
pub open spec fn lookup(s: Seq<Record>, id: Seq<char>) -> Option<EntryView> {
    if holds(s, id) {
        Some(s[position(s, id)].entry)
    } else {
        None
    }
}

/// No identifier occurs in two records.
pub open spec fn distinct_ids(s: Seq<Record>) -> bool {
    forall|i: int, j: int|
        0 <= i < j < s.len() ==> (#[trigger] s[i]).id != (#[trigger] s[j]).id
}

/// What holds of the contents of every store: identifiers are unique and the
/// capacity bound is kept.
pub open spec fn well_formed(s: Seq<Record>) -> bool {
    distinct_ids(s) && s.len() <= MAX_ENTRIES
}

/// Whether an entry can still be read at the instant `now`.
pub open spec fn live(e: EntryView, now: u64) -> bool {
    now < e.expires_at
}

/// What a reader gets for `id` at the instant `now`: the entry stored under
/// it, unless that entry has expired.
pub open spec fn visible(s: Seq<Record>, id: Seq<char>, now: u64) -> Option<EntryView> {
    match lookup(s, id) {
        Some(e) => if live(e, now) {
            Some(e)
        } else {
            None
        },
        None => None,
    }
}

/// Milliseconds for which `e` can still be read at the instant `now`; zero
/// once it has expired.
pub open spec fn remaining(e: EntryView, now: u64) -> u128 {
    if now < e.expires_at {
        (e.expires_at - now) as u128
    } else {
        0
    }
}

/// The contents after `r` has been inserted: a full store first gives up its
/// oldest record, then `r` is added as the newest.
pub open spec fn inserted(s: Seq<Record>, r: Record) -> Seq<Record> {
    if s.len() >= MAX_ENTRIES {
        s.drop_first().push(r)
    } else {
        s.push(r)
    }
}

/// The contents without the records that carry `id`; the others keep their
/// order.
pub open spec fn removed(s: Seq<Record>, id: Seq<char>) -> Seq<Record> {
    s.filter(|r: Record| r.id != id)
}

/// The contents after a sweep at the instant `now`: the records that are
/// still live, in their order.
pub open spec fn swept(s: Seq<Record>, now: u64) -> Seq<Record> {
    s.filter(|r: Record| live(r.entry, now))
}

/// Inserting a record under an identifier that is not held yet keeps the
/// contents well formed.
pub proof fn lemma_inserted_well_formed(s: Seq<Record>, r: Record)
    requires
        well_formed(s),
        !holds(s, r.id),
    ensures
        well_formed(inserted(s, r)),
{
    let after = inserted(s, r);
    let shift: int = if s.len() >= MAX_ENTRIES {
        1
    } else {
        0
    };
    assert forall|i: int, j: int| 0 <= i < j < after.len() implies (#[trigger] after[i]).id != (
    #[trigger] after[j]).id by {
        assert(after[i] == s[i + shift]);
        if j < after.len() - 1 {
            assert(after[j] == s[j + shift]);
        }
    }
}

/// Under distinct identifiers, the record at a position is the one that a
/// lookup of its identifier finds.
pub proof fn lemma_lookup_at(s: Seq<Record>, i: int)
    requires
        distinct_ids(s),
        0 <= i < s.len(),
    ensures
        holds(s, s[i].id),
        position(s, s[i].id) == i,
        lookup(s, s[i].id) == Some(s[i].entry),
{
    let p = position(s, s[i].id);
    assert(s[p].id == s[i].id);
    if p < i {
        assert(s[p].id != s[i].id);
    }
    if i < p {
        assert(s[i].id != s[p].id);
    }
}

/// What a lookup finds after an insertion: the new entry under the new
/// identifier, nothing under the identifier of the oldest record of a store
/// that was full, and under any other identifier what was there before.
pub proof fn lemma_lookup_inserted(s: Seq<Record>, r: Record, id: Seq<char>)
    requires
        well_formed(s),
        !holds(s, r.id),
    ensures
        lookup(inserted(s, r), id) == if id == r.id {
            Some(r.entry)
        } else if s.len() >= MAX_ENTRIES && id == s[0].id {
            None
        } else {
            lookup(s, id)
        },
{
    let after = inserted(s, r);
    let shift: int = if s.len() >= MAX_ENTRIES {
        1
    } else {
        0
    };
    lemma_inserted_well_formed(s, r);
    if id == r.id {
        lemma_lookup_at(after, after.len() - 1);
    } else if holds(after, id) {
        let p = position(after, id);
        lemma_lookup_at(after, p);
        assert(after[p] == s[p + shift]);
        lemma_lookup_at(s, p + shift);
        if shift == 1 {
            assert(s[0].id != s[p + 1].id);
        }
    } else if holds(s, id) {
        let q = position(s, id);
        lemma_lookup_at(s, q);
        if q >= shift {
            assert(after[q - shift] == s[q]);
        }
    }
}

/// What a lookup finds after a removal: nothing under the removed
/// identifier, and under any other what was there before.
pub proof fn lemma_lookup_removed(s: Seq<Record>, removed_id: Seq<char>, id: Seq<char>)
    requires
        distinct_ids(s),
    ensures
        lookup(removed(s, removed_id), id) == if id == removed_id {
            None
        } else {
            lookup(s, id)
        },
{
    lemma_lookup_filter(s, |r: Record| r.id != removed_id, id);
}

/// A filter that every record passes changes nothing.
pub proof fn lemma_filter_keeps_all(s: Seq<Record>, pred: spec_fn(Record) -> bool)
    requires
        forall|i: int| 0 <= i < s.len() ==> pred(#[trigger] s[i]),
    ensures
        s.filter(pred) == s,
    decreases s.len(),
{
    reveal(Seq::filter);
    if s.len() > 0 {
        let rest = s.drop_last();
        assert forall|i: int| 0 <= i < rest.len() implies pred(#[trigger] rest[i]) by {
            assert(rest[i] == s[i]);
        }
        lemma_filter_keeps_all(rest, pred);
        assert(rest.push(s.last()) =~= s);
    }
}

/// A filter that exactly one record fails takes that record out.
pub proof fn lemma_filter_drops_one(s: Seq<Record>, pred: spec_fn(Record) -> bool, at: int)
    requires
        0 <= at < s.len(),
        forall|i: int| 0 <= i < s.len() ==> (pred(#[trigger] s[i]) <==> i != at),
    ensures
        s.filter(pred) == s.remove(at),
    decreases s.len(),
{
    reveal(Seq::filter);
    let rest = s.drop_last();
    if at == s.len() - 1 {
        assert forall|i: int| 0 <= i < rest.len() implies pred(#[trigger] rest[i]) by {
            assert(rest[i] == s[i]);
        }
        lemma_filter_keeps_all(rest, pred);
        assert(rest =~= s.remove(at));
    } else {
        assert forall|i: int| 0 <= i < rest.len() implies (pred(#[trigger] rest[i]) <==> i != at) by {
            assert(rest[i] == s[i]);
        }
        lemma_filter_drops_one(rest, pred, at);
        assert(pred(s[s.len() - 1]));
        assert(rest.remove(at).push(s.last()) =~= s.remove(at));
    }
}

/// Filtering keeps identifiers distinct and never lengthens the contents.
pub proof fn lemma_filter_well_formed(s: Seq<Record>, pred: spec_fn(Record) -> bool)
    requires
        distinct_ids(s),
    ensures
        distinct_ids(s.filter(pred)),
        s.filter(pred).len() <= s.len(),
    decreases s.len(),
{
    reveal(Seq::filter);
    if s.len() > 0 {
        let rest = s.drop_last();
        let kept = rest.filter(pred);
        assert forall|i: int, j: int| 0 <= i < j < rest.len() implies (#[trigger] rest[i]).id != (
        #[trigger] rest[j]).id by {
            assert(rest[i] == s[i] && rest[j] == s[j]);
        }
        lemma_filter_well_formed(rest, pred);
        if pred(s.last()) {
            let out = kept.push(s.last());
            assert forall|i: int, j: int| 0 <= i < j < out.len() implies (#[trigger] out[i]).id != (
            #[trigger] out[j]).id by {
                if j == out.len() - 1 {
                    assert(kept.contains(kept[i]));
                    rest.lemma_filter_contains_rev(pred, kept[i]);
                    let k = choose|k: int| 0 <= k < rest.len() && rest[k] == kept[i];
                    assert(s[k] == kept[i]);
                    assert(s[k].id != s[s.len() - 1].id);
                } else {
                    assert(out[i] == kept[i] && out[j] == kept[j]);
                }
            }
        }
    }
}

/// Under distinct identifiers, a lookup in filtered contents finds what the
/// lookup in the whole finds, provided that record passes the filter.
pub proof fn lemma_lookup_filter(s: Seq<Record>, pred: spec_fn(Record) -> bool, id: Seq<char>)
    requires
        distinct_ids(s),
    ensures
        lookup(s.filter(pred), id) == match lookup(s, id) {
            Some(e) => if pred(Record { id, entry: e }) {
                Some(e)
            } else {
                None
            },
            None => None,
        },
{
    let kept = s.filter(pred);
    lemma_filter_well_formed(s, pred);
    if holds(kept, id) {
        let j = position(kept, id);
        lemma_lookup_at(kept, j);
        assert(kept.contains(kept[j]));
        s.lemma_filter_contains_rev(pred, kept[j]);
        let k = choose|k: int| 0 <= k < s.len() && s[k] == kept[j];
        lemma_lookup_at(s, k);
        s.lemma_filter_pred(pred, j);
    } else if holds(s, id) {
        let i = position(s, id);
        lemma_lookup_at(s, i);
        if pred(s[i]) {
            s.lemma_filter_contains(pred, i);
            let j = choose|j: int| 0 <= j < kept.len() && kept[j] == s[i];
            assert(kept[j].id == id);
        }
    }
}

/// After a removal the identifier is not held.
pub proof fn lemma_removed_clears(s: Seq<Record>, id: Seq<char>)
    ensures
        !holds(removed(s, id), id),
        lookup(removed(s, id), id) is None,
{
    let pred = |x: Record| x.id != id;
    let kept = s.filter(pred);
    if holds(kept, id) {
        let j = choose|j: int| 0 <= j < kept.len() && (#[trigger] kept[j]).id == id;
        s.lemma_filter_pred(pred, j);
    }
}

/// Removing an identifier that the contents do not hold changes nothing.
pub proof fn lemma_removed_absent(s: Seq<Record>, id: Seq<char>)
    requires
        !holds(s, id),
    ensures
        removed(s, id) == s,
{
    lemma_filter_keeps_all(s, |r: Record| r.id != id);
}

/// Under distinct identifiers, removing the identifier found at a position
/// takes out the record at that position and no other.
pub proof fn lemma_removed_at(s: Seq<Record>, at: int)
    requires
        distinct_ids(s),
        0 <= at < s.len(),
    ensures
        removed(s, s[at].id) == s.remove(at),
{
    let id = s[at].id;
    let pred = |r: Record| r.id != id;
    assert forall|i: int| 0 <= i < s.len() implies (pred(#[trigger] s[i]) <==> i != at) by {
        if i < at {
            assert(s[i].id != s[at].id);
        }
        if at < i {
            assert(s[at].id != s[i].id);
        }
    }
    lemma_filter_drops_one(s, pred, at);
}

} // verus!
