//! Properties that relate several operations.
//!
//! Each law is stated over the model, in the functions that the contracts of
//! the operations are written in, so that it holds of every store the crate
//! can build. A law about time speaks of the instants that the operations are
//! given; that those instants follow a real clock is the caller's business.

use vstd::prelude::*;
use crate::config::{MAX_ENTRIES, SWEEP_INTERVAL_MILLIS, TTL_MILLIS};
use crate::entry::Flags;
use crate::model::{
    holds, inserted, lemma_filter_well_formed, lemma_inserted_well_formed, lemma_lookup_at,
    lemma_lookup_filter, lemma_lookup_inserted, lemma_removed_absent, lemma_removed_clears, live,
    lookup, removed, swept, visible, well_formed, Record,
};
use crate::service::{deletion_report, fresh_entry, reports, DeleteResult, ReadResult};
use crate::sweeper::{contents_after, transition, SweeperAction, SweeperEvent, SweeperState};

verus! {

/// Identifiers stay unique. Contents in which no identifier occurs twice, and
/// which keep the capacity bound, still do after any operation: an insertion
/// under an identifier that is not held, a removal, a sweep.
pub proof fn law_identifiers_stay_unique(s: Seq<Record>, r: Record, id: Seq<char>, now: u64)
    requires
        well_formed(s),
        !holds(s, r.id),
    ensures
        well_formed(inserted(s, r)),
        well_formed(removed(s, id)),
        well_formed(swept(s, now)),
{
    lemma_inserted_well_formed(s, r);
    lemma_filter_well_formed(s, |x: Record| x.id != id);
    lemma_filter_well_formed(s, |x: Record| live(x.entry, now));
}

/// An insertion never leaves more than `MAX_ENTRIES` records, whatever was
/// held before.
pub proof fn law_capacity_is_kept(s: Seq<Record>, r: Record)
    requires
        s.len() <= MAX_ENTRIES,
    ensures
        inserted(s, r).len() <= MAX_ENTRIES,
        inserted(s, r).len() == if s.len() < MAX_ENTRIES {
            s.len() + 1
        } else {
            s.len()
        },
{
}

/// What an insertion does to lookups. The new record is found. Every record
/// held before is found unchanged, except that a store that was full has given
/// up its oldest record, and that one only.
pub proof fn law_insertion_evicts_at_most_the_oldest(s: Seq<Record>, r: Record, i: int)
    requires
        well_formed(s),
        !holds(s, r.id),
        0 <= i < s.len(),
    ensures
        lookup(inserted(s, r), r.id) == Some(r.entry),
        lookup(inserted(s, r), s[i].id) == if s.len() == MAX_ENTRIES && i == 0 {
            None
        } else {
            Some(s[i].entry)
        },
{
    lemma_lookup_at(s, i);
    lemma_lookup_inserted(s, r, r.id);
    lemma_lookup_inserted(s, r, s[i].id);
    if i > 0 && s.len() == MAX_ENTRIES {
        assert(s[0].id != s[i].id);
    }
}

/// The time to live is kept. An entry created at `created_at`, whatever
/// instant that is, expires at `created_at + TTL_MILLIS`: it is read at every
/// instant before that and at none from then on, as long as nobody removes
/// it. A sweep at an instant up to the reader's changes nothing in that.
pub proof fn law_time_to_live(
    s: Seq<Record>,
    id: Seq<char>,
    payload: Seq<char>,
    flags: Flags,
    created_at: u64,
    swept_at: u64,
    read_at: u64,
)
    requires
        well_formed(s),
        !holds(s, id),
        swept_at <= read_at,
    ensures
        ({
            let entry = fresh_entry(payload, flags, created_at);
            let after = inserted(s, Record { id, entry });
            let owed = if read_at < created_at + TTL_MILLIS {
                Some(entry)
            } else {
                None
            };
            &&& entry.expires_at == created_at + TTL_MILLIS
            &&& visible(after, id, read_at) == owed
            &&& visible(swept(after, swept_at), id, read_at) == owed
        }),
{
    let entry = fresh_entry(payload, flags, created_at);
    let record = Record { id, entry };
    let after = inserted(s, record);
    lemma_inserted_well_formed(s, record);
    lemma_lookup_at(after, after.len() - 1);
    lemma_lookup_filter(after, |x: Record| live(x.entry, swept_at), id);
}

/// Deleting twice. After a removal the identifier is not held, so a second
/// deletion finds nothing, whenever it comes, and changes nothing.
pub proof fn law_delete_is_idempotent(s: Seq<Record>, id: Seq<char>, now: u64)
    ensures
        !holds(removed(s, id), id),
        deletion_report(visible(removed(s, id), id, now)) == DeleteResult::NotFound,
        removed(removed(s, id), id) == removed(s, id),
{
    lemma_removed_clears(s, id);
    lemma_removed_absent(removed(s, id), id);
}

/// No read after a delete. Once an identifier has been removed, no read or
/// redemption of it finds anything, at any instant, and every other identifier
/// is read as before.
pub proof fn law_deleted_entry_is_unreadable(
    s: Seq<Record>,
    id: Seq<char>,
    other: Seq<char>,
    now: u64,
    result: ReadResult,
)
    requires
        well_formed(s),
        other != id,
    ensures
        visible(removed(s, id), id, now) is None,
        reports(result, visible(removed(s, id), id, now), now) ==> result == ReadResult::NotFound,
        visible(removed(s, id), other, now) == visible(s, other, now),
{
    lemma_removed_clears(s, id);
    lemma_lookup_filter(s, |x: Record| x.id != id, other);
}

/// A sweep leaves exactly what a reader could still see. After a sweep at
/// `now`, the entry under any identifier is the one that was visible at `now`
/// before the sweep; an expired entry is gone.
pub proof fn law_sweep_removes_the_expired(s: Seq<Record>, id: Seq<char>, now: u64)
    requires
        well_formed(s),
    ensures
        lookup(swept(s, now), id) == visible(s, id, now),
{
    lemma_lookup_filter(s, |x: Record| live(x.entry, now), id);
}

/// Expired entries do not outlive one sweep interval. A running sweeper
/// answers every event but shutdown by asking for a sleep of
/// `SWEEP_INTERVAL_MILLIS`. If its timer fired at `last_tick` and fires again
/// at `tick`, no more than one interval later, an entry that expired between
/// the two is gone after the second, less than one interval after it expired.
pub proof fn law_expired_entries_are_swept_within_one_interval(
    s: Seq<Record>,
    id: Seq<char>,
    last_tick: u64,
    tick: u64,
)
    requires
        well_formed(s),
        lookup(s, id) matches Some(e) && last_tick < e.expires_at <= tick,
        tick - last_tick <= SWEEP_INTERVAL_MILLIS,
    ensures
        transition(SweeperState::Running, SweeperEvent::TimerFired { now: last_tick }) == (
            SweeperState::Running,
            SweeperAction::Sleep { millis: SWEEP_INTERVAL_MILLIS },
        ),
        !holds(
            contents_after(SweeperState::Running, SweeperEvent::TimerFired { now: tick }, s),
            id,
        ),
        tick - lookup(s, id)->0.expires_at < SWEEP_INTERVAL_MILLIS,
{
    lemma_lookup_filter(s, |x: Record| live(x.entry, tick), id);
}

} // verus!
