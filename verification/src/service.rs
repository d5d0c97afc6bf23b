//! The operations that a transport layer calls.
//!
//! The functions here keep no state of their own. Each works on a store that
//! the caller owns and guards, and takes the current instant from the caller.
//! An identifier that is unknown and one whose entry has expired look the same
//! from here: both are reported as not found.

use vstd::prelude::*;
use crate::config::{MAX_ENTRIES, TTL_MILLIS};
use crate::entry::{Entry, EntryView, Flags};
use crate::error::Error;
use crate::ident::{generate, is_identifier};
use crate::model::{
    holds, inserted, lookup, remaining, removed, visible, well_formed, Record,
};
use crate::store::Store;

verus! {

/// What a read or a redemption gives back.
#[derive(Debug, PartialEq, Eq)]
pub enum ReadResult {
    /// The entry was there and had not expired.
    Found {
        /// The text as it was handed in.
        payload: String,
        /// The metadata as it was handed in.
        flags: Flags,
        /// Milliseconds for which the entry can still be read.
        remaining_ttl: u128,
    },
    /// No entry under that identifier, or one that has expired.
    NotFound,
}

/// What a deletion reports.
#[derive(Clone, Copy, Debug, PartialEq, Eq)]
pub enum DeleteResult {
    /// A readable entry was there and is gone now.
    Existed,
    /// No entry under that identifier, or one that had expired.
    NotFound,
}

/// Whether `result` is what a reader is owed who finds `found` at `now`.
pub open spec fn reports(result: ReadResult, found: Option<EntryView>, now: u64) -> bool {
    match found {
        Some(e) => {
            &&& result matches ReadResult::Found { payload, flags, remaining_ttl }
            &&& payload@ == e.payload
            &&& flags == e.flags
            &&& remaining_ttl == remaining(e, now)
        },
        None => result == ReadResult::NotFound,
    }
}

/// What a deletion reports that finds `found`.
pub open spec fn deletion_report(found: Option<EntryView>) -> DeleteResult {
    if found is Some {
        DeleteResult::Existed
    } else {
        DeleteResult::NotFound
    }
}

/// The entry that `create` stores for a payload handed in at `now`.
pub open spec fn fresh_entry(payload: Seq<char>, flags: Flags, now: u64) -> EntryView {
    EntryView { payload, expires_at: (now + TTL_MILLIS) as u128, flags }
}

/// Stores `payload` under a new identifier and returns the identifier. The
/// entry expires `TTL_MILLIS` after `now`, whatever `now` is.
///
/// Fails where `generate` fails, that is where the random source gave
/// nothing. The store is then unchanged.
pub fn create(store: &mut Store, payload: String, flags: Flags, now: u64) -> (created: Result<
    String,
    Error,
>)
    ensures
        match created {
            Ok(id) => {
                &&& is_identifier(id@)
                &&& !holds(old(store)@, id@)
                &&& final(store)@ == inserted(
                    old(store)@,
                    Record { id: id@, entry: fresh_entry(payload@, flags, now) },
                )
                &&& forall|k: Seq<char>|
                    #![trigger lookup(final(store)@, k)]
                    #![trigger holds(final(store)@, k)]
                    lookup(final(store)@, k) == if k == id@ {
                        Some(fresh_entry(payload@, flags, now))
                    } else if old(store)@.len() >= MAX_ENTRIES && k == old(store)@[0].id {
                        None
                    } else {
                        lookup(old(store)@, k)
                    }
                &&& well_formed(final(store)@)
            },
            Err(e) => e == Error::EntropyUnavailable && final(store)@ == old(store)@,
        },
{
    match generate(store) {
        Ok(id) => {
            let entry = Entry { payload, expires_at: now as u128 + TTL_MILLIS as u128, flags };
            store.insert(id.clone(), entry);
            Ok(id)
        },
        Err(e) => Err(e),
    }
}

/// Reads the entry under `id` and leaves it in the store.
pub fn read(store: &Store, id: &str, now: u64) -> (result: ReadResult)
    ensures
        reports(result, visible(store@, id@, now), now),
{
    match store.get(id, now) {
        Some(entry) => ReadResult::Found {
            payload: entry.payload.clone(),
            flags: entry.flags,
            remaining_ttl: entry.expires_at - now as u128,
        },
        None => ReadResult::NotFound,
    }
}

/// Reads the entry under `id` and removes it: a second redemption of the same
/// identifier finds nothing. Where nothing is found the store is unchanged.
pub fn redeem(store: &mut Store, id: &str, now: u64) -> (result: ReadResult)
    ensures
        reports(result, visible(old(store)@, id@, now), now),
        final(store)@ == if visible(old(store)@, id@, now) is Some {
            removed(old(store)@, id@)
        } else {
            old(store)@
        },
        forall|k: Seq<char>|
            #![trigger lookup(final(store)@, k)]
            #![trigger holds(final(store)@, k)]
            lookup(final(store)@, k) == if result is Found && k == id@ {
                None
            } else {
                lookup(old(store)@, k)
            },
        well_formed(final(store)@),
{
    match store.take(id, now) {
        Some(entry) => ReadResult::Found {
            remaining_ttl: entry.expires_at - now as u128,
            payload: entry.payload,
            flags: entry.flags,
        },
        None => ReadResult::NotFound,
    }
}

/// Removes the entry under `id`. The answer is `Existed` where the entry could
/// still be read at `now`; an expired entry is removed as well, and reported as
/// not found.
pub fn delete(store: &mut Store, id: &str, now: u64) -> (result: DeleteResult)
    ensures
        result == deletion_report(visible(old(store)@, id@, now)),
        final(store)@ == removed(old(store)@, id@),
        forall|k: Seq<char>|
            #![trigger lookup(final(store)@, k)]
            #![trigger holds(final(store)@, k)]
            lookup(final(store)@, k) == if k == id@ {
                None
            } else {
                lookup(old(store)@, k)
            },
        well_formed(final(store)@),
{
    let readable = store.get(id, now).is_some();
    store.delete(id);
    if readable {
        DeleteResult::Existed
    } else {
        DeleteResult::NotFound
    }
}

} // verus!
