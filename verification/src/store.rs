//! The bounded store.

use vstd::prelude::*;
use std::collections::VecDeque;
use crate::config::MAX_ENTRIES;
use crate::entry::Entry;
use crate::model::{
    holds, inserted, lemma_filter_well_formed, lemma_inserted_well_formed, lemma_lookup_at,
    lemma_lookup_filter, lemma_lookup_inserted, lemma_lookup_removed, lemma_removed_absent,
    lemma_removed_at, live, lookup, remaining, removed, swept, visible, well_formed, Record,
};

verus! {

struct Slot {
    id: String,
    entry: Entry,
}

impl View for Slot {
    type V = Record;

    closed spec fn view(&self) -> Record {
        Record { id: self.id@, entry: self.entry@ }
    }
}

/// The records that a sequence of slots stands for.
spec fn records(slots: Seq<Slot>) -> Seq<Record> {
    slots.map_values(|slot: Slot| slot@)
}

/// A bounded mapping from identifiers to entries.
///
/// The store owns its entries. Its view is the sequence of its records in
/// insertion order, and that sequence is always `well_formed`.
///
/// The records lie in a queue, oldest at the front, so that a full store
/// gives up its oldest record without moving the others. Looking an
/// identifier up walks the queue.
pub struct Store {
    slots: VecDeque<Slot>,
}

impl View for Store {
    type V = Seq<Record>;

    closed spec fn view(&self) -> Seq<Record> {
        records(self.slots@)
    }
}

impl Store {
    #[verifier::type_invariant]
    spec fn inv(self) -> bool {
        well_formed(self@)
    }

    /// An empty store.
    pub fn new() -> (store: Store)
        ensures
            store@ == Seq::<Record>::empty(),
            well_formed(store@),
    {
        let store = Store { slots: VecDeque::new() };
        assert(store@ =~= Seq::<Record>::empty());
        store
    }

    /// Number of entries held, expired ones included.
    pub fn len(&self) -> (n: usize)
        ensures
            n == self@.len(),
            n <= MAX_ENTRIES,
            well_formed(self@),
    {
        proof {
            use_type_invariant(self);
        }
        self.slots.len()
    }

    /// Hands out the slots and leaves the store empty.
    ///
    /// The invariant is asked for whenever the store is written to, so the
    /// operations that change the slots lift them out, work on them, and put
    /// them back in one assignment once they are well formed again.
    fn lift(&mut self) -> (slots: VecDeque<Slot>)
        ensures
            records(slots@) == old(self)@,
            final(self)@ == Seq::<Record>::empty(),
    {
        let mut slots: VecDeque<Slot> = VecDeque::new();
        core::mem::swap(&mut self.slots, &mut slots);
        assert(self@ =~= Seq::<Record>::empty());
        slots
    }

    /// Position of the slot that carries `id`.
    fn find(&self, id: &str) -> (at: Option<usize>)
        ensures
            match at {
                Some(i) => i < self@.len() && self@[i as int].id == id@,
                None => !holds(self@, id@),
            },
    {
        let key: String = id.to_owned();
        let mut i: usize = 0;
        while i < self.slots.len()
            invariant
                i <= self.slots.len(),
                key@ == id@,
                forall|j: int| 0 <= j < i ==> (#[trigger] self@[j]).id != id@,
            decreases self.slots.len() - i,
        {
            if self.slots[i].id == key {
                return Some(i);
            }
            i += 1;
        }
        None
    }

    /// Stores `entry` under `id` as the newest record. A store that already
    /// holds `MAX_ENTRIES` entries first gives up its oldest one.
    ///
    /// The caller has made sure that no entry is stored under `id`.
    pub fn insert(&mut self, id: String, entry: Entry)
        requires
            !holds(old(self)@, id@),
        ensures
            final(self)@ == inserted(old(self)@, Record { id: id@, entry: entry@ }),
            forall|k: Seq<char>|
                #![trigger lookup(final(self)@, k)]
                #![trigger holds(final(self)@, k)]
                lookup(final(self)@, k) == if k == id@ {
                    Some(entry@)
                } else if old(self)@.len() >= MAX_ENTRIES && k == old(self)@[0].id {
                    None
                } else {
                    lookup(old(self)@, k)
                },
            well_formed(final(self)@),
            final(self)@.len() <= MAX_ENTRIES,
    {
        proof {
            use_type_invariant(&*self);
        }
        let ghost before = self@;
        let ghost record = Record { id: id@, entry: entry@ };
        let mut slots = self.lift();
        if slots.len() >= MAX_ENTRIES {
            slots.pop_front();
        }
        slots.push_back(Slot { id, entry });
        proof {
            assert(records(slots@) =~= inserted(before, record));
            lemma_inserted_well_formed(before, record);
            assert forall|k: Seq<char>| #[trigger]
                lookup(inserted(before, record), k) == if k == record.id {
                    Some(record.entry)
                } else if before.len() >= MAX_ENTRIES && k == before[0].id {
                    None
                } else {
                    lookup(before, k)
                } by {
                lemma_lookup_inserted(before, record, k);
            }
        }
        self.slots = slots;
    }

    /// Whether an entry is stored under `id`, expired or not.
    pub fn contains(&self, id: &str) -> (found: bool)
        ensures
            found == holds(self@, id@),
    {
        self.find(id).is_some()
    }

    /// The entry stored under `id`, unless it has expired by `now`. The store
    /// stays as it is.
    pub fn get(&self, id: &str, now: u64) -> (found: Option<&Entry>)
        ensures
            found.deep_view() == visible(self@, id@, now),
    {
        proof {
            use_type_invariant(self);
        }
        match self.find(id) {
            Some(i) => {
                proof {
                    lemma_lookup_at(self@, i as int);
                }
                let entry = &self.slots[i].entry;
                if (now as u128) < entry.expires_at {
                    Some(entry)
                } else {
                    None
                }
            },
            None => None,
        }
    }

    /// Takes the entry stored under `id` out of the store and returns it,
    /// unless it has expired by `now`. Where nothing is returned the store
    /// stays as it is.
    pub fn take(&mut self, id: &str, now: u64) -> (taken: Option<Entry>)
        ensures
            taken.deep_view() == visible(old(self)@, id@, now),
            final(self)@ == if taken is Some {
                removed(old(self)@, id@)
            } else {
                old(self)@
            },
            forall|k: Seq<char>|
                #![trigger lookup(final(self)@, k)]
                #![trigger holds(final(self)@, k)]
                lookup(final(self)@, k) == if taken is Some && k == id@ {
                    None
                } else {
                    lookup(old(self)@, k)
                },
            well_formed(final(self)@),
    {
        proof {
            use_type_invariant(&*self);
        }
        match self.find(id) {
            Some(i) => {
                proof {
                    lemma_lookup_at(self@, i as int);
                }
                if (now as u128) < self.slots[i].entry.expires_at {
                    Some(self.remove_at(i).entry)
                } else {
                    None
                }
            },
            None => None,
        }
    }

    /// Removes the entry stored under `id`, expired or not, and says whether
    /// there was one.
    pub fn delete(&mut self, id: &str) -> (existed: bool)
        ensures
            existed == holds(old(self)@, id@),
            final(self)@ == removed(old(self)@, id@),
            forall|k: Seq<char>|
                #![trigger lookup(final(self)@, k)]
                #![trigger holds(final(self)@, k)]
                lookup(final(self)@, k) == if k == id@ {
                    None
                } else {
                    lookup(old(self)@, k)
                },
            well_formed(final(self)@),
    {
        proof {
            use_type_invariant(&*self);
        }
        match self.find(id) {
            Some(i) => {
                self.remove_at(i);
                true
            },
            None => {
                proof {
                    lemma_removed_absent(self@, id@);
                }
                false
            },
        }
    }

    /// Milliseconds for which the entry stored under `id` can still be read
    /// at `now`: zero for one that has expired, nothing where there is none.
    pub fn remaining_ttl(&self, id: &str, now: u64) -> (left: Option<u128>)
        ensures
            left == match lookup(self@, id@) {
                Some(e) => Some(remaining(e, now)),
                None => None,
            },
    {
        proof {
            use_type_invariant(self);
        }
        match self.find(id) {
            Some(i) => {
                proof {
                    lemma_lookup_at(self@, i as int);
                }
                let expires_at = self.slots[i].entry.expires_at;
                if (now as u128) < expires_at {
                    Some(expires_at - now as u128)
                } else {
                    Some(0)
                }
            },
            None => None,
        }
    }

    /// Removes every entry that has expired by `now`.
    pub fn sweep(&mut self, now: u64)
        ensures
            final(self)@ == swept(old(self)@, now),
            forall|k: Seq<char>|
                #![trigger lookup(final(self)@, k)]
                #![trigger holds(final(self)@, k)]
                lookup(final(self)@, k) == visible(old(self)@, k, now),
            well_formed(final(self)@),
    {
        proof {
            use_type_invariant(&*self);
        }
        let ghost before = self@;
        let ghost keep = |r: Record| live(r.entry, now);
        let mut rest = self.lift();
        let mut kept: VecDeque<Slot> = VecDeque::new();
        let ghost mut done: int = 0;
        while rest.len() > 0
            invariant
                0 <= done <= before.len(),
                records(rest@) == before.skip(done),
                keep == |r: Record| live(r.entry, now),
                records(kept@) == before.take(done).filter(keep),
            decreases rest.len(),
        {
            let ghost queued = rest@;
            assert(records(queued).len() == queued.len());
            let slot = rest.pop_front().unwrap();
            proof {
                assert(records(queued)[0] == slot@);
                assert(before.take(done + 1) =~= before.take(done).push(before[done]));
                before.take(done).lemma_filter_push(before[done], keep);
                assert forall|k: int| 0 <= k < rest@.len() implies records(rest@)[k]
                    == before.skip(done + 1)[k] by {
                    assert(rest@[k] == queued[k + 1]);
                    assert(records(queued)[k + 1] == before.skip(done)[k + 1]);
                }
                assert(records(rest@) =~= before.skip(done + 1));
                if keep(slot@) {
                    assert(records(kept@.push(slot)) =~= records(kept@).push(slot@));
                }
            }
            if (now as u128) < slot.entry.expires_at {
                kept.push_back(slot);
            }
            proof {
                done = done + 1;
            }
        }
        proof {
            assert(records(rest@).len() == rest@.len());
            assert(before.take(before.len() as int) =~= before);
            lemma_filter_well_formed(before, keep);
            assert forall|id: Seq<char>| #[trigger]
                lookup(before.filter(keep), id) == visible(before, id, now) by {
                lemma_lookup_filter(before, keep, id);
            }
        }
        self.slots = kept;
    }

    /// Takes the slot at position `at` out of the store.
    fn remove_at(&mut self, at: usize) -> (slot: Slot)
        requires
            at < old(self)@.len(),
        ensures
            slot@ == old(self)@[at as int],
            final(self)@ == removed(old(self)@, old(self)@[at as int].id),
            forall|k: Seq<char>|
                #![trigger lookup(final(self)@, k)]
                #![trigger holds(final(self)@, k)]
                lookup(final(self)@, k) == if k == old(self)@[at as int].id {
                    None
                } else {
                    lookup(old(self)@, k)
                },
            well_formed(final(self)@),
    {
        proof {
            use_type_invariant(&*self);
            lemma_removed_at(self@, at as int);
            lemma_filter_well_formed(self@, |r: Record| r.id != self@[at as int].id);
            assert forall|k: Seq<char>| #[trigger]
                lookup(removed(self@, self@[at as int].id), k) == if k == self@[at as int].id {
                    None
                } else {
                    lookup(self@, k)
                } by {
                lemma_lookup_removed(self@, self@[at as int].id, k);
            }
        }
        let ghost before = self@;
        let mut slots = self.lift();
        assert(records(slots@).len() == slots@.len());
        let slot = slots.remove(at).unwrap();
        assert(records(slots@) =~= before.remove(at as int));
        self.slots = slots;
        slot
    }
}

} // verus!
