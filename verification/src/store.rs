//! The gem store: the authoritative in-memory mapping from gem identifier
//! to gem record. Every mutation is mirrored to the persistence adapter
//! before the in-memory state changes, so memory and storage never
//! silently diverge.
use crate::data::{DataGem, GemView};
use crate::records::{
    entries_map, key_seq, keys_unique, lemma_lookup_at, lemma_lookup_congruence,
    lemma_lookup_some_iff, lemma_map_empty, lemma_map_push, lemma_map_remove, lemma_map_update,
    lemma_unique_remove, lemma_unique_update, lookup,
};
use crate::storage::{StorageAdapter, StorageError};
use vstd::pervasive::VecAdditionalExecFns;
use vstd::prelude::*;

verus! {

/// The in-memory gem collection together with the persistence adapter it
/// mirrors every mutation to.
///
/// In the single-loop session model the UI layer re-renders when the store
/// notifies it of a change; `notices` counts those notifications, exactly
/// one per successful mutation.
pub struct GemStore {
    entries: Vec<(String, DataGem)>,
    storage: StorageAdapter,
    notices: Ghost<nat>,
}

impl GemStore {
    /// The in-memory entries, in iteration order.
    pub closed spec fn entry_seq(&self) -> Seq<(String, DataGem)> {
        self.entries@
    }

    /// The persistence adapter the store mirrors to.
    pub closed spec fn adapter(&self) -> StorageAdapter {
        self.storage
    }

    /// The collection read as a mapping from identifier to gem value.
    pub open spec fn view(&self) -> Map<Seq<char>, GemView> {
        entries_map(self.entry_seq())
    }

    /// The identifiers in iteration order.
    pub open spec fn ids(&self) -> Seq<Seq<char>> {
        key_seq(self.entry_seq())
    }

    /// Whether the backing store currently fails every write.
    pub open spec fn spec_failing(&self) -> bool {
        self.adapter().spec_failing()
    }

    /// How many times the store has notified its observers: exactly once
    /// per successful mutation, never on a failed or no-op one.
    pub closed spec fn notifications(&self) -> nat {
        self.notices@
    }

    /// Identifiers are unique, and storage holds exactly the in-memory
    /// mapping.
    pub open spec fn wf(&self) -> bool {
        &&& keys_unique(self.entry_seq())
        &&& self.adapter().wf()
        &&& self.adapter()@ == self@
    }

    /// Loads the full collection from the persistence adapter and takes
    /// ownership of it.
    pub fn load(storage: StorageAdapter) -> (r: Result<GemStore, StorageError>)
        requires
            storage.wf(),
        ensures
            storage.spec_failing() ==> r is Err,
            !storage.spec_failing() ==> r is Ok && r->Ok_0.wf() && r->Ok_0@ == storage@
                && r->Ok_0.ids() == key_seq(storage.record_seq()) && r->Ok_0.adapter() == storage
                && r->Ok_0.notifications() == 0,
    {
        let entries = match storage.export() {
            Ok(entries) => entries,
            Err(e) => {
                return Err(e);
            },
        };
        let store = GemStore { entries, storage, notices: Ghost(0) };
        proof {
            assert forall|k: Seq<char>|
                lookup(store.entries@, k) == lookup(
                    store.storage.record_seq(),
                    k,
                ) by {
                lemma_lookup_congruence(store.entries@, store.storage.record_seq(), k);
            }
            assert(store@ =~= store.storage@);
            assert forall|i: int, j: int|
                0 <= i < j < store.entries@.len() implies store.entries@[i].0@
                != store.entries@[j].0@ by {
                assert(store.storage.record_seq()[i].0@ != store.storage.record_seq()[j].0@);
            }
            assert(store.ids() =~= key_seq(store.storage.record_seq()));
        }
        Ok(store)
    }

    /// The current full collection, a read-only snapshot in iteration
    /// order.
    pub fn list(&self) -> (r: &Vec<(String, DataGem)>)
        ensures
            r@ == self.entry_seq(),
    {
        &self.entries
    }

    /// How many gems the store holds.
    pub fn len(&self) -> (r: usize)
        ensures
            r == self.entry_seq().len(),
            r == self.ids().len(),
    {
        self.entries.len()
    }

    /// Read-only access to the persistence adapter, for checking what is
    /// actually stored.
    pub fn persistence(&self) -> (r: &StorageAdapter)
        ensures
            *r == self.adapter(),
    {
        &self.storage
    }

    /// Marks the backing store as unavailable (or available again); the
    /// collection and the stored records are kept.
    pub fn set_storage_failing(&mut self, failing: bool)
        requires
            old(self).wf(),
        ensures
            final(self).wf(),
            final(self)@ == old(self)@,
            final(self).ids() == old(self).ids(),
            final(self).entry_seq() == old(self).entry_seq(),
            final(self).spec_failing() == failing,
            final(self).notifications() == old(self).notifications(),
    {
        self.storage.set_failing(failing);
    }

    /// The position of the entry stored under `id`, if any.
    fn find(&self, id: &String) -> (r: Option<usize>)
        ensures
            match r {
                Some(i) => i < self.entry_seq().len() && self.entry_seq()[i as int].0@ == id@,
                None => forall|j: int|
                    0 <= j < self.entry_seq().len() ==> self.entry_seq()[j].0@ != id@,
            },
    {
        let mut i: usize = 0;
        while i < self.entries.len()
            invariant
                i <= self.entries.len(),
                forall|j: int| 0 <= j < i ==> self.entries@[j].0@ != id@,
            decreases self.entries.len() - i,
        {
            if self.entries[i].0 == *id {
                return Some(i);
            }
            i = i + 1;
        }
        None
    }

    /// The gem stored under `id`, if any.
    pub fn get(&self, id: &String) -> (r: Option<&DataGem>)
        requires
            self.wf(),
        ensures
            match r {
                Some(g) => self@.contains_key(id@) && g@ == self@[id@],
                None => !self@.contains_key(id@),
            },
    {
        match self.find(id) {
            Some(i) => {
                proof {
                    lemma_lookup_at(self.entries@, i as int, id@);
                }
                Some(&self.entries[i].1)
            },
            None => {
                proof {
                    lemma_lookup_some_iff(self.entries@, id@);
                }
                None
            },
        }
    }

    /// Inserts the gem, or fully replaces the gem already stored under
    /// `id`. The persistence write comes first: when it fails, the
    /// in-memory collection is left exactly as it was.
    pub fn upsert(&mut self, id: String, gem: DataGem) -> (r: Result<(), StorageError>)
        requires
            old(self).wf(),
        ensures
            final(self).wf(),
            final(self).spec_failing() == old(self).spec_failing(),
            old(self).spec_failing() ==> r is Err && *final(self) == *old(self),
            !old(self).spec_failing() ==> r is Ok && final(self)@ == old(self)@.insert(id@, gem@)
                && final(self).ids() == (if old(self)@.contains_key(id@) {
                old(self).ids()
            } else {
                old(self).ids().push(id@)
            }) && final(self).notifications() == old(self).notifications() + 1,
    {
        match self.storage.save(&id, &gem) {
            Ok(()) => (),
            Err(e) => {
                return Err(e);
            },
        }
        match self.find(&id) {
            Some(i) => {
                proof {
                    lemma_lookup_at(self.entries@, i as int, id@);
                    lemma_map_update(self.entries@, i as int, (id, gem));
                    lemma_unique_update(self.entries@, i as int, (id, gem));
                    assert(key_seq(self.entries@.update(i as int, (id, gem))) =~= key_seq(
                        self.entries@,
                    ));
                }
                self.entries.set(i, (id, gem));
            },
            None => {
                proof {
                    lemma_lookup_some_iff(self.entries@, id@);
                    lemma_map_push(self.entries@, (id, gem));
                    assert forall|a: int, b: int|
                        0 <= a < b < self.entries@.push((id, gem)).len() implies self.entries@.push(
                        (id, gem),
                    )[a].0@ != self.entries@.push((id, gem))[b].0@ by {
                        if b < self.entries@.len() {
                            assert(self.entries@[a].0@ != self.entries@[b].0@);
                        } else {
                            assert(self.entries@[a].0@ != id@);
                        }
                    }
                    assert(key_seq(self.entries@.push((id, gem))) =~= key_seq(
                        self.entries@,
                    ).push(id@));
                }
                self.entries.push((id, gem));
            },
        }
        self.notices = Ghost(self.notices@ + 1);
        Ok(())
    }

    /// Removes the gem stored under `id` and its persisted record. Removing
    /// an absent identifier is a no-op, not an error, and never touches
    /// storage.
    pub fn delete(&mut self, id: &String) -> (r: Result<(), StorageError>)
        requires
            old(self).wf(),
        ensures
            final(self).wf(),
            final(self).spec_failing() == old(self).spec_failing(),
            !old(self)@.contains_key(id@) ==> r is Ok && *final(self) == *old(self),
            old(self)@.contains_key(id@) && old(self).spec_failing() ==> r is Err && *final(self)
                == *old(self),
            old(self)@.contains_key(id@) && !old(self).spec_failing() ==> r is Ok && final(self)@
                == old(self)@.remove(id@) && final(self).notifications() == old(self).notifications() + 1 && exists|i: int|
                0 <= i < old(self).ids().len() && old(self).ids()[i] == id@ && final(self).ids()
                    == old(self).ids().remove(i),
    {
        let i = match self.find(id) {
            Some(i) => i,
            None => {
                proof {
                    lemma_lookup_some_iff(self.entries@, id@);
                }
                return Ok(());
            },
        };
        proof {
            lemma_lookup_at(self.entries@, i as int, id@);
        }
        match self.storage.delete(id) {
            Ok(()) => (),
            Err(e) => {
                return Err(e);
            },
        }
        proof {
            lemma_map_remove(self.entries@, i as int);
            lemma_unique_remove(self.entries@, i as int);
            assert(key_seq(self.entries@.remove(i as int)) =~= key_seq(self.entries@).remove(
                i as int,
            ));
            assert(key_seq(self.entries@)[i as int] == id@);
        }
        self.entries.remove(i);
        self.notices = Ghost(self.notices@ + 1);
        proof {
            assert(old(self).ids()[i as int] == id@);
            assert(self.ids() == old(self).ids().remove(i as int));
        }
        Ok(())
    }

    /// Removes every gem and every persisted record.
    pub fn clear(&mut self) -> (r: Result<(), StorageError>)
        requires
            old(self).wf(),
        ensures
            final(self).wf(),
            final(self).spec_failing() == old(self).spec_failing(),
            old(self).spec_failing() ==> r is Err && *final(self) == *old(self),
            !old(self).spec_failing() ==> r is Ok && final(self)@ == Map::<
                Seq<char>,
                GemView,
            >::empty() && final(self).ids() == Seq::<Seq<char>>::empty() && final(self).notifications() == old(self).notifications() + 1,
    {
        match self.storage.clear_all() {
            Ok(()) => (),
            Err(e) => {
                return Err(e);
            },
        }
        self.entries.clear();
        self.notices = Ghost(self.notices@ + 1);
        proof {
            assert(self.entries@ =~= Seq::<(String, DataGem)>::empty());
            lemma_map_empty();
            assert(key_seq(self.entries@) =~= Seq::<Seq<char>>::empty());
        }
        Ok(())
    }
}

/// The store is a true mapping: however it was built, the listed snapshot
/// never contains two entries with the same identifier.
pub proof fn lemma_list_keys_unique(store: GemStore)
    requires
        store.wf(),
    ensures
        forall|i: int, j: int|
            0 <= i < j < store.entry_seq().len() ==> store.entry_seq()[i].0@
                != store.entry_seq()[j].0@,
{
}

/// Every upsert is mirrored: in any well-formed store whose mapping came
/// out of an upsert, a fresh read of the persistence adapter yields the
/// upserted gem under its identifier.
pub proof fn lemma_upsert_persisted(pre: GemStore, post: GemStore, id: Seq<char>, gem: GemView)
    requires
        post.wf(),
        post@ == pre@.insert(id, gem),
    ensures
        post.adapter()@.contains_key(id),
        post.adapter()@[id] == gem,
{
}

} // verus!
