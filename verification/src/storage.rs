//! The persistence adapter: key/value storage of serialized gem records
//! under the application's single namespace.
use crate::data::{DataGem, GemView};
use crate::records::{
    entries_map, keys_unique, lemma_lookup_some_iff, lemma_map_empty, lemma_map_push,
    lemma_map_remove, lemma_map_update, lemma_unique_remove, lemma_unique_update,
};
use vstd::pervasive::VecAdditionalExecFns;
use vstd::prelude::*;

verus! {

/// A persistence read or write failed: the backing store is unavailable or
/// corrupt.
#[derive(Debug)]
pub struct StorageError;

/// Key/value storage of gem records. Records are held in memory; `failing`
/// models the backing store being unavailable or corrupt, in which case
/// every read and write fails with `StorageError` and leaves the records
/// untouched.
pub struct StorageAdapter {
    records: Vec<(String, DataGem)>,
    failing: bool,
}

impl StorageAdapter {
    /// The stored records, in storage order.
    pub closed spec fn record_seq(&self) -> Seq<(String, DataGem)> {
        self.records@
    }

    /// Whether the backing store currently fails every operation.
    pub closed spec fn spec_failing(&self) -> bool {
        self.failing
    }

    /// The stored records read as a mapping from identifier to gem value.
    pub open spec fn view(&self) -> Map<Seq<char>, GemView> {
        entries_map(self.record_seq())
    }

    /// No two records share an identifier.
    pub open spec fn wf(&self) -> bool {
        keys_unique(self.record_seq())
    }

    /// An empty, healthy backing store.
    pub fn new() -> (r: StorageAdapter)
        ensures
            r.wf(),
            r@ == Map::<Seq<char>, GemView>::empty(),
            r.record_seq().len() == 0,
            !r.spec_failing(),
    {
        proof {
            lemma_map_empty();
        }
        let r = StorageAdapter { records: Vec::new(), failing: false };
        proof {
            assert(r.records@ =~= Seq::<(String, DataGem)>::empty());
        }
        r
    }

    /// Marks the backing store as unavailable (or available again); the
    /// records themselves are kept.
    pub fn set_failing(&mut self, failing: bool)
        ensures
            final(self).record_seq() == old(self).record_seq(),
            final(self).spec_failing() == failing,
    {
        self.failing = failing;
    }

    /// The position of the record stored under `id`, if any.
    fn find(&self, id: &String) -> (r: Option<usize>)
        ensures
            match r {
                Some(i) => i < self.record_seq().len() && self.record_seq()[i as int].0@ == id@,
                None => forall|j: int|
                    0 <= j < self.record_seq().len() ==> self.record_seq()[j].0@ != id@,
            },
    {
        let mut i: usize = 0;
        while i < self.records.len()
            invariant
                i <= self.records.len(),
                forall|j: int| 0 <= j < i ==> self.records@[j].0@ != id@,
            decreases self.records.len() - i,
        {
            if self.records[i].0 == *id {
                return Some(i);
            }
            i = i + 1;
        }
        None
    }

    /// Saves one record: inserts it, or fully replaces the record already
    /// stored under `id`.
    pub fn save(&mut self, id: &String, gem: &DataGem) -> (r: Result<(), StorageError>)
        requires
            old(self).wf(),
        ensures
            final(self).wf(),
            final(self).spec_failing() == old(self).spec_failing(),
            old(self).spec_failing() ==> r is Err && *final(self) == *old(self),
            !old(self).spec_failing() ==> r is Ok && final(self)@ == old(self)@.insert(id@, gem@),
    {
        if self.failing {
            return Err(StorageError);
        }
        match self.find(id) {
            Some(i) => {
                let p = (id.clone(), gem.clone());
                proof {
                    lemma_map_update(self.records@, i as int, p);
                    lemma_unique_update(self.records@, i as int, p);
                }
                self.records.set(i, p);
            },
            None => {
                let p = (id.clone(), gem.clone());
                proof {
                    lemma_map_push(self.records@, p);
                    assert forall|a: int, b: int|
                        0 <= a < b < self.records@.push(p).len() implies self.records@.push(
                        p,
                    )[a].0@ != self.records@.push(p)[b].0@ by {
                        if b < self.records@.len() {
                            assert(self.records@[a].0@ != self.records@[b].0@);
                        } else {
                            assert(self.records@[a].0@ != id@);
                        }
                    }
                }
                self.records.push(p);
            },
        }
        Ok(())
    }

    /// Deletes the record stored under `id`; deleting an absent identifier
    /// is a no-op, not an error.
    pub fn delete(&mut self, id: &String) -> (r: Result<(), StorageError>)
        requires
            old(self).wf(),
        ensures
            final(self).wf(),
            final(self).spec_failing() == old(self).spec_failing(),
            old(self).spec_failing() ==> r is Err && *final(self) == *old(self),
            !old(self).spec_failing() ==> r is Ok && final(self)@ == old(self)@.remove(id@),
    {
        if self.failing {
            return Err(StorageError);
        }
        match self.find(id) {
            Some(i) => {
                proof {
                    lemma_map_remove(self.records@, i as int);
                    lemma_unique_remove(self.records@, i as int);
                }
                self.records.remove(i);
            },
            None => {
                proof {
                    lemma_lookup_some_iff(self.records@, id@);
                    assert(self@.remove(id@) =~= self@);
                }
            },
        }
        Ok(())
    }

    /// Deletes every record.
    pub fn clear_all(&mut self) -> (r: Result<(), StorageError>)
        requires
            old(self).wf(),
        ensures
            final(self).wf(),
            final(self).spec_failing() == old(self).spec_failing(),
            old(self).spec_failing() ==> r is Err && *final(self) == *old(self),
            !old(self).spec_failing() ==> r is Ok && final(self)@ == Map::<
                Seq<char>,
                GemView,
            >::empty() && final(self).record_seq().len() == 0,
    {
        if self.failing {
            return Err(StorageError);
        }
        self.records.clear();
        proof {
            assert(self.records@ =~= Seq::<(String, DataGem)>::empty());
            lemma_map_empty();
        }
        Ok(())
    }

    /// Reads the full record list back from the backing store.
    pub fn load_all(&self) -> (r: Result<&Vec<(String, DataGem)>, StorageError>)
        ensures
            self.spec_failing() ==> r is Err,
            !self.spec_failing() ==> r is Ok && r->Ok_0@ == self.record_seq(),
    {
        if self.failing {
            return Err(StorageError);
        }
        Ok(&self.records)
    }

    /// Reads the full record list as an owned copy, value for value.
    pub fn export(&self) -> (r: Result<Vec<(String, DataGem)>, StorageError>)
        ensures
            self.spec_failing() ==> r is Err,
            !self.spec_failing() ==> r is Ok && r->Ok_0@.len() == self.record_seq().len()
                && forall|i: int|
                0 <= i < self.record_seq().len() ==> r->Ok_0@[i].0 == self.record_seq()[i].0
                    && r->Ok_0@[i].1@ == self.record_seq()[i].1@,
    {
        if self.failing {
            return Err(StorageError);
        }
        let mut out: Vec<(String, DataGem)> = Vec::new();
        let mut i: usize = 0;
        while i < self.records.len()
            invariant
                i <= self.records.len(),
                out@.len() == i,
                forall|j: int|
                    0 <= j < i ==> out@[j].0 == self.records@[j].0 && out@[j].1@
                        == self.records@[j].1@,
            decreases self.records.len() - i,
        {
            out.push((self.records[i].0.clone(), self.records[i].1.clone()));
            i = i + 1;
        }
        Ok(out)
    }
}

} // verus!
