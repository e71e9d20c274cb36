//! The selection tracker: the set of gem identifiers currently marked for
//! aggregation. Independent of the store's contents, except that it is
//! reconciled against the store after every deletion.
use crate::data::GemView;
use crate::store::GemStore;
use vstd::prelude::*;

verus! {

/// The selected identifiers that survive reconciliation against `valid`:
/// those stored under a key of `valid`, kept in selection order.
pub open spec fn reconciled(sel: Seq<Seq<char>>, valid: Map<Seq<char>, GemView>) -> Seq<Seq<char>>
    decreases sel.len(),
{
    if sel.len() == 0 {
        Seq::empty()
    } else {
        let rest = reconciled(sel.drop_last(), valid);
        if valid.contains_key(sel.last()) {
            rest.push(sel.last())
        } else {
            rest
        }
    }
}

/// An identifier survives reconciliation exactly when it was selected and
/// names a stored gem.
pub proof fn lemma_reconciled_contains(
    sel: Seq<Seq<char>>,
    valid: Map<Seq<char>, GemView>,
    k: Seq<char>,
)
    ensures
        reconciled(sel, valid).contains(k) <==> sel.contains(k) && valid.contains_key(k),
    decreases sel.len(),
{
    if sel.len() > 0 {
        lemma_reconciled_contains(sel.drop_last(), valid, k);
        let rest = reconciled(sel.drop_last(), valid);
        if sel.drop_last().contains(k) {
            let i = choose|i: int| 0 <= i < sel.drop_last().len() && sel.drop_last()[i] == k;
            assert(sel[i] == k);
        }
        if valid.contains_key(sel.last()) {
            assert(reconciled(sel, valid) == rest.push(sel.last()));
            if reconciled(sel, valid).contains(k) {
                let i = choose|i: int|
                    0 <= i < rest.push(sel.last()).len() && rest.push(sel.last())[i] == k;
                if i < rest.len() {
                    assert(rest[i] == k);
                } else {
                    assert(k == sel.last());
                    assert(sel[sel.len() - 1] == k);
                }
            }
            if sel.contains(k) && valid.contains_key(k) {
                let i = choose|i: int| 0 <= i < sel.len() && sel[i] == k;
                if i < sel.len() - 1 {
                    assert(sel.drop_last()[i] == k);
                    assert(rest.contains(k));
                    let j = choose|j: int| 0 <= j < rest.len() && rest[j] == k;
                    assert(rest.push(sel.last())[j] == k);
                } else {
                    assert(rest.push(sel.last()).last() == k);
                }
            }
        } else {
            if sel.contains(k) && valid.contains_key(k) {
                let i = choose|i: int| 0 <= i < sel.len() && sel[i] == k;
                assert(i != sel.len() - 1);
                assert(sel.drop_last()[i] == k);
            }
        }
    }
}

/// Reconciling against an empty store clears the selection.
pub proof fn lemma_reconciled_of_empty(sel: Seq<Seq<char>>)
    ensures
        reconciled(sel, Map::<Seq<char>, GemView>::empty()) == Seq::<Seq<char>>::empty(),
    decreases sel.len(),
{
    if sel.len() > 0 {
        lemma_reconciled_of_empty(sel.drop_last());
    }
}

/// What one toggle of `id` does to selection membership: `id` flips,
/// every other identifier keeps its state.
pub open spec fn toggled(pre: Seq<Seq<char>>, post: Seq<Seq<char>>, id: Seq<char>) -> bool {
    forall|k: Seq<char>|
        post.contains(k) == (if k == id {
            !pre.contains(k)
        } else {
            pre.contains(k)
        })
}

/// Toggling the same identifier twice restores the selection: afterwards
/// exactly the originally selected identifiers are selected.
pub proof fn lemma_double_toggle_restores(
    first: Seq<Seq<char>>,
    second: Seq<Seq<char>>,
    third: Seq<Seq<char>>,
    id: Seq<char>,
)
    requires
        toggled(first, second, id),
        toggled(second, third, id),
    ensures
        forall|k: Seq<char>| third.contains(k) == first.contains(k),
{
}

/// Reconciliation never introduces a duplicate.
pub proof fn lemma_reconciled_unique(sel: Seq<Seq<char>>, valid: Map<Seq<char>, GemView>)
    requires
        forall|i: int, j: int| 0 <= i < j < sel.len() ==> sel[i] != sel[j],
    ensures
        forall|i: int, j: int|
            0 <= i < j < reconciled(sel, valid).len() ==> reconciled(sel, valid)[i] != reconciled(
                sel,
                valid,
            )[j],
    decreases sel.len(),
{
    if sel.len() > 0 {
        assert forall|i: int, j: int|
            0 <= i < j < sel.drop_last().len() implies sel.drop_last()[i] != sel.drop_last()[j] by {
            assert(sel[i] != sel[j]);
        }
        lemma_reconciled_unique(sel.drop_last(), valid);
        let rest = reconciled(sel.drop_last(), valid);
        if valid.contains_key(sel.last()) {
            lemma_reconciled_contains(sel.drop_last(), valid, sel.last());
            if sel.drop_last().contains(sel.last()) {
                let i = choose|i: int|
                    0 <= i < sel.drop_last().len() && sel.drop_last()[i] == sel.last();
                assert(sel[i] != sel[sel.len() - 1]);
            }
            let post = rest.push(sel.last());
            assert forall|i: int, j: int| 0 <= i < j < post.len() implies post[i] != post[j] by {
                if j == post.len() - 1 {
                    assert(rest[i] == post[i]);
                    assert(rest.contains(rest[i]));
                } else {
                    assert(rest[i] != rest[j]);
                }
            }
        }
    }
}

/// The set of currently selected gem identifiers, without duplicates.
pub struct SelectionTracker {
    items: Vec<String>,
}

impl SelectionTracker {
    /// The selected identifiers, in selection order.
    pub closed spec fn ids(&self) -> Seq<Seq<char>> {
        self.items.deep_view()
    }

    /// No identifier is selected twice.
    pub open spec fn wf(&self) -> bool {
        forall|i: int, j: int| 0 <= i < j < self.ids().len() ==> self.ids()[i] != self.ids()[j]
    }

    /// An empty selection.
    pub fn new() -> (r: SelectionTracker)
        ensures
            r.wf(),
            r.ids() == Seq::<Seq<char>>::empty(),
    {
        let r = SelectionTracker { items: Vec::new() };
        proof {
            assert(r.ids() =~= Seq::<Seq<char>>::empty());
        }
        r
    }

    /// The position of `id` in the selection, if it is selected.
    fn position(&self, id: &String) -> (r: Option<usize>)
        ensures
            match r {
                Some(i) => i < self.ids().len() && self.ids()[i as int] == id@,
                None => forall|j: int| 0 <= j < self.ids().len() ==> self.ids()[j] != id@,
            },
    {
        let mut i: usize = 0;
        while i < self.items.len()
            invariant
                i <= self.items.len(),
                forall|j: int| 0 <= j < i ==> self.items.deep_view()[j] != id@,
            decreases self.items.len() - i,
        {
            if self.items[i] == *id {
                proof {
                    assert(self.ids()[i as int] == id@);
                }
                return Some(i);
            }
            i = i + 1;
        }
        None
    }

    /// Whether `id` is currently selected.
    pub fn contains(&self, id: &String) -> (r: bool)
        ensures
            r == self.ids().contains(id@),
    {
        match self.position(id) {
            Some(i) => {
                proof {
                    assert(self.ids()[i as int] == id@);
                }
                true
            },
            None => {
                proof {
                    if self.ids().contains(id@) {
                        let j = choose|j: int| 0 <= j < self.ids().len() && self.ids()[j] == id@;
                    }
                }
                false
            },
        }
    }

    /// The current selection, a read-only snapshot.
    pub fn current(&self) -> (r: &Vec<String>)
        ensures
            r.deep_view() == self.ids(),
    {
        &self.items
    }

    /// Adds `id` when it is absent, removes it when it is present; toggling
    /// twice restores the selection.
    pub fn toggle(&mut self, id: String)
        requires
            old(self).wf(),
        ensures
            final(self).wf(),
            old(self).ids().contains(id@) ==> exists|i: int|
                0 <= i < old(self).ids().len() && old(self).ids()[i] == id@ && final(self).ids()
                    == old(self).ids().remove(i),
            !old(self).ids().contains(id@) ==> final(self).ids() == old(self).ids().push(id@),
            toggled(old(self).ids(), final(self).ids(), id@),
    {
        match self.position(&id) {
            Some(i) => {
                self.items.remove(i);
                proof {
                    assert(old(self).ids()[i as int] == id@);
                    assert(self.items.deep_view() =~= old(self).ids().remove(i as int));
                    let post = old(self).ids().remove(i as int);
                    assert forall|a: int, b: int|
                        0 <= a < b < post.len() implies post[a] != post[b] by {
                        let a0: int = if a < i {
                            a
                        } else {
                            a + 1
                        };
                        let b0: int = if b < i {
                            b
                        } else {
                            b + 1
                        };
                        assert(old(self).ids()[a0] != old(self).ids()[b0]);
                    }
                    assert forall|k: Seq<char>| #[trigger] post.contains(k) implies old(
                        self,
                    ).ids().contains(k) && k != id@ by {
                        let a = choose|a: int| 0 <= a < post.len() && post[a] == k;
                        let a0: int = if a < i {
                            a
                        } else {
                            a + 1
                        };
                        assert(old(self).ids()[a0] == k);
                        if a0 != i {
                            assert(old(self).ids()[a0] != old(self).ids()[i as int]);
                        }
                    }
                    assert forall|k: Seq<char>|
                        old(self).ids().contains(k) && k != id@ implies post.contains(k) by {
                        let a0 = choose|a0: int|
                            0 <= a0 < old(self).ids().len() && old(self).ids()[a0] == k;
                        let a: int = if a0 < i {
                            a0
                        } else {
                            a0 - 1
                        };
                        assert(post[a] == k);
                    }
                }
            },
            None => {
                self.items.push(id);
                proof {
                    assert(self.items.deep_view() =~= old(self).ids().push(id@));
                    let post = old(self).ids().push(id@);
                    assert forall|k: Seq<char>| #[trigger] post.contains(k) implies old(
                        self,
                    ).ids().contains(k) || k == id@ by {
                        let a = choose|a: int| 0 <= a < post.len() && post[a] == k;
                        if a < old(self).ids().len() {
                            assert(old(self).ids()[a] == k);
                        }
                    }
                    assert(post[post.len() - 1] == id@);
                    assert forall|k: Seq<char>|
                        old(self).ids().contains(k) implies post.contains(k) by {
                        let a = choose|a: int|
                            0 <= a < old(self).ids().len() && old(self).ids()[a] == k;
                        assert(post[a] == k);
                    }
                }
            },
        }
    }

    /// Drops every selected identifier that no longer names a gem in the
    /// store.
    pub fn reconcile(&mut self, store: &GemStore)
        requires
            old(self).wf(),
            store.wf(),
        ensures
            final(self).wf(),
            final(self).ids() == reconciled(old(self).ids(), store@),
    {
        let mut kept: Vec<String> = Vec::new();
        let mut i: usize = 0;
        while i < self.items.len()
            invariant
                i <= self.items.len(),
                store.wf(),
                self.items == old(self).items,
                kept.deep_view() == reconciled(old(self).ids().take(i as int), store@),
            decreases self.items.len() - i,
        {
            proof {
                assert(old(self).ids().take(i + 1 as int).drop_last() =~= old(self).ids().take(
                    i as int,
                ));
                assert(old(self).ids().take(i + 1 as int).last() == old(self).ids()[i as int]);
            }
            if self.store_has(store, i) {
                let item = self.items[i].clone();
                kept.push(item);
                proof {
                    assert(kept.deep_view() =~= reconciled(
                        old(self).ids().take(i + 1 as int),
                        store@,
                    ));
                }
            }
            i = i + 1;
        }
        proof {
            assert(old(self).ids().take(old(self).ids().len() as int) =~= old(self).ids());
            lemma_reconciled_unique(old(self).ids(), store@);
        }
        self.items = kept;
    }

    fn store_has(&self, store: &GemStore, i: usize) -> (r: bool)
        requires
            store.wf(),
            i < self.ids().len(),
        ensures
            r == store@.contains_key(self.ids()[i as int]),
    {
        match store.get(&self.items[i]) {
            Some(_) => true,
            None => false,
        }
    }
}

} // verus!
