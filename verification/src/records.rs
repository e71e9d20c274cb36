//! The mathematical model shared by the gem store and the persistence
//! adapter: a list of `(identifier, gem)` entries read as a mapping from
//! identifier to gem value.
use crate::data::{DataGem, GemView};
use vstd::prelude::*;

verus! {

/// No two entries carry the same identifier.
pub open spec fn keys_unique(entries: Seq<(String, DataGem)>) -> bool {
    forall|i: int, j: int|
        0 <= i < j < entries.len() ==> entries[i].0@ != entries[j].0@
}

/// The gem stored under `key`, reading the list from its last entry
/// backwards.
pub open spec fn lookup(entries: Seq<(String, DataGem)>, key: Seq<char>) -> Option<GemView>
    decreases entries.len(),
{
    if entries.len() == 0 {
        None
    } else if entries.last().0@ == key {
        Some(entries.last().1@)
    } else {
        lookup(entries.drop_last(), key)
    }
}

/// The identifiers of the entries, in list order.
pub open spec fn key_seq(entries: Seq<(String, DataGem)>) -> Seq<Seq<char>> {
    entries.map_values(|p: (String, DataGem)| p.0@)
}

/// The list read as a mapping.
pub open spec fn entries_map(entries: Seq<(String, DataGem)>) -> Map<Seq<char>, GemView> {
    Map::new(
        |k: Seq<char>| lookup(entries, k) is Some,
        |k: Seq<char>| lookup(entries, k)->0,
    )
}

/// A key is found exactly when some entry carries it.
pub proof fn lemma_lookup_some_iff(entries: Seq<(String, DataGem)>, key: Seq<char>)
    ensures
        lookup(entries, key) is Some <==> exists|i: int|
            0 <= i < entries.len() && entries[i].0@ == key,
    decreases entries.len(),
{
    if entries.len() == 0 {
    } else {
        lemma_lookup_some_iff(entries.drop_last(), key);
        if entries.last().0@ == key {
            assert(entries[entries.len() - 1].0@ == key);
        } else {
            if lookup(entries, key) is Some {
                let i = choose|i: int|
                    0 <= i < entries.drop_last().len() && entries.drop_last()[i].0@ == key;
                assert(entries[i].0@ == key);
            }
            if exists|i: int| 0 <= i < entries.len() && entries[i].0@ == key {
                let i = choose|i: int| 0 <= i < entries.len() && entries[i].0@ == key;
                assert(i != entries.len() - 1);
                assert(entries.drop_last()[i].0@ == key);
            }
        }
    }
}

/// Dropping the last entry keeps the remaining identifiers unique.
pub proof fn lemma_unique_drop_last(entries: Seq<(String, DataGem)>)
    requires
        keys_unique(entries),
        entries.len() > 0,
    ensures
        keys_unique(entries.drop_last()),
{
    assert forall|i: int, j: int|
        0 <= i < j < entries.drop_last().len() implies entries.drop_last()[i].0@
        != entries.drop_last()[j].0@ by {
        assert(entries[i].0@ != entries[j].0@);
    }
}

/// With unique identifiers, the lookup finds exactly the entry that carries
/// the key.
pub proof fn lemma_lookup_at(entries: Seq<(String, DataGem)>, i: int, key: Seq<char>)
    requires
        keys_unique(entries),
        0 <= i < entries.len(),
        entries[i].0@ == key,
    ensures
        lookup(entries, key) == Some(entries[i].1@),
    decreases entries.len(),
{
    if i == entries.len() - 1 {
    } else {
        assert(entries.last().0@ != key);
        lemma_unique_drop_last(entries);
        lemma_lookup_at(entries.drop_last(), i, key);
    }
}

/// What appending one entry does to the lookup.
pub proof fn lemma_lookup_push(
    entries: Seq<(String, DataGem)>,
    p: (String, DataGem),
    key: Seq<char>,
)
    ensures
        lookup(entries.push(p), key) == (if p.0@ == key {
            Some(p.1@)
        } else {
            lookup(entries, key)
        }),
{
    assert(entries.push(p).last() == p);
    assert(entries.push(p).drop_last() =~= entries);
}

/// What replacing the entry at `i` by one with the same identifier does to
/// the lookup.
pub proof fn lemma_lookup_update(
    entries: Seq<(String, DataGem)>,
    i: int,
    p: (String, DataGem),
    key: Seq<char>,
)
    requires
        keys_unique(entries),
        0 <= i < entries.len(),
        p.0@ == entries[i].0@,
    ensures
        lookup(entries.update(i, p), key) == (if key == p.0@ {
            Some(p.1@)
        } else {
            lookup(entries, key)
        }),
    decreases entries.len(),
{
    let eu = entries.update(i, p);
    if i == entries.len() - 1 {
        assert(eu.last() == p);
        assert(eu.drop_last() =~= entries.drop_last());
    } else {
        assert(eu.last() == entries.last());
        assert(eu.drop_last() =~= entries.drop_last().update(i, p));
        lemma_unique_drop_last(entries);
        lemma_lookup_update(entries.drop_last(), i, p, key);
        if entries.last().0@ == key {
            assert(entries[i].0@ != entries.last().0@);
        }
    }
}

/// Replacing an entry by one with the same identifier keeps the identifiers
/// unique.
pub proof fn lemma_unique_update(entries: Seq<(String, DataGem)>, i: int, p: (String, DataGem))
    requires
        keys_unique(entries),
        0 <= i < entries.len(),
        p.0@ == entries[i].0@,
    ensures
        keys_unique(entries.update(i, p)),
{
    let eu = entries.update(i, p);
    assert forall|a: int, b: int| 0 <= a < b < eu.len() implies eu[a].0@ != eu[b].0@ by {
        assert(entries[a].0@ != entries[b].0@);
    }
}

/// What removing the entry at `i` does to the lookup.
pub proof fn lemma_lookup_remove(entries: Seq<(String, DataGem)>, i: int, key: Seq<char>)
    requires
        keys_unique(entries),
        0 <= i < entries.len(),
    ensures
        lookup(entries.remove(i), key) == (if key == entries[i].0@ {
            None::<GemView>
        } else {
            lookup(entries, key)
        }),
    decreases entries.len(),
{
    let er = entries.remove(i);
    if i == entries.len() - 1 {
        assert(er =~= entries.drop_last());
        if key == entries[i].0@ {
            lemma_lookup_some_iff(entries.drop_last(), key);
            assert forall|j: int|
                0 <= j < entries.drop_last().len() implies entries.drop_last()[j].0@ != key by {
                assert(entries[j].0@ != entries[entries.len() - 1].0@);
            }
        }
    } else {
        assert(er.last() == entries.last());
        assert(er.drop_last() =~= entries.drop_last().remove(i));
        lemma_unique_drop_last(entries);
        lemma_lookup_remove(entries.drop_last(), i, key);
        if entries.last().0@ == key {
            assert(entries[i].0@ != entries[entries.len() - 1].0@);
        }
    }
}

/// Removing an entry keeps the identifiers unique.
pub proof fn lemma_unique_remove(entries: Seq<(String, DataGem)>, i: int)
    requires
        keys_unique(entries),
        0 <= i < entries.len(),
    ensures
        keys_unique(entries.remove(i)),
{
    let er = entries.remove(i);
    assert forall|a: int, b: int| 0 <= a < b < er.len() implies er[a].0@ != er[b].0@ by {
        let a0: int = if a < i {
            a
        } else {
            a + 1
        };
        let b0: int = if b < i {
            b
        } else {
            b + 1
        };
        assert(er[a] == entries[a0]);
        assert(er[b] == entries[b0]);
        assert(entries[a0].0@ != entries[b0].0@);
    }
}

/// Entry lists that agree value for value are read as the same mapping.
pub proof fn lemma_lookup_congruence(
    a: Seq<(String, DataGem)>,
    b: Seq<(String, DataGem)>,
    key: Seq<char>,
)
    requires
        a.len() == b.len(),
        forall|i: int| 0 <= i < a.len() ==> a[i].0@ == b[i].0@ && a[i].1@ == b[i].1@,
    ensures
        lookup(a, key) == lookup(b, key),
    decreases a.len(),
{
    if a.len() > 0 {
        assert(a[a.len() - 1].0@ == b[b.len() - 1].0@);
        assert(a[a.len() - 1].1@ == b[b.len() - 1].1@);
        lemma_lookup_congruence(a.drop_last(), b.drop_last(), key);
    }
}

/// Appending an entry whose identifier is fresh inserts it into the mapping.
pub proof fn lemma_map_push(entries: Seq<(String, DataGem)>, p: (String, DataGem))
    ensures
        entries_map(entries.push(p)) == entries_map(entries).insert(p.0@, p.1@),
{
    assert forall|k: Seq<char>| true implies lookup(entries.push(p), k) == (if p.0@ == k {
        Some(p.1@)
    } else {
        lookup(entries, k)
    }) by {
        lemma_lookup_push(entries, p, k);
    }
    assert(entries_map(entries.push(p)) =~= entries_map(entries).insert(p.0@, p.1@));
}

/// Replacing the entry at `i` by one with the same identifier replaces its
/// value in the mapping.
pub proof fn lemma_map_update(entries: Seq<(String, DataGem)>, i: int, p: (String, DataGem))
    requires
        keys_unique(entries),
        0 <= i < entries.len(),
        p.0@ == entries[i].0@,
    ensures
        entries_map(entries.update(i, p)) == entries_map(entries).insert(p.0@, p.1@),
{
    assert forall|k: Seq<char>| true implies lookup(entries.update(i, p), k) == (if k == p.0@ {
        Some(p.1@)
    } else {
        lookup(entries, k)
    }) by {
        lemma_lookup_update(entries, i, p, k);
    }
    assert(entries_map(entries.update(i, p)) =~= entries_map(entries).insert(p.0@, p.1@));
}

/// Removing the entry at `i` removes its identifier from the mapping.
pub proof fn lemma_map_remove(entries: Seq<(String, DataGem)>, i: int)
    requires
        keys_unique(entries),
        0 <= i < entries.len(),
    ensures
        entries_map(entries.remove(i)) == entries_map(entries).remove(entries[i].0@),
{
    assert forall|k: Seq<char>| true implies lookup(entries.remove(i), k) == (if k
        == entries[i].0@ {
        None::<GemView>
    } else {
        lookup(entries, k)
    }) by {
        lemma_lookup_remove(entries, i, k);
    }
    assert(entries_map(entries.remove(i)) =~= entries_map(entries).remove(entries[i].0@));
}

/// The empty list is read as the empty mapping.
pub proof fn lemma_map_empty()
    ensures
        entries_map(Seq::<(String, DataGem)>::empty()) == Map::<Seq<char>, GemView>::empty(),
{
    assert(entries_map(Seq::<(String, DataGem)>::empty()) =~= Map::<Seq<char>, GemView>::empty());
}

} // verus!
