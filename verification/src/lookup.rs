//! Association lists keyed by text. A list stands for a finite map: where a key
//! occurs more than once, the entry nearest the end is the one that counts.

use vstd::prelude::*;
use vstd::string::*;
use crate::text::text_eq;

verus! {

/// One key with what is stored under it.
pub struct Entry<V> {
    pub key: String,
    pub value: V,
}

/// The position of the entry that counts for `key`, if there is one.
pub open spec fn find<V>(entries: Seq<Entry<V>>, key: Seq<char>) -> Option<int>
    decreases entries.len(),
{
    if entries.len() == 0 {
        None
    } else if entries.last().key@ == key {
        Some(entries.len() - 1)
    } else {
        find(entries.drop_last(), key)
    }
}

/// What `find` returns is a position of the list that holds the key, and no
/// later position holds it.
pub proof fn lemma_find_position<V>(entries: Seq<Entry<V>>, key: Seq<char>)
    ensures
        match find(entries, key) {
            Some(i) => 0 <= i < entries.len() && entries[i].key@ == key && forall|j: int|
                i < j < entries.len() ==> entries[j].key@ != key,
            None => forall|j: int| 0 <= j < entries.len() ==> entries[j].key@ != key,
        },
    decreases entries.len(),
{
    if entries.len() > 0 && entries.last().key@ != key {
        let init = entries.drop_last();
        lemma_find_position(init, key);
        assert(forall|j: int| 0 <= j < init.len() ==> init[j] == entries[j]);
        match find(init, key) {
            Some(i) => {
                assert forall|j: int| i < j < entries.len() implies entries[j].key@ != key by {
                    if j < init.len() {
                        assert(init[j].key@ != key);
                    }
                }
            },
            None => {
                assert forall|j: int| 0 <= j < entries.len() implies entries[j].key@ != key by {
                    if j < init.len() {
                        assert(init[j].key@ != key);
                    }
                }
            },
        }
    }
}

/// Two lists with the same keys at the same positions find every key at the
/// same position.
pub proof fn lemma_find_same_keys<V, W>(a: Seq<Entry<V>>, b: Seq<Entry<W>>, key: Seq<char>)
    requires
        a.len() == b.len(),
        forall|j: int| 0 <= j < a.len() ==> a[j].key@ == b[j].key@,
    ensures
        find(a, key) == find(b, key),
    decreases a.len(),
{
    if a.len() > 0 && a.last().key@ != key {
        lemma_find_same_keys(a.drop_last(), b.drop_last(), key);
    }
}

/// The map that a list stands for: each key that occurs, with the content of
/// the entry that counts for it.
pub open spec fn table<V: DeepView>(entries: Seq<Entry<V>>) -> Map<Seq<char>, V::V> {
    Map::new(
        |key: Seq<char>| find(entries, key) is Some,
        |key: Seq<char>| entries[find(entries, key)->0].value.deep_view(),
    )
}

/// A list without entries stands for the empty map, and only such a list does.
pub proof fn lemma_table_empty<V: DeepView>(entries: Seq<Entry<V>>)
    ensures
        entries.len() == 0 <==> table(entries) == Map::<Seq<char>, V::V>::empty(),
{
    if entries.len() == 0 {
        assert(table(entries) =~= Map::<Seq<char>, V::V>::empty());
    } else {
        assert(table(entries).dom().contains(entries.last().key@));
    }
}

/// Adding an entry at the end maps its key to its content and leaves the
/// other keys alone.
pub proof fn lemma_table_push<V: DeepView>(entries: Seq<Entry<V>>, entry: Entry<V>)
    ensures
        table(entries.push(entry)) == table(entries).insert(entry.key@, entry.value.deep_view()),
{
    let after = entries.push(entry);
    let expected = table(entries).insert(entry.key@, entry.value.deep_view());
    assert(after.drop_last() == entries);
    assert forall|key: Seq<char>| #[trigger]
        table(after).dom().contains(key) == expected.dom().contains(key) by {}
    assert forall|key: Seq<char>| #[trigger] table(after).dom().contains(key) implies table(
        after,
    )[key] == expected[key] by {
        lemma_find_position(entries, key);
    }
    assert(table(after) =~= expected);
}

/// Replacing what is stored in the entry that counts for a key maps the key to
/// the new content and leaves the other keys alone.
pub proof fn lemma_table_update<V: DeepView>(
    entries: Seq<Entry<V>>,
    after: Seq<Entry<V>>,
    i: int,
)
    requires
        0 <= i < entries.len(),
        find(entries, entries[i].key@) == Some(i),
        after.len() == entries.len(),
        forall|j: int| 0 <= j < entries.len() ==> after[j].key@ == entries[j].key@,
        forall|j: int|
            0 <= j < entries.len() && j != i ==> after[j].value.deep_view()
                == entries[j].value.deep_view(),
    ensures
        table(after) == table(entries).insert(entries[i].key@, after[i].value.deep_view()),
{
    let expected = table(entries).insert(entries[i].key@, after[i].value.deep_view());
    assert forall|key: Seq<char>| #[trigger]
        table(after).dom().contains(key) == expected.dom().contains(key) by {
        lemma_find_same_keys(after, entries, key);
    }
    assert forall|key: Seq<char>| #[trigger] table(after).dom().contains(key) implies table(
        after,
    )[key] == expected[key] by {
        lemma_find_same_keys(after, entries, key);
        lemma_find_position(entries, key);
    }
    assert(table(after) =~= expected);
}

/// Lists with the same keys and contents at the same positions stand for the
/// same map.
pub proof fn lemma_table_same<V: DeepView>(entries: Seq<Entry<V>>, other: Seq<Entry<V>>)
    requires
        other.len() == entries.len(),
        forall|j: int| 0 <= j < entries.len() ==> other[j].key@ == entries[j].key@,
        forall|j: int|
            0 <= j < entries.len() ==> other[j].value.deep_view() == entries[j].value.deep_view(),
    ensures
        table(other) == table(entries),
{
    assert forall|key: Seq<char>| #[trigger]
        table(other).dom().contains(key) == table(entries).dom().contains(key) by {
        lemma_find_same_keys(other, entries, key);
    }
    assert forall|key: Seq<char>| #[trigger] table(other).dom().contains(key) implies table(
        other,
    )[key] == table(entries)[key] by {
        lemma_find_same_keys(other, entries, key);
        lemma_find_position(entries, key);
    }
    assert(table(other) =~= table(entries));
}

/// The position of the entry that counts for `key`.
pub fn position<V>(entries: &Vec<Entry<V>>, key: &str) -> (r: Option<usize>)
    ensures
        r matches Some(i) ==> i < entries.len() && entries[i as int].key@ == key@,
        match r {
            Some(i) => find(entries@, key@) == Some(i as int),
            None => find(entries@, key@) is None,
        },
{
    let mut i = entries.len();
    assert(entries@.take(i as int) == entries@);
    while i > 0
        invariant
            i <= entries.len(),
            find(entries@, key@) == find(entries@.take(i as int), key@),
        decreases i,
    {
        i = i - 1;
        proof {
            let t = entries@.take(i as int + 1);
            assert(t.drop_last() == entries@.take(i as int));
            assert(t.last() == entries@[i as int]);
        }
        if text_eq(entries[i].key.as_str(), key) {
            return Some(i);
        }
    }
    None
}

} // verus!
