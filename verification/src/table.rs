//! A key-value table with exact lookups.
//!
//! Entries sit in a vector, at most one per key; a lookup walks the vector.
//! To callers the table is the finite map it denotes.

use vstd::prelude::*;

verus! {

/// A type whose values can serve as keys: two keys are the same key exactly
/// when their views are equal, and `same_key` decides it.
pub trait TableKey: View + Copy {
    fn same_key(&self, other: &Self) -> (same: bool)
        ensures
            same == (self@ == other@),
    ;
}

struct Entry<K, V> {
    key: K,
    value: V,
}

/// A finite map from keys to values.
pub struct Table<K: TableKey, V: Copy> {
    entries: Vec<Entry<K, V>>,
}

/// Whether entry `i` is the one for the key `k`.
spec fn is_entry_for<K: TableKey, V>(entries: Seq<Entry<K, V>>, k: K::V, i: int) -> bool {
    0 <= i < entries.len() && entries[i].key@ == k
}

/// No two entries are for the same key.
spec fn keys_distinct<K: TableKey, V>(entries: Seq<Entry<K, V>>) -> bool {
    forall|i: int, j: int|
        0 <= i < j < entries.len() ==> #[trigger] entries[i].key@ != #[trigger] entries[j].key@
}

/// The map that a sequence of entries denotes.
spec fn entries_map<K: TableKey, V>(entries: Seq<Entry<K, V>>) -> Map<K::V, V> {
    Map::new(
        |k: K::V| exists|i: int| is_entry_for(entries, k, i),
        |k: K::V| entries[choose|i: int| is_entry_for(entries, k, i)].value,
    )
}

/// With distinct keys, entry `i` is what the map holds for its key.
proof fn lemma_entry_is_mapped<K: TableKey, V>(entries: Seq<Entry<K, V>>, i: int)
    requires
        keys_distinct(entries),
        0 <= i < entries.len(),
    ensures
        entries_map(entries).contains_key(entries[i].key@),
        entries_map(entries)[entries[i].key@] == entries[i].value,
{
    let k = entries[i].key@;
    assert(is_entry_for(entries, k, i));
    let j = choose|j: int| is_entry_for(entries, k, j);
    assert(i == j);
}

/// Replacing the value of entry `i` is an insertion at its key.
proof fn lemma_update_is_insert<K: TableKey, V>(entries: Seq<Entry<K, V>>, i: int, value: V)
    requires
        keys_distinct(entries),
        0 <= i < entries.len(),
    ensures
        keys_distinct(entries.update(i, Entry { key: entries[i].key, value })),
        entries_map(entries.update(i, Entry { key: entries[i].key, value })) == entries_map(
            entries,
        ).insert(entries[i].key@, value),
{
    let after = entries.update(i, Entry { key: entries[i].key, value });
    let expected = entries_map(entries).insert(entries[i].key@, value);
    assert forall|a: int, b: int| 0 <= a < b < after.len() implies #[trigger] after[a].key@
        != #[trigger] after[b].key@ by {
        assert(after[a].key@ == entries[a].key@);
        assert(after[b].key@ == entries[b].key@);
    }
    assert forall|k: K::V| #[trigger]
        entries_map(after).contains_key(k) == expected.contains_key(k) by {
        if entries_map(after).contains_key(k) {
            let j = choose|j: int| is_entry_for(after, k, j);
            assert(is_entry_for(entries, k, j));
        }
        if expected.contains_key(k) {
            if k == entries[i].key@ {
                assert(is_entry_for(after, k, i));
            } else {
                let j = choose|j: int| is_entry_for(entries, k, j);
                assert(is_entry_for(after, k, j));
            }
        }
    }
    assert forall|k: K::V| #[trigger] expected.contains_key(k) implies entries_map(after)[k]
        == expected[k] by {
        assert(entries_map(after).contains_key(k));
        let j = choose|j: int| is_entry_for(after, k, j);
        lemma_entry_is_mapped(after, j);
        if j != i {
            lemma_entry_is_mapped(entries, j);
        }
    }
    assert(entries_map(after) =~= expected);
}

/// Appending an entry for a key that has none is an insertion at that key.
proof fn lemma_push_is_insert<K: TableKey, V>(entries: Seq<Entry<K, V>>, entry: Entry<K, V>)
    requires
        keys_distinct(entries),
        forall|i: int| 0 <= i < entries.len() ==> (#[trigger] entries[i]).key@ != entry.key@,
    ensures
        keys_distinct(entries.push(entry)),
        entries_map(entries.push(entry)) == entries_map(entries).insert(entry.key@, entry.value),
{
    let after = entries.push(entry);
    let last = entries.len() as int;
    let expected = entries_map(entries).insert(entry.key@, entry.value);
    assert forall|a: int, b: int| 0 <= a < b < after.len() implies #[trigger] after[a].key@
        != #[trigger] after[b].key@ by {
        assert(after[a] == entries[a]);
        if b < last {
            assert(after[b] == entries[b]);
        }
    }
    assert forall|k: K::V| #[trigger]
        entries_map(after).contains_key(k) == expected.contains_key(k) by {
        if entries_map(after).contains_key(k) {
            let j = choose|j: int| is_entry_for(after, k, j);
            if j < last {
                assert(is_entry_for(entries, k, j));
            }
        }
        if expected.contains_key(k) {
            if k == entry.key@ {
                assert(is_entry_for(after, k, last));
            } else {
                let j = choose|j: int| is_entry_for(entries, k, j);
                assert(is_entry_for(after, k, j));
            }
        }
    }
    assert forall|k: K::V| #[trigger] expected.contains_key(k) implies entries_map(after)[k]
        == expected[k] by {
        assert(entries_map(after).contains_key(k));
        let j = choose|j: int| is_entry_for(after, k, j);
        lemma_entry_is_mapped(after, j);
        if j < last {
            assert(after[j] == entries[j]);
            lemma_entry_is_mapped(entries, j);
        }
    }
    assert(entries_map(after) =~= expected);
}

impl<K: TableKey, V: Copy> View for Table<K, V> {
    type V = Map<K::V, V>;

    /// The map from each key that has an entry to the value of that entry.
    closed spec fn view(&self) -> Map<K::V, V> {
        entries_map(self.entries@)
    }
}

impl<K: TableKey, V: Copy> Table<K, V> {
    #[verifier::type_invariant]
    spec fn well_formed(self) -> bool {
        keys_distinct(self.entries@)
    }

    /// Every key of the map is the view of some key value.
    pub proof fn lemma_keys_are_views(self, k: K::V)
        requires
            self@.contains_key(k),
        ensures
            exists|key: K| #[trigger] key@ == k,
    {
        let i = choose|i: int| is_entry_for(self.entries@, k, i);
        assert(self.entries@[i].key@ == k);
    }

    /// The empty table.
    pub fn new() -> (table: Self)
        ensures
            table@ == Map::<K::V, V>::empty(),
    {
        let table = Table { entries: Vec::new() };
        assert(table@ =~= Map::<K::V, V>::empty());
        table
    }

    /// Where the entry for `key` sits, if there is one.
    fn position(&self, key: &K) -> (found: Option<usize>)
        ensures
            match found {
                Some(i) => is_entry_for(self.entries@, key@, i as int),
                None => forall|i: int| !is_entry_for(self.entries@, key@, i),
            },
    {
        let mut i: usize = 0;
        while i < self.entries.len()
            invariant
                i <= self.entries.len(),
                forall|j: int| 0 <= j < i ==> self.entries@[j].key@ != key@,
            decreases self.entries.len() - i,
        {
            if self.entries[i].key.same_key(key) {
                return Some(i);
            }
            i += 1;
        }
        None
    }

    /// The value held for `key`, if any.
    pub fn get(&self, key: &K) -> (value: Option<V>)
        ensures
            value == (if self@.contains_key(key@) {
                Some(self@[key@])
            } else {
                None
            }),
    {
        proof {
            use_type_invariant(self);
        }
        match self.position(key) {
            Some(i) => {
                proof {
                    lemma_entry_is_mapped(self.entries@, i as int);
                }
                Some(self.entries[i].value)
            },
            None => None,
        }
    }

    /// Sets the value held for `key`, replacing any earlier one.
    pub fn insert(&mut self, key: K, value: V)
        ensures
            final(self)@ == old(self)@.insert(key@, value),
    {
        proof {
            use_type_invariant(&*self);
        }
        let found = self.position(&key);
        let mut entries: Vec<Entry<K, V>> = Vec::new();
        std::mem::swap(&mut entries, &mut self.entries);
        match found {
            Some(i) => {
                proof {
                    lemma_update_is_insert(entries@, i as int, value);
                }
                let kept = entries[i].key;
                entries.set(i, Entry { key: kept, value });
            },
            None => {
                let entry = Entry { key, value };
                proof {
                    assert forall|i: int| 0 <= i < entries@.len() implies (
                    #[trigger] entries@[i]).key@ != entry.key@ by {
                        assert(!is_entry_for(entries@, key@, i));
                    }
                    lemma_push_is_insert(entries@, entry);
                }
                entries.push(entry);
            },
        }
        self.entries = entries;
    }
}

} // verus!
