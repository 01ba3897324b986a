//! A small associative store: a list of entries in which no key occurs twice.

use vstd::prelude::*;

verus! {

/// A key that can be compared at run time, with the comparison agreeing with
/// equality of values.
pub trait TableKey: Sized {
    /// Whether `self` and `other` are the same key.
    fn same_key(&self, other: &Self) -> (same: bool)
        ensures
            same == (*self == *other),
    ;
}

/// Whether no key occurs twice in `entries`.
spec fn distinct_keys<K, V>(entries: Seq<(K, V)>) -> bool {
    forall|i: int, j: int|
        0 <= i < j < entries.len() ==> (#[trigger] entries[i]).0 != (#[trigger] entries[j]).0
}

/// Whether some entry of `entries` has the key `key`.
spec fn has_key<K, V>(entries: Seq<(K, V)>, key: K) -> bool {
    exists|i: int| 0 <= i < entries.len() && (#[trigger] entries[i]).0 == key
}

/// The position of an entry with the key `key`.
spec fn position_of<K, V>(entries: Seq<(K, V)>, key: K) -> int {
    choose|i: int| 0 <= i < entries.len() && (#[trigger] entries[i]).0 == key
}

/// The map that `entries` stands for.
spec fn entries_map<K, V>(entries: Seq<(K, V)>) -> Map<K, V> {
    Map::new(|key: K| has_key(entries, key), |key: K| entries[position_of(entries, key)].1)
}

/// An entry at a known position is what the map holds for its key.
proof fn lemma_entry_in_map<K, V>(entries: Seq<(K, V)>, at: int)
    requires
        distinct_keys(entries),
        0 <= at < entries.len(),
    ensures
        entries_map(entries).contains_key(entries[at].0),
        entries_map(entries)[entries[at].0] == entries[at].1,
{
    let key = entries[at].0;
    assert(has_key(entries, key));
    let found = position_of(entries, key);
    assert(entries[found].0 == entries[at].0);
    if found < at {
        assert(entries[found].0 != entries[at].0);
    } else if at < found {
        assert(entries[at].0 != entries[found].0);
    }
}

/// Appending an entry with a new key inserts it into the map.
proof fn lemma_push_inserts<K, V>(entries: Seq<(K, V)>, key: K, value: V)
    requires
        distinct_keys(entries),
        !has_key(entries, key),
    ensures
        distinct_keys(entries.push((key, value))),
        entries_map(entries.push((key, value))) == entries_map(entries).insert(key, value),
{
    let grown = entries.push((key, value));
    assert(distinct_keys(grown)) by {
        assert forall|i: int, j: int| 0 <= i < j < grown.len() implies (#[trigger] grown[i]).0 != (
        #[trigger] grown[j]).0 by {
            if j < entries.len() {
                assert(entries[i].0 != entries[j].0);
            } else {
                assert(entries[i].0 != key);
            }
        }
    }
    let before = entries_map(entries);
    let after = entries_map(grown);
    assert forall|k: K| after.contains_key(k) == before.insert(key, value).contains_key(k) by {
        if has_key(grown, k) {
            let i = position_of(grown, k);
            if i < entries.len() {
                assert(entries[i].0 == k);
            }
        }
        if has_key(entries, k) {
            let i = position_of(entries, k);
            assert(grown[i].0 == k);
        }
        if k == key {
            assert(grown[entries.len() as int].0 == k);
        }
    }
    assert forall|k: K| after.contains_key(k) implies #[trigger] after[k] == before.insert(
        key,
        value,
    )[k] by {
        let i = position_of(grown, k);
        lemma_entry_in_map(grown, i);
        if i < entries.len() {
            assert(grown[i] == entries[i]);
            lemma_entry_in_map(entries, i);
        }
    }
    assert(after =~= before.insert(key, value));
}

/// Replacing the value of the entry at `at` overwrites the map at its key.
proof fn lemma_update_overwrites<K, V>(entries: Seq<(K, V)>, at: int, value: V)
    requires
        distinct_keys(entries),
        0 <= at < entries.len(),
    ensures
        distinct_keys(entries.update(at, (entries[at].0, value))),
        entries_map(entries.update(at, (entries[at].0, value))) == entries_map(entries).insert(
            entries[at].0,
            value,
        ),
{
    let key = entries[at].0;
    let changed = entries.update(at, (key, value));
    assert(distinct_keys(changed)) by {
        assert forall|i: int, j: int| 0 <= i < j < changed.len() implies (#[trigger] changed[i]).0
            != (#[trigger] changed[j]).0 by {
            assert(changed[i].0 == entries[i].0);
            assert(changed[j].0 == entries[j].0);
        }
    }
    let before = entries_map(entries);
    let after = entries_map(changed);
    assert forall|k: K| after.contains_key(k) == before.insert(key, value).contains_key(k) by {
        if has_key(changed, k) {
            let i = position_of(changed, k);
            assert(entries[i].0 == k);
        }
        if has_key(entries, k) {
            let i = position_of(entries, k);
            assert(changed[i].0 == k);
        }
        if k == key {
            assert(changed[at].0 == k);
        }
    }
    assert forall|k: K| after.contains_key(k) implies #[trigger] after[k] == before.insert(
        key,
        value,
    )[k] by {
        let i = position_of(changed, k);
        lemma_entry_in_map(changed, i);
        if i != at {
            assert(changed[i] == entries[i]);
            lemma_entry_in_map(entries, i);
        }
    }
    assert(after =~= before.insert(key, value));
}

/// An associative store from `K` to `V`.
pub struct Table<K, V> {
    entries: Vec<(K, V)>,
}

impl<K, V> View for Table<K, V> {
    type V = Map<K, V>;

    closed spec fn view(&self) -> Map<K, V> {
        entries_map(self.entries@)
    }
}

impl<K, V> Table<K, V> {
    #[verifier::type_invariant]
    spec fn well_formed(&self) -> bool {
        distinct_keys(self.entries@)
    }
}

impl<K: TableKey, V: Copy> Table<K, V> {
    /// An empty store.
    pub fn new() -> (table: Self)
        ensures
            table@ == Map::<K, V>::empty(),
    {
        let table = Table { entries: Vec::new() };
        assert(table@ =~= Map::<K, V>::empty());
        table
    }

    /// The position of the entry for `key`, if there is one.
    fn find(&self, key: &K) -> (found: Option<usize>)
        ensures
            match found {
                Some(at) => at < self.entries@.len() && self.entries@[at as int].0 == *key,
                None => !has_key(self.entries@, *key),
            },
    {
        let mut i: usize = 0;
        while i < self.entries.len()
            invariant
                i <= self.entries@.len(),
                forall|j: int| 0 <= j < i ==> (#[trigger] self.entries@[j]).0 != *key,
            decreases self.entries@.len() - i,
        {
            if self.entries[i].0.same_key(key) {
                return Some(i);
            }
            i += 1;
        }
        None
    }

    /// The value stored for `key`, if there is one.
    pub fn get(&self, key: &K) -> (value: Option<V>)
        ensures
            value == (if self@.contains_key(*key) {
                Some(self@[*key])
            } else {
                None
            }),
    {
        proof {
            use_type_invariant(self);
        }
        match self.find(key) {
            Some(at) => {
                proof {
                    lemma_entry_in_map(self.entries@, at as int);
                }
                Some(self.entries[at].1)
            },
            None => None,
        }
    }

    /// Stores `value` for `key`, in place of any value stored for it before.
    pub fn insert(&mut self, key: K, value: V)
        ensures
            final(self)@ == old(self)@.insert(key, value),
    {
        proof {
            use_type_invariant(&*self);
        }
        let found = self.find(&key);
        let mut entries: Vec<(K, V)> = Vec::new();
        std::mem::swap(&mut entries, &mut self.entries);
        match found {
            Some(at) => {
                proof {
                    lemma_update_overwrites(entries@, at as int, value);
                }
                entries.set(at, (key, value));
            },
            None => {
                proof {
                    lemma_push_inserts(entries@, key, value);
                }
                entries.push((key, value));
            },
        }
        self.entries = entries;
    }
}

} // verus!
