//! A small map from text keys to values, kept as a list of entries. Where a
//! key occurs in several entries, the last one counts.

use vstd::prelude::*;

verus! {

/// The map that a list of entries stands for: the entries are inserted in
/// order, so a later entry replaces an earlier one with the same key.
pub open spec fn map_of<V: View>(entries: Seq<(String, V)>) -> Map<Seq<char>, V::V>
    decreases entries.len(),
{
    if entries.len() == 0 {
        Map::empty()
    } else {
        map_of(entries.drop_last()).insert(entries.last().0@, entries.last().1@)
    }
}

/// No entry of `entries` from position `from` on has the key `key`.
pub open spec fn absent_from<V>(entries: Seq<(String, V)>, key: Seq<char>, from: int) -> bool {
    forall|j: int| from <= j < entries.len() ==> (#[trigger] entries[j]).0@ != key
}

/// The last entry with a given key is the one the map holds.
pub proof fn lemma_map_of_last_match<V: View>(entries: Seq<(String, V)>, i: int)
    requires
        0 <= i < entries.len(),
        absent_from(entries, entries[i].0@, i + 1),
    ensures
        map_of(entries).contains_key(entries[i].0@),
        map_of(entries)[entries[i].0@] == entries[i].1@,
    decreases entries.len(),
{
    if i < entries.len() - 1 {
        let rest = entries.drop_last();
        assert(entries.last() == entries[entries.len() - 1]);
        assert(absent_from(rest, rest[i].0@, i + 1)) by {
            assert forall|j: int| i + 1 <= j < rest.len() implies (#[trigger] rest[j]).0@
                != rest[i].0@ by {
                assert(entries[j].0@ != entries[i].0@);
            }
        }
        lemma_map_of_last_match(rest, i);
    }
}

/// A key that no entry has is not in the map.
pub proof fn lemma_map_of_absent<V: View>(entries: Seq<(String, V)>, key: Seq<char>)
    requires
        absent_from(entries, key, 0),
    ensures
        !map_of(entries).contains_key(key),
    decreases entries.len(),
{
    if entries.len() > 0 {
        let rest = entries.drop_last();
        assert(entries.last() == entries[entries.len() - 1]);
        assert(absent_from(rest, key, 0)) by {
            assert forall|j: int| 0 <= j < rest.len() implies (#[trigger] rest[j]).0@ != key by {
                assert(entries[j].0@ != key);
            }
        }
        lemma_map_of_absent(rest, key);
    }
}

/// Replacing the last entry that has a key by a new entry with that key is
/// an insertion into the map.
pub proof fn lemma_map_of_update<V: View>(entries: Seq<(String, V)>, i: int, entry: (String, V))
    requires
        0 <= i < entries.len(),
        entries[i].0@ == entry.0@,
        absent_from(entries, entry.0@, i + 1),
    ensures
        map_of(entries.update(i, entry)) == map_of(entries).insert(entry.0@, entry.1@),
    decreases entries.len(),
{
    let updated = entries.update(i, entry);
    let rest = entries.drop_last();
    if i == entries.len() - 1 {
        assert(updated.drop_last() =~= rest);
        assert(map_of(updated) =~= map_of(entries).insert(entry.0@, entry.1@));
    } else {
        assert(entries.last() == entries[entries.len() - 1]);
        assert(updated.drop_last() =~= rest.update(i, entry));
        assert(absent_from(rest, entry.0@, i + 1)) by {
            assert forall|j: int| i + 1 <= j < rest.len() implies (#[trigger] rest[j]).0@
                != entry.0@ by {
                assert(entries[j].0@ != entry.0@);
            }
        }
        lemma_map_of_update(rest, i, entry);
        assert(map_of(updated) =~= map_of(entries).insert(entry.0@, entry.1@));
    }
}

/// A map from text keys to values of type `V`.
pub struct Table<V> {
    entries: Vec<(String, V)>,
}

impl<V: View> View for Table<V> {
    type V = Map<Seq<char>, V::V>;

    closed spec fn view(&self) -> Map<Seq<char>, V::V> {
        map_of(self.entries@)
    }
}

impl<V> Table<V> {
    /// The number of entries.
    pub closed spec fn spec_len(&self) -> nat {
        self.entries@.len()
    }

    /// The key of the entry at `i`.
    pub closed spec fn spec_key(&self, i: int) -> Seq<char> {
        self.entries@[i].0@
    }

    /// The value of the entry at `i`.
    pub closed spec fn spec_value(&self, i: int) -> V {
        self.entries@[i].1
    }

    /// The position of the last entry whose key is `key`, if there is one.
    fn position(&self, key: &String) -> (found: Option<usize>)
        ensures
            match found {
                Some(i) => i < self.entries@.len() && self.entries@[i as int].0@ == key@
                    && absent_from(self.entries@, key@, i + 1),
                None => absent_from(self.entries@, key@, 0),
            },
    {
        let mut i: usize = self.entries.len();
        while i > 0
            invariant
                i <= self.entries@.len(),
                absent_from(self.entries@, key@, i as int),
            decreases i,
        {
            if self.entries[i - 1].0 == *key {
                return Some(i - 1);
            }
            i -= 1;
        }
        None
    }
}

impl<V: View> Table<V> {
    /// The map that the first `n` entries stand for.
    pub closed spec fn spec_prefix(&self, n: int) -> Map<Seq<char>, V::V> {
        map_of(self.entries@.take(n))
    }

    /// Walking the entries in order and inserting each one builds the map.
    pub proof fn lemma_prefix(&self, n: int)
        ensures
            self.spec_prefix(0) == Map::<Seq<char>, V::V>::empty(),
            self.spec_prefix(self.spec_len() as int) == self@,
            0 <= n < self.spec_len() ==> self.spec_prefix(n + 1) == self.spec_prefix(n).insert(
                self.spec_key(n),
                self.spec_value(n)@,
            ),
    {
        let entries = self.entries@;
        assert(entries.take(entries.len() as int) =~= entries);
        if 0 <= n < entries.len() {
            assert(entries.take(n + 1).drop_last() =~= entries.take(n));
        }
    }

    /// An empty table.
    pub fn new() -> (table: Self)
        ensures
            table@ == Map::<Seq<char>, V::V>::empty(),
            table.spec_len() == 0,
    {
        Table { entries: Vec::new() }
    }

    /// The number of entries.
    pub fn len(&self) -> (n: usize)
        ensures
            n == self.spec_len(),
    {
        self.entries.len()
    }

    /// The key of the entry at `i`.
    pub fn key_at(&self, i: usize) -> (key: &String)
        requires
            i < self.spec_len(),
        ensures
            key@ == self.spec_key(i as int),
    {
        &self.entries[i].0
    }

    /// The value of the entry at `i`.
    pub fn value_at(&self, i: usize) -> (value: &V)
        requires
            i < self.spec_len(),
        ensures
            *value == self.spec_value(i as int),
    {
        &self.entries[i].1
    }

    /// Whether the table has a value for `key`.
    pub fn contains_key(&self, key: &String) -> (found: bool)
        ensures
            found == self@.contains_key(key@),
    {
        match self.position(key) {
            Some(i) => {
                proof {
                    lemma_map_of_last_match(self.entries@, i as int);
                }
                true
            },
            None => {
                proof {
                    lemma_map_of_absent(self.entries@, key@);
                }
                false
            },
        }
    }

    /// The value stored under `key`, if there is one.
    pub fn get(&self, key: &String) -> (value: Option<&V>)
        ensures
            match value {
                Some(v) => self@.contains_key(key@) && self@[key@] == v@,
                None => !self@.contains_key(key@),
            },
    {
        match self.position(key) {
            Some(i) => {
                proof {
                    lemma_map_of_last_match(self.entries@, i as int);
                }
                Some(&self.entries[i].1)
            },
            None => {
                proof {
                    lemma_map_of_absent(self.entries@, key@);
                }
                None
            },
        }
    }

    /// Stores `value` under `key`, in place of what was stored there before.
    pub fn insert(&mut self, key: String, value: V)
        ensures
            final(self)@ == old(self)@.insert(key@, value@),
    {
        let ghost before = self.entries@;
        let ghost entry = (key, value);
        match self.position(&key) {
            Some(i) => {
                self.entries.set(i, (key, value));
                proof {
                    assert(self.entries@ == before.update(i as int, entry));
                    lemma_map_of_update(before, i as int, entry);
                }
            },
            None => {
                self.entries.push((key, value));
                proof {
                    assert(self.entries@ == before.push(entry));
                    assert(before.push(entry).drop_last() =~= before);
                }
            },
        }
    }
}

} // verus!
