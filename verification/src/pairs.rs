//! Lists of key and value in which the last entry of a key counts.

use vstd::prelude::*;

use crate::word::Word;

verus! {

/// The map that a list of entries describes: for each key the value of its last entry.
pub open spec fn latest<K, V>(entries: Seq<(K, V)>) -> Map<K, V>
    decreases entries.len(),
{
    if entries.len() == 0 {
        Map::empty()
    } else {
        latest(entries.drop_last()).insert(entries.last().0, entries.last().1)
    }
}

/// One more entry overwrites what the list said of its key.
pub proof fn lemma_latest_push<K, V>(entries: Seq<(K, V)>, key: K, value: V)
    ensures
        latest(entries.push((key, value))) == latest(entries).insert(key, value),
{
    assert(entries.push((key, value)).drop_last() =~= entries);
}

/// A key is in the map exactly where some entry has it, and maps to the value of its last entry.
pub proof fn law_last_entry_counts<K, V>(entries: Seq<(K, V)>, key: K)
    ensures
        latest(entries).contains_key(key) <==> exists|i: int|
            0 <= i < entries.len() && (#[trigger] entries[i]).0 == key,
        forall|i: int|
            0 <= i < entries.len() && (#[trigger] entries[i]).0 == key && (forall|j: int|
                i < j < entries.len() ==> (#[trigger] entries[j]).0 != key) ==> latest(
                entries,
            )[key] == entries[i].1,
    decreases entries.len(),
{
    if entries.len() > 0 {
        let front = entries.drop_last();
        law_last_entry_counts(front, key);
        assert forall|i: int| 0 <= i < front.len() implies #[trigger] front[i] == entries[i] by {}
        if entries.last().0 == key {
            assert(entries[entries.len() - 1].0 == key);
        } else if latest(entries).contains_key(key) {
            let i = choose|i: int| 0 <= i < front.len() && (#[trigger] front[i]).0 == key;
            assert(entries[i].0 == key);
        } else {
            assert forall|i: int| 0 <= i < entries.len() implies (#[trigger] entries[i]).0
                != key by {
                if i < front.len() {
                    assert(front[i].0 != key);
                }
            }
        }
        assert forall|i: int|
            0 <= i < entries.len() && (#[trigger] entries[i]).0 == key && (forall|j: int|
                i < j < entries.len() ==> (#[trigger] entries[j]).0 != key) implies latest(
            entries,
        )[key] == entries[i].1 by {
            if i < front.len() {
                assert(entries[entries.len() - 1].0 != key);
                assert(front[i].0 == key);
                assert forall|j: int| i < j < front.len() implies (#[trigger] front[j]).0
                    != key by {
                    assert(entries[j].0 != key);
                }
            }
        }
    }
}

/// A list of entries keyed by digests.
pub struct WordMap {
    entries: Vec<(Word, Word)>,
}

impl View for WordMap {
    type V = Map<Word, Word>;

    closed spec fn view(&self) -> Map<Word, Word> {
        latest(self.entries@)
    }
}

impl WordMap {
    /// Creates an empty map.
    pub fn new() -> (map: WordMap)
        ensures
            map@ == Map::<Word, Word>::empty(),
    {
        WordMap { entries: Vec::new() }
    }

    /// Maps `key` to `value`.
    pub fn insert(&mut self, key: Word, value: Word)
        ensures
            final(self)@ == old(self)@.insert(key, value),
    {
        proof {
            lemma_latest_push(self.entries@, key, value);
        }
        self.entries.push((key, value));
    }

    /// Returns what `key` maps to.
    pub fn get(&self, key: Word) -> (value: Option<Word>)
        ensures
            value == if self@.contains_key(key) {
                Some(self@[key])
            } else {
                None
            },
    {
        proof {
            law_last_entry_counts(self.entries@, key);
        }
        let mut i: usize = self.entries.len();
        while i > 0
            invariant
                i <= self.entries.len(),
                forall|j: int| i <= j < self.entries.len() ==> (#[trigger] self.entries@[j]).0 != key,
                self@.contains_key(key) <==> exists|j: int|
                    0 <= j < self.entries.len() && (#[trigger] self.entries@[j]).0 == key,
                forall|k: int|
                    0 <= k < self.entries.len() && (#[trigger] self.entries@[k]).0 == key && (
                    forall|j: int|
                        k < j < self.entries.len() ==> (#[trigger] self.entries@[j]).0 != key)
                        ==> self@[key] == self.entries@[k].1,
            decreases i,
        {
            i -= 1;
            let entry = self.entries[i];
            if entry.0 == key {
                assert(self.entries@[i as int].0 == key);
                return Some(entry.1);
            }
        }
        None
    }

    /// Whether `key` maps to anything.
    pub fn contains_key(&self, key: Word) -> (contained: bool)
        ensures
            contained == self@.contains_key(key),
    {
        self.get(key).is_some()
    }
}

} // verus!
