//! A finite map keyed by text, kept as a list of entries.
//!
//! The list may name a key more than once; the entry nearest the end is the
//! one that counts. Insertion replaces that entry where there is one, so the
//! list grows only when a key is new.

use crate::text::same_text;
use vstd::prelude::*;

verus! {

/// A map from text to values of `V`.
#[derive(Debug)]
pub struct TextMap<V> {
    entries: Vec<(String, V)>,
}

/// The map that a list of entries stands for: later entries shadow earlier
/// ones with the same key.
spec fn entries_model<V: View>(entries: Seq<(String, V)>) -> Map<Seq<char>, V::V>
    decreases entries.len(),
{
    if entries.len() == 0 {
        Map::empty()
    } else {
        entries_model(entries.drop_last()).insert(entries.last().0@, entries.last().1@)
    }
}

/// No entry of the list carries `key`.
spec fn key_unused<V>(entries: Seq<(String, V)>, key: Seq<char>) -> bool {
    forall|j: int| 0 <= j < entries.len() ==> (#[trigger] entries[j]).0@ != key
}

/// Entry `i` carries `key` and no entry after it does.
spec fn key_last_at<V>(entries: Seq<(String, V)>, key: Seq<char>, i: int) -> bool {
    &&& 0 <= i < entries.len()
    &&& entries[i].0@ == key
    &&& forall|j: int| i < j < entries.len() ==> (#[trigger] entries[j]).0@ != key
}

/// A key that no entry carries is not in the map.
proof fn lemma_unused_key_absent<V: View>(entries: Seq<(String, V)>, key: Seq<char>)
    requires
        key_unused(entries, key),
    ensures
        !entries_model(entries).contains_key(key),
    decreases entries.len(),
{
    if entries.len() > 0 {
        let init = entries.drop_last();
        assert forall|j: int| 0 <= j < init.len() implies (#[trigger] init[j]).0@ != key by {
            assert(init[j] == entries[j]);
        }
        lemma_unused_key_absent(init, key);
        assert(entries.last() == entries[entries.len() - 1]);
    }
}

/// The last entry that carries a key gives the map's value for it.
proof fn lemma_last_entry_wins<V: View>(entries: Seq<(String, V)>, key: Seq<char>, i: int)
    requires
        key_last_at(entries, key, i),
    ensures
        entries_model(entries).contains_key(key),
        entries_model(entries)[key] == entries[i].1@,
    decreases entries.len(),
{
    if i < entries.len() - 1 {
        let init = entries.drop_last();
        assert(init[i] == entries[i]);
        assert forall|j: int| i < j < init.len() implies (#[trigger] init[j]).0@ != key by {
            assert(init[j] == entries[j]);
        }
        lemma_last_entry_wins(init, key, i);
        assert(entries.last() == entries[entries.len() - 1]);
    }
}

/// Replacing the last entry that carries a key is an insertion into the map.
proof fn lemma_replace_last_entry<V: View>(
    entries: Seq<(String, V)>,
    i: int,
    entry: (String, V),
)
    requires
        key_last_at(entries, entry.0@, i),
    ensures
        entries_model(entries.update(i, entry)) == entries_model(entries).insert(
            entry.0@,
            entry.1@,
        ),
    decreases entries.len(),
{
    let key = entry.0@;
    let updated = entries.update(i, entry);
    let init = entries.drop_last();
    if i == entries.len() - 1 {
        assert(updated.drop_last() =~= init);
        assert(entries_model(updated) =~= entries_model(entries).insert(key, entry.1@));
    } else {
        assert(init[i] == entries[i]);
        assert forall|j: int| i < j < init.len() implies (#[trigger] init[j]).0@ != key by {
            assert(init[j] == entries[j]);
        }
        lemma_replace_last_entry(init, i, entry);
        assert(updated.drop_last() =~= init.update(i, entry));
        assert(updated.last() == entries.last());
        assert(entries.last() == entries[entries.len() - 1]);
        assert(entries_model(updated) =~= entries_model(entries).insert(key, entry.1@));
    }
}

/// Appending an entry is an insertion into the map.
proof fn lemma_push_entry<V: View>(entries: Seq<(String, V)>, entry: (String, V))
    ensures
        entries_model(entries.push(entry)) == entries_model(entries).insert(entry.0@, entry.1@),
{
    assert(entries.push(entry).drop_last() =~= entries);
}

impl<V: View> View for TextMap<V> {
    type V = Map<Seq<char>, V::V>;

    closed spec fn view(&self) -> Map<Seq<char>, V::V> {
        entries_model(self.entries@)
    }
}

impl<V: View> TextMap<V> {
    /// A map without entries.
    pub fn new() -> (map: Self)
        ensures
            map@ == Map::<Seq<char>, V::V>::empty(),
    {
        TextMap { entries: Vec::new() }
    }

    /// The place of the last entry under `key`, if any entry carries it.
    fn position(&self, key: &str) -> (found: Option<usize>)
        ensures
            match found {
                Some(i) => key_last_at(self.entries@, key@, i as int),
                None => key_unused(self.entries@, key@),
            },
    {
        let mut i: usize = self.entries.len();
        while i > 0
            invariant
                i <= self.entries.len(),
                forall|j: int| i <= j < self.entries.len() ==> (#[trigger] self.entries@[j]).0@ != key@,
            decreases i,
        {
            i = i - 1;
            if same_text(self.entries[i].0.as_str(), key) {
                return Some(i);
            }
        }
        None
    }

    /// Whether the map has a value under `key`.
    pub fn contains_key(&self, key: &str) -> (present: bool)
        ensures
            present == self@.contains_key(key@),
    {
        let found = self.position(key);
        proof {
            match found {
                Some(i) => lemma_last_entry_wins(self.entries@, key@, i as int),
                None => lemma_unused_key_absent(self.entries@, key@),
            }
        }
        found.is_some()
    }

    /// The value under `key`, if there is one.
    pub fn get(&self, key: &str) -> (value: Option<&V>)
        ensures
            match value {
                Some(v) => self@.contains_key(key@) && v@ == self@[key@],
                None => !self@.contains_key(key@),
            },
    {
        match self.position(key) {
            Some(i) => {
                proof {
                    lemma_last_entry_wins(self.entries@, key@, i as int);
                }
                Some(&self.entries[i].1)
            },
            None => {
                proof {
                    lemma_unused_key_absent(self.entries@, key@);
                }
                None
            },
        }
    }

    /// Puts `value` under `key`, in place of the value that was there if
    /// there was one.
    pub fn insert(&mut self, key: String, value: V)
        ensures
            final(self)@ == old(self)@.insert(key@, value@),
    {
        match self.position(key.as_str()) {
            Some(i) => {
                proof {
                    lemma_replace_last_entry(self.entries@, i as int, (key, value));
                }
                self.entries.set(i, (key, value));
            },
            None => {
                proof {
                    lemma_push_entry(self.entries@, (key, value));
                }
                self.entries.push((key, value));
            },
        }
    }
}

impl<V: View + Copy> Clone for TextMap<V> {
    fn clone(&self) -> (copy: Self)
        ensures
            copy@ == self@,
    {
        let mut entries: Vec<(String, V)> = Vec::new();
        let mut i: usize = 0;
        while i < self.entries.len()
            invariant
                i <= self.entries.len(),
                entries@ =~= self.entries@.take(i as int),
            decreases self.entries.len() - i,
        {
            let key = self.entries[i].0.clone();
            let value = self.entries[i].1;
            entries.push((key, value));
            i = i + 1;
        }
        assert(self.entries@.take(i as int) =~= self.entries@);
        TextMap { entries }
    }
}

} // verus!
