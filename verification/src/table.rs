//! Association tables keyed by text, the shape of every table this library
//! hands to or reads from an interpreter.

use vstd::prelude::*;

verus! {

/// The index of the entry of `entries` filed under `key`, when there is one.
pub open spec fn position_of<V>(entries: Seq<(String, V)>, key: Seq<char>) -> int {
    choose|i: int| 0 <= i < entries.len() && (#[trigger] entries[i]).0@ == key
}

/// No two entries of `entries` are filed under the same key.
pub open spec fn keys_distinct<V>(entries: Seq<(String, V)>) -> bool {
    forall|i: int, j: int|
        0 <= i < j < entries.len() ==> (#[trigger] entries[i]).0@ != (#[trigger] entries[j]).0@
}

/// The map that a list of entries stands for.
pub open spec fn entries_map<V: View>(entries: Seq<(String, V)>) -> Map<Seq<char>, V::V> {
    Map::new(
        |key: Seq<char>| exists|i: int| 0 <= i < entries.len() && (#[trigger] entries[i]).0@ == key,
        |key: Seq<char>| entries[position_of(entries, key)].1@,
    )
}

/// With distinct keys, the entry at index `i` is the one its key maps to.
pub proof fn lemma_entry_at<V: View>(entries: Seq<(String, V)>, i: int)
    requires
        keys_distinct(entries),
        0 <= i < entries.len(),
    ensures
        entries_map(entries).contains_key(entries[i].0@),
        entries_map(entries)[entries[i].0@] == entries[i].1@,
        position_of(entries, entries[i].0@) == i,
{
    let key = entries[i].0@;
    let p = position_of(entries, key);
    assert(0 <= p < entries.len() && entries[p].0@ == key);
    if p < i {
        assert(entries[p].0@ != entries[i].0@);
    } else if i < p {
        assert(entries[i].0@ != entries[p].0@);
    }
}

/// Taking the entry at index `gap` out of a list with distinct keys takes
/// its key out of the map, and the keys stay distinct.
pub proof fn lemma_entries_remove<V: View>(entries: Seq<(String, V)>, gap: int)
    requires
        keys_distinct(entries),
        0 <= gap < entries.len(),
    ensures
        keys_distinct(entries.remove(gap)),
        entries_map(entries.remove(gap)) == entries_map(entries).remove(entries[gap].0@),
{
    let rest = entries.remove(gap);
    let key = entries[gap].0@;
    assert forall|p: int| 0 <= p < rest.len() implies (#[trigger] rest[p]).0@ != key by {
        let q = if p < gap { p } else { p + 1 };
        assert(rest[p] == entries[q]);
        if q < gap {
            assert(entries[q].0@ != entries[gap].0@);
        } else {
            assert(entries[gap].0@ != entries[q].0@);
        }
    }
    assert forall|a: int, b: int| 0 <= a < b < rest.len() implies (#[trigger] rest[a]).0@ != (
    #[trigger] rest[b]).0@ by {
        let qa = if a < gap { a } else { a + 1 };
        let qb = if b < gap { b } else { b + 1 };
        assert(rest[a] == entries[qa]);
        assert(rest[b] == entries[qb]);
        assert(entries[qa].0@ != entries[qb].0@);
    }
    let target = entries_map(entries).remove(key);
    assert forall|k: Seq<char>| entries_map(rest).contains_key(k) implies #[trigger] target.contains_key(k)
        && target[k] == entries_map(rest)[k] by {
        let p = position_of(rest, k);
        assert(0 <= p < rest.len() && rest[p].0@ == k);
        lemma_entry_at(rest, p);
        let q = if p < gap { p } else { p + 1 };
        assert(rest[p] == entries[q]);
        lemma_entry_at(entries, q);
    }
    assert forall|k: Seq<char>| #[trigger] target.contains_key(k) implies entries_map(rest).contains_key(k) by {
        let q = position_of(entries, k);
        assert(0 <= q < entries.len() && entries[q].0@ == k);
        let p = if q < gap { q } else { q - 1 };
        assert(rest[p] == entries[q]);
    }
    assert(entries_map(rest) =~= target);
}

/// Appending an entry under a key that the list does not hold adds the key
/// to the map, and the keys stay distinct.
pub proof fn lemma_entries_push<V: View>(entries: Seq<(String, V)>, entry: (String, V))
    requires
        keys_distinct(entries),
        !entries_map(entries).contains_key(entry.0@),
    ensures
        keys_distinct(entries.push(entry)),
        entries_map(entries.push(entry)) == entries_map(entries).insert(entry.0@, entry.1@),
{
    let after = entries.push(entry);
    assert forall|p: int| 0 <= p < entries.len() implies (#[trigger] entries[p]).0@ != entry.0@ by {
        if entries[p].0@ == entry.0@ {
            assert(entries_map(entries).contains_key(entry.0@));
        }
    }
    assert forall|a: int, b: int| 0 <= a < b < after.len() implies (#[trigger] after[a]).0@ != (
    #[trigger] after[b]).0@ by {
        if b < entries.len() {
            assert(entries[a].0@ != entries[b].0@);
        } else {
            assert(after[a] == entries[a]);
        }
    }
    let target = entries_map(entries).insert(entry.0@, entry.1@);
    assert forall|k: Seq<char>| entries_map(after).contains_key(k) implies #[trigger] target.contains_key(k)
        && target[k] == entries_map(after)[k] by {
        let p = position_of(after, k);
        assert(0 <= p < after.len() && after[p].0@ == k);
        lemma_entry_at(after, p);
        if p < entries.len() {
            assert(after[p] == entries[p]);
            lemma_entry_at(entries, p);
        }
    }
    assert forall|k: Seq<char>| #[trigger] target.contains_key(k) implies entries_map(after).contains_key(k) by {
        if k != entry.0@ {
            let q = position_of(entries, k);
            assert(0 <= q < entries.len() && entries[q].0@ == k);
            assert(after[q] == entries[q]);
        } else {
            assert(after[after.len() - 1].0@ == k);
        }
    }
    assert(entries_map(after) =~= target);
}

/// A list with distinct keys stands for a finite map with one key for each
/// entry.
pub proof fn lemma_entries_len<V: View>(entries: Seq<(String, V)>)
    requires
        keys_distinct(entries),
    ensures
        entries_map(entries).dom().finite(),
        entries_map(entries).dom().len() == entries.len(),
    decreases entries.len(),
{
    if entries.len() == 0 {
        assert(entries_map(entries).dom() =~= Set::<Seq<char>>::empty());
    } else {
        let rest = entries.drop_last();
        let last = entries.last();
        assert(forall|i: int| 0 <= i < rest.len() ==> #[trigger] rest[i] == entries[i]);
        assert(keys_distinct(rest));
        lemma_entries_len(rest);
        if entries_map(rest).contains_key(last.0@) {
            let p = position_of(rest, last.0@);
            assert(0 <= p < rest.len() && rest[p].0@ == last.0@);
            assert(entries[p].0@ != entries[entries.len() - 1].0@);
        }
        lemma_entries_push(rest, last);
        assert(rest.push(last) =~= entries);
        assert(entries_map(entries).dom() =~= entries_map(rest).dom().insert(last.0@));
    }
}

/// A table from text keys to values, each key present at most once.
#[derive(Debug, PartialEq, Eq)]
pub struct Table<V> {
    entries: Vec<(String, V)>,
}

impl<V: View> View for Table<V> {
    type V = Map<Seq<char>, V::V>;

    closed spec fn view(&self) -> Map<Seq<char>, V::V> {
        entries_map(self.entries@)
    }
}

impl<V> Table<V> {
    #[verifier::type_invariant]
    spec fn keys_are_distinct(&self) -> bool {
        keys_distinct(self.entries@)
    }
}

impl<V: View> Table<V> {
    /// An empty table.
    pub fn new() -> (table: Self)
        ensures
            table@ == Map::<Seq<char>, V::V>::empty(),
    {
        let table = Table { entries: Vec::new() };
        assert(table@ =~= Map::<Seq<char>, V::V>::empty());
        table
    }

    fn find(&self, key: &str) -> (found: Option<usize>)
        ensures
            match found {
                Some(i) => i < self.entries@.len() && self.entries@[i as int].0@ == key@,
                None => !self@.contains_key(key@),
            },
    {
        let wanted = key.to_owned();
        let mut i: usize = 0;
        while i < self.entries.len()
            invariant
                i <= self.entries@.len(),
                wanted@ == key@,
                forall|j: int| 0 <= j < i ==> (#[trigger] self.entries@[j]).0@ != key@,
            decreases self.entries@.len() - i,
        {
            if self.entries[i].0 == wanted {
                return Some(i);
            }
            i = i + 1;
        }
        None
    }

    /// The number of keys.
    pub fn len(&self) -> (count: usize)
        ensures
            self@.dom().finite(),
            count == self@.dom().len(),
    {
        proof {
            use_type_invariant(self);
            lemma_entries_len(self.entries@);
        }
        self.entries.len()
    }

    /// The keys, each once.
    pub fn keys(&self) -> (keys: Vec<String>)
        ensures
            keys@.len() == self@.dom().len(),
            forall|i: int| 0 <= i < keys@.len() ==> self@.contains_key(#[trigger] keys@[i]@),
            forall|key: Seq<char>|
                self@.contains_key(key) ==> exists|i: int|
                    0 <= i < keys@.len() && #[trigger] keys@[i]@ == key,
    {
        proof {
            use_type_invariant(self);
            lemma_entries_len(self.entries@);
        }
        let mut keys: Vec<String> = Vec::new();
        let mut i: usize = 0;
        while i < self.entries.len()
            invariant
                i <= self.entries@.len(),
                keys@.len() == i,
                forall|j: int| 0 <= j < i ==> (#[trigger] keys@[j])@ == self.entries@[j].0@,
            decreases self.entries@.len() - i,
        {
            keys.push(self.entries[i].0.clone());
            i = i + 1;
        }
        proof {
            assert forall|j: int| 0 <= j < keys@.len() implies self@.contains_key(
                #[trigger] keys@[j]@,
            ) by {
                assert(self.entries@[j].0@ == keys@[j]@);
            }
            assert forall|key: Seq<char>| self@.contains_key(key) implies exists|j: int|
                0 <= j < keys@.len() && #[trigger] keys@[j]@ == key by {
                let p = position_of(self.entries@, key);
                assert(0 <= p < self.entries@.len() && self.entries@[p].0@ == key);
                assert(keys@[p]@ == key);
            }
        }
        keys
    }

    /// The value filed under `key`, if any.
    pub fn get(&self, key: &str) -> (value: Option<&V>)
        ensures
            match value {
                Some(v) => self@.contains_key(key@) && self@[key@] == v@,
                None => !self@.contains_key(key@),
            },
    {
        proof {
            use_type_invariant(self);
        }
        match self.find(key) {
            Some(i) => {
                proof {
                    lemma_entry_at(self.entries@, i as int);
                }
                Some(&self.entries[i].1)
            },
            None => None,
        }
    }

    /// Whether anything is filed under `key`.
    pub fn contains_key(&self, key: &str) -> (present: bool)
        ensures
            present == self@.contains_key(key@),
    {
        proof {
            use_type_invariant(self);
        }
        match self.find(key) {
            Some(i) => {
                proof {
                    lemma_entry_at(self.entries@, i as int);
                }
                true
            },
            None => false,
        }
    }

    /// Takes out what is filed under `key`, if anything is.
    pub fn remove(&mut self, key: &str) -> (value: Option<V>)
        ensures
            final(self)@ == old(self)@.remove(key@),
            match value {
                Some(v) => old(self)@.contains_key(key@) && old(self)@[key@] == v@,
                None => !old(self)@.contains_key(key@),
            },
    {
        proof {
            use_type_invariant(&*self);
        }
        let ghost before = self.entries@;
        match self.find(key) {
            Some(i) => {
                let mut entries: Vec<(String, V)> = Vec::new();
                core::mem::swap(&mut self.entries, &mut entries);
                let entry = entries.remove(i);
                proof {
                    lemma_entry_at(before, i as int);
                    lemma_entries_remove(before, i as int);
                }
                self.entries = entries;
                Some(entry.1)
            },
            None => {
                assert(self@ =~= self@.remove(key@));
                None
            },
        }
    }

    /// Files `value` under `key`, in place of whatever was there.
    pub fn set(&mut self, key: &str, value: V)
        ensures
            final(self)@ == old(self)@.insert(key@, value@),
    {
        let _ = self.remove(key);
        proof {
            use_type_invariant(&*self);
        }
        let ghost rest = self.entries@;
        let mut entries: Vec<(String, V)> = Vec::new();
        core::mem::swap(&mut self.entries, &mut entries);
        let entry = (key.to_owned(), value);
        proof {
            lemma_entries_push(rest, entry);
            assert(old(self)@.remove(key@).insert(key@, value@) =~= old(self)@.insert(key@, value@));
        }
        entries.push(entry);
        self.entries = entries;
    }
}

} // verus!
