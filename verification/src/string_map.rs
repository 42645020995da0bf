//! A small map from strings to values that keeps its entries in the order
//! in which their keys first came.

use vstd::prelude::*;

verus! {

/// Whether no key occurs twice among the entries.
pub open spec fn keys_distinct<V>(entries: Seq<(String, V)>) -> bool {
    forall|i: int, j: int|
        0 <= i < j < entries.len() ==> (#[trigger] entries[i]).0@ != (#[trigger] entries[j]).0@
}

/// The map that the entries stand for: each key with its value.
pub open spec fn entries_map<V>(entries: Seq<(String, V)>) -> Map<Seq<char>, V>
    decreases entries.len(),
{
    if entries.len() == 0 {
        Map::empty()
    } else {
        entries_map(entries.drop_last()).insert(entries.last().0@, entries.last().1)
    }
}

/// A key that no entry bears is not in the map.
pub proof fn lemma_absent_key<V>(entries: Seq<(String, V)>, key: Seq<char>)
    requires
        forall|i: int| 0 <= i < entries.len() ==> (#[trigger] entries[i]).0@ != key,
    ensures
        !entries_map(entries).dom().contains(key),
    decreases entries.len(),
{
    if entries.len() > 0 {
        lemma_absent_key(entries.drop_last(), key);
    }
}

/// With distinct keys, the map gives each entry's key that entry's value.
pub proof fn lemma_present_key<V>(entries: Seq<(String, V)>, at: int)
    requires
        keys_distinct(entries),
        0 <= at < entries.len(),
    ensures
        entries_map(entries).dom().contains(entries[at].0@),
        entries_map(entries)[entries[at].0@] == entries[at].1,
    decreases entries.len(),
{
    if at < entries.len() - 1 {
        lemma_present_key(entries.drop_last(), at);
        assert(entries.drop_last()[at] == entries[at]);
        assert(entries[at].0@ != entries[entries.len() - 1].0@);
    }
}

/// With distinct keys, putting a new value where a key stands changes the
/// map at that key alone.
pub proof fn lemma_replace_value<V>(entries: Seq<(String, V)>, at: int, key: String, value: V)
    requires
        keys_distinct(entries),
        0 <= at < entries.len(),
        key@ == entries[at].0@,
    ensures
        keys_distinct(entries.update(at, (key, value))),
        entries_map(entries.update(at, (key, value))) == entries_map(entries).insert(
            key@,
            value,
        ),
    decreases entries.len(),
{
    let updated = entries.update(at, (key, value));
    assert(keys_distinct(updated)) by {
        assert forall|i: int, j: int| 0 <= i < j < updated.len() implies (
        #[trigger] updated[i]).0@ != (#[trigger] updated[j]).0@ by {
            assert(entries[i].0@ != entries[j].0@);
        }
    }
    if at == entries.len() - 1 {
        assert(updated.drop_last() =~= entries.drop_last());
        assert(entries_map(updated) =~= entries_map(entries).insert(key@, value));
    } else {
        lemma_replace_value(entries.drop_last(), at, key, value);
        assert(updated.drop_last() =~= entries.drop_last().update(at, (key, value)));
        assert(entries[at].0@ != entries[entries.len() - 1].0@);
        assert(entries_map(updated) =~= entries_map(entries).insert(key@, value));
    }
}

/// The keys of the map are the keys of the entries.
pub proof fn lemma_keys_of_entries<V>(entries: Seq<(String, V)>, key: Seq<char>)
    ensures
        entries_map(entries).dom().contains(key) <==> exists|i: int|
            0 <= i < entries.len() && (#[trigger] entries[i]).0@ == key,
    decreases entries.len(),
{
    if entries.len() > 0 {
        lemma_keys_of_entries(entries.drop_last(), key);
        if entries_map(entries).dom().contains(key) {
            if entries.last().0@ == key {
                assert(entries[entries.len() - 1].0@ == key);
            } else {
                let i = choose|i: int|
                    0 <= i < entries.drop_last().len() && (#[trigger] entries.drop_last()[i]).0@
                        == key;
                assert(entries[i].0@ == key);
            }
        }
        if exists|i: int| 0 <= i < entries.len() && (#[trigger] entries[i]).0@ == key {
            let i = choose|i: int| 0 <= i < entries.len() && (#[trigger] entries[i]).0@ == key;
            if i < entries.len() - 1 {
                assert(entries.drop_last()[i].0@ == key);
            }
        }
    }
}

/// A map from strings to values of `V`.
#[derive(Debug)]
pub struct StringMap<V> {
    entries: Vec<(String, V)>,
}

impl<V> View for StringMap<V> {
    type V = Map<Seq<char>, V>;

    closed spec fn view(&self) -> Map<Seq<char>, V> {
        entries_map(self.entries@)
    }
}

impl<V> StringMap<V> {
    #[verifier::type_invariant]
    spec fn well_formed(self) -> bool {
        keys_distinct(self.entries@)
    }

    /// The keys in the order in which they first came.
    pub closed spec fn keys(&self) -> Seq<Seq<char>> {
        self.entries@.map_values(|entry: (String, V)| entry.0@)
    }

    /// The keys listed by `keys` are the keys of the map, each once.
    pub proof fn lemma_keys_are_domain(&self)
        ensures
            forall|key: Seq<char>| self@.dom().contains(key) <==> self.keys().contains(key),
    {
        assert forall|key: Seq<char>| self@.dom().contains(key) <==> self.keys().contains(
            key,
        ) by {
            lemma_keys_of_entries(self.entries@, key);
            if self.keys().contains(key) {
                let i = choose|i: int| 0 <= i < self.keys().len() && self.keys()[i] == key;
                assert(self.entries@[i].0@ == key);
            }
            if self@.dom().contains(key) {
                let i = choose|i: int|
                    0 <= i < self.entries@.len() && (#[trigger] self.entries@[i]).0@ == key;
                assert(self.keys()[i] == key);
            }
        }
    }

    /// An empty map.
    pub fn new() -> (map: Self)
        ensures
            map@ == Map::<Seq<char>, V>::empty(),
            map.keys() == Seq::<Seq<char>>::empty(),
    {
        let map = StringMap { entries: Vec::new() };
        assert(map.keys() =~= Seq::<Seq<char>>::empty());
        map
    }

    /// The position of the entry with this key.
    fn position(&self, key: &String) -> (at: Option<usize>)
        ensures
            match at {
                Some(i) => i < self.entries@.len() && self.entries@[i as int].0@ == key@,
                None => forall|i: int|
                    0 <= i < self.entries@.len() ==> (#[trigger] self.entries@[i]).0@ != key@,
            },
    {
        let mut i: usize = 0;
        while i < self.entries.len()
            invariant
                i <= self.entries@.len(),
                forall|k: int| 0 <= k < i ==> (#[trigger] self.entries@[k]).0@ != key@,
            decreases self.entries.len() - i,
        {
            if self.entries[i].0 == *key {
                return Some(i);
            }
            i = i + 1;
        }
        None
    }

    /// Binds `key` to `value`, in place of what it was bound to before. A
    /// key that is new comes last in the order of the keys; a key that is
    /// not keeps its place.
    pub fn insert(&mut self, key: String, value: V)
        ensures
            final(self)@ == old(self)@.insert(key@, value),
            final(self).keys() == if old(self)@.dom().contains(key@) {
                old(self).keys()
            } else {
                old(self).keys().push(key@)
            },
    {
        proof {
            use_type_invariant(&*self);
        }
        let found = self.position(&key);
        let mut entries: Vec<(String, V)> = Vec::new();
        core::mem::swap(&mut self.entries, &mut entries);
        match found {
            Some(at) => {
                proof {
                    lemma_replace_value(entries@, at as int, key, value);
                    lemma_present_key(entries@, at as int);
                }
                entries.set(at, (key, value));
            },
            None => {
                proof {
                    assert(entries@.push((key, value)).drop_last() =~= entries@);
                    assert(keys_distinct(entries@.push((key, value))));
                    lemma_absent_key(entries@, key@);
                }
                entries.push((key, value));
            },
        }
        self.entries = entries;
        assert(self.keys() =~= if old(self)@.dom().contains(key@) {
            old(self).keys()
        } else {
            old(self).keys().push(key@)
        });
    }

    /// The value that `key` is bound to, if any.
    pub fn get(&self, key: &str) -> (value: Option<&V>)
        ensures
            match value {
                Some(v) => self@.dom().contains(key@) && *v == self@[key@],
                None => !self@.dom().contains(key@),
            },
    {
        proof {
            use_type_invariant(self);
        }
        let owned = String::from_str(key);
        match self.position(&owned) {
            Some(at) => {
                proof {
                    lemma_present_key(self.entries@, at as int);
                }
                Some(&self.entries[at].1)
            },
            None => {
                proof {
                    lemma_absent_key(self.entries@, key@);
                }
                None
            },
        }
    }

    /// Whether `key` is bound to a value.
    pub fn contains_key(&self, key: &str) -> (found: bool)
        ensures
            found == self@.dom().contains(key@),
    {
        self.get(key).is_some()
    }

    /// The number of keys. No key is listed twice.
    pub fn len(&self) -> (n: usize)
        ensures
            n == self.keys().len(),
            self.keys().no_duplicates(),
    {
        proof {
            use_type_invariant(self);
            let keys = self.keys();
            assert forall|i: int, j: int|
                0 <= i < keys.len() && 0 <= j < keys.len() && i != j implies keys[i]
                != keys[j] by {
                if i < j {
                    assert(self.entries@[i].0@ != self.entries@[j].0@);
                } else {
                    assert(self.entries@[j].0@ != self.entries@[i].0@);
                }
            }
        }
        self.entries.len()
    }

    /// The entry at position `at`, in the order in which the keys first came.
    pub fn entry(&self, at: usize) -> (entry: (&String, &V))
        requires
            at < self.keys().len(),
        ensures
            entry.0@ == self.keys()[at as int],
            self@.dom().contains(entry.0@),
            *entry.1 == self@[entry.0@],
    {
        proof {
            use_type_invariant(self);
            lemma_present_key(self.entries@, at as int);
        }
        (&self.entries[at].0, &self.entries[at].1)
    }
}

} // verus!
