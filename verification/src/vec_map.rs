use vstd::prelude::*;
use crate::key::Key;

verus! {

/// Whether no key occurs twice among the entries.
pub open spec fn distinct_keys<K, V>(entries: Seq<(K, V)>) -> bool {
    forall|i: int, j: int| 0 <= i < j < entries.len() ==> entries[i].0 != entries[j].0
}

/// Whether some entry carries `key`.
pub open spec fn has_key<K, V>(entries: Seq<(K, V)>, key: K) -> bool {
    exists|i: int| 0 <= i < entries.len() && (#[trigger] entries[i]).0 == key
}

/// The place of an entry that carries `key`, if there is one.
pub open spec fn key_index<K, V>(entries: Seq<(K, V)>, key: K) -> int {
    choose|i: int| 0 <= i < entries.len() && (#[trigger] entries[i]).0 == key
}

/// The map that a sequence of entries stands for.
pub open spec fn entries_map<K, V>(entries: Seq<(K, V)>) -> Map<K, V> {
    Map::new(|k: K| has_key(entries, k), |k: K| entries[key_index(entries, k)].1)
}

/// `entries` with `value` stored under `key`: in place where the key is
/// already there, at the end otherwise.
pub open spec fn entries_insert<K, V>(entries: Seq<(K, V)>, key: K, value: V) -> Seq<(K, V)> {
    if has_key(entries, key) {
        entries.update(key_index(entries, key), (key, value))
    } else {
        entries.push((key, value))
    }
}

/// With distinct keys the entry at place `i` is the one found for its key.
pub proof fn lemma_key_index<K, V>(entries: Seq<(K, V)>, i: int)
    requires
        distinct_keys(entries),
        0 <= i < entries.len(),
    ensures
        has_key(entries, entries[i].0),
        key_index(entries, entries[i].0) == i,
        entries_map(entries)[entries[i].0] == entries[i].1,
{
    let k = entries[i].0;
    assert(has_key(entries, k));
    let j = key_index(entries, k);
    assert(0 <= j < entries.len() && entries[j].0 == k);
    if j != i {
        if j < i {
            assert(entries[j].0 != entries[i].0);
        } else {
            assert(entries[i].0 != entries[j].0);
        }
    }
}

/// Storing a value keeps keys distinct and stores exactly that value.
pub proof fn lemma_entries_insert<K, V>(entries: Seq<(K, V)>, key: K, value: V)
    requires
        distinct_keys(entries),
    ensures
        distinct_keys(entries_insert(entries, key, value)),
        entries_map(entries_insert(entries, key, value)) == entries_map(entries).insert(key, value),
{
    let after = entries_insert(entries, key, value);
    if has_key(entries, key) {
        let p = key_index(entries, key);
        assert(0 <= p < entries.len() && entries[p].0 == key);
        assert forall|i: int, j: int| 0 <= i < j < after.len() implies after[i].0 != after[j].0 by {
            assert(after[i].0 == entries[i].0);
            assert(after[j].0 == entries[j].0);
        }
        assert forall|k: K| has_key(after, k) <==> has_key(entries, k) by {
            if has_key(after, k) {
                let i = key_index(after, k);
                assert(entries[i].0 == k);
            }
            if has_key(entries, k) {
                let i = key_index(entries, k);
                assert(after[i].0 == k);
            }
        }
        assert forall|k: K| has_key(after, k) implies #[trigger] entries_map(after)[k]
            == entries_map(entries).insert(key, value)[k] by {
            let i = key_index(after, k);
            assert(0 <= i < after.len() && after[i].0 == k);
            lemma_key_index(entries, i);
            if k == key {
                lemma_key_index(entries, p);
                assert(i == p);
            } else {
                assert(i != p);
            }
        }
        assert(entries_map(after) =~= entries_map(entries).insert(key, value));
    } else {
        assert forall|i: int, j: int| 0 <= i < j < after.len() implies after[i].0 != after[j].0 by {
            if j == entries.len() {
                assert(entries[i].0 != key);
            }
        }
        let last = entries.len() as int;
        assert(after[last].0 == key);
        assert forall|k: K| has_key(after, k) <==> (has_key(entries, k) || k == key) by {
            if has_key(after, k) {
                let i = key_index(after, k);
                if i < last {
                    assert(entries[i].0 == k);
                }
            }
            if has_key(entries, k) {
                let i = key_index(entries, k);
                assert(after[i].0 == k);
            }
        }
        assert forall|k: K| has_key(after, k) implies #[trigger] entries_map(after)[k]
            == entries_map(entries).insert(key, value)[k] by {
            let i = key_index(after, k);
            assert(0 <= i < after.len() && after[i].0 == k);
            lemma_key_index(after, i);
            if k != key {
                assert(i < last);
                lemma_key_index(entries, i);
            } else {
                lemma_key_index(after, last);
            }
        }
        assert(entries_map(after) =~= entries_map(entries).insert(key, value));
    }
}

/// A finite map kept as a list of entries, in the order in which the keys
/// were first stored. No key occurs twice.
#[derive(Debug, PartialEq, Eq)]
pub struct VecMap<K: Key, V> {
    entries: Vec<(K, V)>,
}

impl<K: Key, V> VecMap<K, V> {
    #[verifier::type_invariant]
    spec fn keys_are_distinct(self) -> bool {
        distinct_keys(self.entries@)
    }

    /// The entries in the order of their first storing.
    pub closed spec fn entries(&self) -> Seq<(K, V)> {
        self.entries@
    }

    /// The map from each key to its value.
    pub open spec fn view(&self) -> Map<K, V> {
        entries_map(self.entries())
    }

    /// An empty map.
    pub fn new() -> (m: Self)
        ensures
            m.entries() == Seq::<(K, V)>::empty(),
            m@ == Map::<K, V>::empty(),
    {
        let m = VecMap { entries: Vec::new() };
        assert(m@ =~= Map::<K, V>::empty());
        m
    }

    /// The number of entries.
    pub fn len(&self) -> (n: usize)
        ensures
            n == self.entries().len(),
            distinct_keys(self.entries()),
    {
        proof {
            use_type_invariant(self);
        }
        self.entries.len()
    }

    /// The entry at place `i`.
    pub fn entry(&self, i: usize) -> (e: &(K, V))
        requires
            i < self.entries().len(),
        ensures
            *e == self.entries()[i as int],
            self@.contains_key(e.0),
            self@[e.0] == e.1,
    {
        proof {
            use_type_invariant(self);
            lemma_key_index(self.entries@, i as int);
        }
        &self.entries[i]
    }

    /// The place of `key` among the entries, if it is there.
    pub fn position(&self, key: &K) -> (at: Option<usize>)
        ensures
            distinct_keys(self.entries()),
            at is Some <==> has_key(self.entries(), *key),
            at is Some ==> at->Some_0 == key_index(self.entries(), *key),
            at is Some ==> at->Some_0 < self.entries().len(),
    {
        proof {
            use_type_invariant(self);
        }
        let mut i: usize = 0;
        while i < self.entries.len()
            invariant
                i <= self.entries.len(),
                distinct_keys(self.entries@),
                forall|k: int| 0 <= k < i ==> (#[trigger] self.entries@[k]).0 != *key,
            decreases self.entries.len() - i,
        {
            if self.entries[i].0.key_eq(key) {
                proof {
                    lemma_key_index(self.entries@, i as int);
                }
                return Some(i);
            }
            i += 1;
        }
        None
    }

    /// Whether `key` has a value.
    pub fn contains_key(&self, key: &K) -> (found: bool)
        ensures
            found == self@.contains_key(*key),
    {
        self.position(key).is_some()
    }

    /// The value stored under `key`, if any.
    pub fn get(&self, key: &K) -> (value: Option<&V>)
        ensures
            value is Some <==> self@.contains_key(*key),
            value is Some ==> *value->Some_0 == self@[*key],
    {
        match self.position(key) {
            Some(i) => Some(&self.entries[i].1),
            None => None,
        }
    }

    /// Stores `value` under `key`, replacing what was stored there.
    pub fn insert(&mut self, key: K, value: V)
        ensures
            final(self).entries() == entries_insert(old(self).entries(), key, value),
            final(self)@ == old(self)@.insert(key, value),
    {
        proof {
            use_type_invariant(&*self);
            lemma_entries_insert(self.entries@, key, value);
        }
        match self.position(&key) {
            Some(i) => {
                let mut entries: Vec<(K, V)> = Vec::new();
                core::mem::swap(&mut self.entries, &mut entries);
                entries[i] = (key, value);
                self.entries = entries;
            },
            None => {
                let mut entries: Vec<(K, V)> = Vec::new();
                core::mem::swap(&mut self.entries, &mut entries);
                entries.push((key, value));
                self.entries = entries;
            },
        }
    }
}

/// A finite set kept as a list of its elements, in the order in which they
/// were first put in. No element occurs twice.
#[derive(Debug, PartialEq, Eq)]
pub struct VecSet<K: Key> {
    elements: Vec<K>,
}

impl<K: Key> VecSet<K> {
    #[verifier::type_invariant]
    spec fn elements_are_distinct(self) -> bool {
        self.elements@.no_duplicates()
    }

    /// The elements in the order of their first putting in.
    pub closed spec fn elements(&self) -> Seq<K> {
        self.elements@
    }

    /// The set of the elements.
    pub open spec fn view(&self) -> Set<K> {
        self.elements().to_set()
    }

    /// An empty set.
    pub fn new() -> (s: Self)
        ensures
            s.elements() == Seq::<K>::empty(),
            s@ == Set::<K>::empty(),
    {
        let s = VecSet { elements: Vec::new() };
        assert(s@ =~= Set::<K>::empty());
        s
    }

    /// The number of elements.
    pub fn len(&self) -> (n: usize)
        ensures
            n == self.elements().len(),
            self.elements().no_duplicates(),
    {
        proof {
            use_type_invariant(self);
        }
        self.elements.len()
    }

    /// The element at place `i`.
    pub fn element(&self, i: usize) -> (e: K)
        requires
            i < self.elements().len(),
        ensures
            e == self.elements()[i as int],
            self@.contains(e),
    {
        self.elements[i]
    }

    /// Whether `key` is an element.
    pub fn contains(&self, key: &K) -> (found: bool)
        ensures
            found == self@.contains(*key),
    {
        let mut i: usize = 0;
        while i < self.elements.len()
            invariant
                i <= self.elements.len(),
                forall|k: int| 0 <= k < i ==> self.elements@[k] != *key,
            decreases self.elements.len() - i,
        {
            if self.elements[i].key_eq(key) {
                return true;
            }
            i += 1;
        }
        false
    }

    /// Puts `key` in, unless it is an element already.
    pub fn insert(&mut self, key: K)
        ensures
            final(self)@ == old(self)@.insert(key),
            final(self).elements() == if old(self)@.contains(key) {
                old(self).elements()
            } else {
                old(self).elements().push(key)
            },
    {
        proof {
            use_type_invariant(&*self);
        }
        if !self.contains(&key) {
            let mut elements: Vec<K> = Vec::new();
            core::mem::swap(&mut self.elements, &mut elements);
            elements.push(key);
            self.elements = elements;
            assert(self.elements@.to_set() =~= old(self).elements@.to_set().insert(key)) by {
                assert forall|k: K| self.elements@.contains(k) <==> (old(self).elements@.contains(k)
                    || k == key) by {
                    if self.elements@.contains(k) {
                        let i = choose|i: int| 0 <= i < self.elements@.len() && self.elements@[i] == k;
                        if i < old(self).elements@.len() {
                            assert(old(self).elements@[i] == k);
                        }
                    }
                    if old(self).elements@.contains(k) {
                        let i = choose|i: int| 0 <= i < old(self).elements@.len() && old(
                            self,
                        ).elements@[i] == k;
                        assert(self.elements@[i] == k);
                    }
                    if k == key {
                        assert(self.elements@[self.elements@.len() - 1] == k);
                    }
                }
            }
        } else {
            assert(self.elements@.to_set().insert(key) =~= self.elements@.to_set());
        }
    }
}

} // verus!
