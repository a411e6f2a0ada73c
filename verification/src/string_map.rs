//! Association maps keyed by strings and by CTN node ids.
//!
//! Entries keep their insertion order; a key occurs at most once.

use vstd::prelude::*;
use crate::strings::str_eq;

verus! {

/// A map from strings to values, kept as a list of entries in insertion
/// order with distinct keys.
#[derive(Debug)]
pub struct StringMap<V> {
    pub entries: Vec<(String, V)>,
}

/// The keys of a list of entries, in order.
pub open spec fn entry_keys<V>(s: Seq<(String, V)>) -> Seq<Seq<char>> {
    s.map_values(|e: (String, V)| e.0@)
}

impl<V> StringMap<V> {
    /// No key occurs twice.
    pub open spec fn wf(&self) -> bool {
        entry_keys(self.entries@).no_duplicates()
    }

    /// The keys in insertion order.
    pub open spec fn spec_keys(&self) -> Seq<Seq<char>> {
        entry_keys(self.entries@)
    }

    /// `k` is a key of the map.
    pub open spec fn has(&self, k: Seq<char>) -> bool {
        self.spec_keys().contains(k)
    }

    /// The position of `k` among the entries.
    pub open spec fn index_of(&self, k: Seq<char>) -> int {
        self.spec_keys().index_of(k)
    }

    /// The value stored under `k` (meaningful when `has(k)`).
    pub open spec fn at(&self, k: Seq<char>) -> V {
        self.entries@[self.index_of(k)].1
    }

    /// In a map with distinct keys, the key at position `i` is found at `i`.
    pub proof fn lemma_key_at(&self, i: int)
        requires
            self.wf(),
            0 <= i < self.entries@.len(),
        ensures
            self.has(self.entries@[i].0@),
            self.index_of(self.entries@[i].0@) == i,
            self.at(self.entries@[i].0@) == self.entries@[i].1,
    {
        let k = self.entries@[i].0@;
        assert(self.spec_keys()[i] == k);
        assert(self.spec_keys().contains(k));
        let j = self.index_of(k);
        assert(0 <= j < self.spec_keys().len() && self.spec_keys()[j] == k);
    }

    /// Appending an entry with a fresh key keeps the keys distinct and
    /// leaves the values of the other keys unchanged.
    pub proof fn lemma_push_fresh(old_map: &Self, new_map: &Self, key: Seq<char>)
        requires
            old_map.wf(),
            !old_map.has(key),
            new_map.entries@.len() == old_map.entries@.len() + 1,
            new_map.entries@.subrange(0, old_map.entries@.len() as int) == old_map.entries@,
            new_map.entries@.last().0@ == key,
        ensures
            new_map.wf(),
            new_map.spec_keys() == old_map.spec_keys().push(key),
            forall|k: Seq<char>| new_map.has(k) <==> (old_map.has(k) || k == key),
            forall|k: Seq<char>| old_map.has(k) ==> new_map.at(k) == old_map.at(k),
            new_map.at(key) == new_map.entries@.last().1,
    {
        let ks = old_map.spec_keys();
        let n = ks.len();
        assert(new_map.spec_keys() =~= ks.push(key)) by {
            assert forall|i: int| 0 <= i < n implies new_map.spec_keys()[i] == ks[i] by {
                assert(new_map.entries@[i] == new_map.entries@.subrange(0, n as int)[i]);
            }
        }
        let nks = new_map.spec_keys();
        assert forall|a: int, b: int| 0 <= a < nks.len() && 0 <= b < nks.len() && a != b
            implies nks[a] != nks[b] by {
            if a < n && b < n {
            } else if a == n {
                assert(ks.contains(ks[b]));
            } else {
                assert(ks.contains(ks[a]));
            }
        }
        assert forall|k: Seq<char>| new_map.has(k) <==> (old_map.has(k) || k == key) by {
            if new_map.has(k) {
                let i = choose|i: int| 0 <= i < nks.len() && nks[i] == k;
                if i < n { assert(ks[i] == k); }
            }
            if old_map.has(k) {
                let i = choose|i: int| 0 <= i < ks.len() && ks[i] == k;
                assert(nks[i] == k);
            }
            if k == key {
                assert(nks[n as int] == k);
            }
        }
        assert forall|k: Seq<char>| old_map.has(k) implies new_map.at(k) == old_map.at(k) by {
            let i = old_map.index_of(k);
            assert(0 <= i < n && ks[i] == k);
            assert(nks[i] == k);
            assert(nks.contains(k));
            let j = new_map.index_of(k);
            assert(0 <= j < nks.len() && nks[j] == k);
            assert(new_map.entries@[i] == old_map.entries@[i]) by {
                assert(new_map.entries@[i] == new_map.entries@.subrange(0, n as int)[i]);
            }
        }
        assert(nks[n as int] == key);
        assert(nks.contains(key));
    }

    /// Replacing the value of the entry at position `i` (same key) keeps the
    /// keys and leaves the values of the other keys unchanged.
    pub proof fn lemma_update_at(old_map: &Self, new_map: &Self, i: int)
        requires
            old_map.wf(),
            0 <= i < old_map.entries@.len(),
            new_map.entries@.len() == old_map.entries@.len(),
            new_map.entries@[i].0@ == old_map.entries@[i].0@,
            forall|j: int| 0 <= j < old_map.entries@.len() && j != i ==> new_map.entries@[j] == old_map.entries@[j],
        ensures
            new_map.wf(),
            new_map.spec_keys() == old_map.spec_keys(),
            forall|k: Seq<char>| new_map.has(k) <==> old_map.has(k),
            forall|k: Seq<char>| old_map.has(k) && k != old_map.entries@[i].0@ ==> new_map.at(k) == old_map.at(k),
            new_map.at(old_map.entries@[i].0@) == new_map.entries@[i].1,
    {
        assert(new_map.spec_keys() =~= old_map.spec_keys());
        new_map.lemma_key_at(i);
        assert forall|k: Seq<char>| old_map.has(k) && k != old_map.entries@[i].0@
            implies new_map.at(k) == old_map.at(k) by {
            let j = old_map.index_of(k);
            assert(0 <= j < old_map.spec_keys().len() && old_map.spec_keys()[j] == k);
            old_map.lemma_key_at(j);
            new_map.lemma_key_at(j);
        }
    }

    /// An empty map.
    pub fn new() -> (m: Self)
        ensures
            m.wf(),
            m.entries@.len() == 0,
    {
        StringMap { entries: Vec::new() }
    }

    /// Number of entries.
    pub fn len(&self) -> (n: usize)
        ensures
            n == self.entries@.len(),
    {
        self.entries.len()
    }

    /// The position of `key` among the entries, if it is a key.
    pub fn find(&self, key: &str) -> (res: Option<usize>)
        ensures
            match res {
                Some(i) => i < self.entries@.len() && self.entries@[i as int].0@ == key@
                    && (forall|j: int| 0 <= j < i ==> self.entries@[j].0@ != key@),
                None => !self.has(key@),
            },
            res is Some <==> self.has(key@),
            self.wf() && res is Some ==> res.unwrap() == self.index_of(key@),
    {
        let mut i: usize = 0;
        while i < self.entries.len()
            invariant
                i <= self.entries@.len(),
                forall|j: int| 0 <= j < i ==> self.entries@[j].0@ != key@,
            decreases self.entries@.len() - i,
        {
            if str_eq(self.entries[i].0.as_str(), key) {
                proof {
                    assert(self.spec_keys()[i as int] == key@);
                    assert(self.spec_keys().contains(key@));
                    let idx = self.spec_keys().index_of(key@);
                    assert(0 <= idx < self.spec_keys().len() && self.spec_keys()[idx] == key@);
                }
                return Some(i);
            }
            i = i + 1;
        }
        proof {
            if self.has(key@) {
                let j = choose|j: int| 0 <= j < self.spec_keys().len() && self.spec_keys()[j] == key@;
                assert(self.entries@[j].0@ == key@);
            }
        }
        None
    }

    /// Whether `key` is a key of the map.
    pub fn contains_key(&self, key: &str) -> (res: bool)
        ensures
            res == self.has(key@),
    {
        self.find(key).is_some()
    }

    /// The value stored under `key`, if any.
    pub fn get(&self, key: &str) -> (res: Option<&V>)
        requires
            self.wf(),
        ensures
            match res {
                Some(v) => self.has(key@) && *v == self.at(key@),
                None => !self.has(key@),
            },
    {
        match self.find(key) {
            Some(i) => Some(&self.entries[i].1),
            None => None,
        }
    }

    /// Store `value` under `key`; an existing entry for `key` is replaced
    /// in place, otherwise the entry is appended.
    pub fn insert(&mut self, key: String, value: V)
        requires
            old(self).wf(),
        ensures
            final(self).wf(),
            old(self).has(key@) ==> final(self).entries@ == old(self).entries@.update(
                old(self).index_of(key@), (key, value)),
            !old(self).has(key@) ==> final(self).entries@ == old(self).entries@.push((key, value)),
            forall|k: Seq<char>| final(self).has(k) <==> (old(self).has(k) || k == key@),
            final(self).at(key@) == value,
            forall|k: Seq<char>| old(self).has(k) && k != key@ ==> final(self).at(k) == old(self).at(k),
    {
        let ghost old_map = *self;
        let ghost kv = key@;
        let ghost val = value;
        match self.find(key.as_str()) {
            Some(i) => {
                let ghost ks = self.spec_keys();
                self.entries.set(i, (key, value));
                proof {
                    assert(self.spec_keys() =~= ks.update(i as int, kv));
                    assert(self.spec_keys() =~= ks);
                    Self::lemma_update_at(&old_map, self, i as int);
                }
            },
            None => {
                let ghost ks = self.spec_keys();
                let ghost k = key@;
                self.entries.push((key, value));
                proof {
                    assert(self.entries@.subrange(0, old_map.entries@.len() as int) =~= old_map.entries@);
                    Self::lemma_push_fresh(&old_map, self, kv);
                    assert(self.spec_keys() =~= ks.push(k));
                    assert forall|a: int, b: int|
                        0 <= a < self.spec_keys().len() && 0 <= b < self.spec_keys().len() && a != b
                        implies self.spec_keys()[a] != self.spec_keys()[b] by {
                        if a < ks.len() && b < ks.len() {
                        } else if a == ks.len() {
                            assert(self.spec_keys()[b] == ks[b]);
                            assert(ks.contains(ks[b]));
                        } else {
                            assert(self.spec_keys()[a] == ks[a]);
                            assert(ks.contains(ks[a]));
                        }
                    }
                }
            },
        }
    }
}

} // verus!

verus! {

/// A map from CTN node ids to values, kept as a list of entries in insertion
/// order with distinct keys.
#[derive(Debug)]
pub struct CtnMap<V> {
    pub entries: Vec<(usize, V)>,
}

/// The keys of a list of CTN-keyed entries, in order.
pub open spec fn ctn_keys<V>(s: Seq<(usize, V)>) -> Seq<usize> {
    s.map_values(|e: (usize, V)| e.0)
}

impl<V> CtnMap<V> {
    /// No key occurs twice.
    pub open spec fn wf(&self) -> bool {
        ctn_keys(self.entries@).no_duplicates()
    }

    /// `k` is a key of the map.
    pub open spec fn has(&self, k: usize) -> bool {
        ctn_keys(self.entries@).contains(k)
    }

    /// The position of `k` among the entries.
    pub open spec fn index_of(&self, k: usize) -> int {
        ctn_keys(self.entries@).index_of(k)
    }

    /// The value stored under `k` (meaningful when `has(k)`).
    pub open spec fn at(&self, k: usize) -> V {
        self.entries@[self.index_of(k)].1
    }

    /// In a map with distinct keys, the key at position `i` is found at `i`.
    pub proof fn lemma_ctn_key_at(&self, i: int)
        requires
            self.wf(),
            0 <= i < self.entries@.len(),
        ensures
            self.has(self.entries@[i].0),
            self.index_of(self.entries@[i].0) == i,
            self.at(self.entries@[i].0) == self.entries@[i].1,
    {
        let k = self.entries@[i].0;
        assert(ctn_keys(self.entries@)[i] == k);
        assert(ctn_keys(self.entries@).contains(k));
        let j = self.index_of(k);
        assert(0 <= j < ctn_keys(self.entries@).len() && ctn_keys(self.entries@)[j] == k);
    }

    /// An empty map.
    pub fn new() -> (m: Self)
        ensures
            m.wf(),
            m.entries@.len() == 0,
    {
        CtnMap { entries: Vec::new() }
    }

    /// Number of entries.
    pub fn len(&self) -> (n: usize)
        ensures
            n == self.entries@.len(),
    {
        self.entries.len()
    }

    /// The position of `key` among the entries, if it is a key.
    pub fn find(&self, key: usize) -> (res: Option<usize>)
        ensures
            res is Some <==> self.has(key),
            match res {
                Some(i) => i < self.entries@.len() && self.entries@[i as int].0 == key,
                None => true,
            },
            self.wf() && res is Some ==> res.unwrap() == self.index_of(key),
    {
        let mut i: usize = 0;
        while i < self.entries.len()
            invariant
                i <= self.entries@.len(),
                forall|j: int| 0 <= j < i ==> self.entries@[j].0 != key,
            decreases self.entries@.len() - i,
        {
            if self.entries[i].0 == key {
                proof {
                    assert(ctn_keys(self.entries@)[i as int] == key);
                    assert(ctn_keys(self.entries@).contains(key));
                }
                return Some(i);
            }
            i = i + 1;
        }
        proof {
            if self.has(key) {
                let j = choose|j: int| 0 <= j < ctn_keys(self.entries@).len() && ctn_keys(self.entries@)[j] == key;
                assert(self.entries@[j].0 == key);
            }
        }
        None
    }

    /// The value stored under `key`, if any.
    pub fn get(&self, key: usize) -> (res: Option<&V>)
        requires
            self.wf(),
        ensures
            match res {
                Some(v) => self.has(key) && *v == self.entries@[self.index_of(key)].1,
                None => !self.has(key),
            },
    {
        match self.find(key) {
            Some(i) => Some(&self.entries[i].1),
            None => None,
        }
    }

    /// Store `value` under `key`, replacing an existing entry in place or
    /// appending a new one.
    pub fn insert(&mut self, key: usize, value: V)
        requires
            old(self).wf(),
        ensures
            final(self).wf(),
            old(self).has(key) ==> final(self).entries@ == old(self).entries@.update(old(self).index_of(key), (key, value)),
            !old(self).has(key) ==> final(self).entries@ == old(self).entries@.push((key, value)),
            forall|k: usize| final(self).has(k) <==> (old(self).has(k) || k == key),
            final(self).at(key) == value,
            forall|k: usize| old(self).has(k) && k != key ==> final(self).at(k) == old(self).at(k),
    {
        let ghost old_map = *self;
        match self.find(key) {
            Some(i) => {
                let ghost ks = ctn_keys(self.entries@);
                self.entries.set(i, (key, value));
                proof {
                    assert(ctn_keys(self.entries@) =~= ks);
                    self.lemma_ctn_key_at(i as int);
                    assert forall|k: usize| old_map.has(k) && k != key implies self.at(k) == old_map.at(k) by {
                        let j = old_map.index_of(k);
                        assert(0 <= j < ks.len() && ks[j] == k);
                        old_map.lemma_ctn_key_at(j);
                        self.lemma_ctn_key_at(j);
                    }
                }
            },
            None => {
                let ghost ks = ctn_keys(self.entries@);
                self.entries.push((key, value));
                proof {
                    assert(ctn_keys(self.entries@) =~= ks.push(key));
                    assert forall|a: int, b: int|
                        0 <= a < ctn_keys(self.entries@).len() && 0 <= b < ctn_keys(self.entries@).len() && a != b
                        implies ctn_keys(self.entries@)[a] != ctn_keys(self.entries@)[b] by {
                        if a < ks.len() && b < ks.len() {
                        } else if a == ks.len() {
                            assert(ks.contains(ks[b]));
                        } else {
                            assert(ks.contains(ks[a]));
                        }
                    }
                    let n = ks.len();
                    self.lemma_ctn_key_at(n as int);
                    assert forall|k: usize| self.has(k) <==> (old_map.has(k) || k == key) by {
                        if self.has(k) && k != key {
                            let j = choose|j: int| 0 <= j < ctn_keys(self.entries@).len() && ctn_keys(self.entries@)[j] == k;
                            assert(ks[j] == k);
                        }
                        if old_map.has(k) {
                            let j = choose|j: int| 0 <= j < ks.len() && ks[j] == k;
                            assert(ctn_keys(self.entries@)[j] == k);
                        }
                    }
                    assert forall|k: usize| old_map.has(k) && k != key implies self.at(k) == old_map.at(k) by {
                        let j = old_map.index_of(k);
                        assert(0 <= j < ks.len() && ks[j] == k);
                        old_map.lemma_ctn_key_at(j);
                        assert(self.entries@[j] == old_map.entries@[j]);
                        self.lemma_ctn_key_at(j);
                    }
                }
            },
        }
    }
}

} // verus!
