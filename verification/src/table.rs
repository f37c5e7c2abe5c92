//! A keyed table of the index state: entries held in insertion order, no key
//! twice, seen as a map from key to value.

use vstd::prelude::*;

verus! {

/// A key that can be compared with another by its view.
pub trait TableKey: View + Sized {
    /// Same key.
    fn key_eq(&self, other: &Self) -> (r: bool)
        ensures
            r == (self@ == other@);
}

/// Entries keyed by `K`, each key at most once.
pub struct Table<K, V> {
    entries: Vec<(K, V)>,
}

impl<K: TableKey, V: View> View for Table<K, V> {
    type V = Map<K::V, V::V>;

    closed spec fn view(&self) -> Map<K::V, V::V> {
        Map::new(
            |k: K::V| exists|i: int| 0 <= i < self.entries@.len() && #[trigger] self.entries@[i].0@ == k,
            |k: K::V| self.entries@[self.index_of(k)].1@,
        )
    }
}

impl<K: TableKey, V: View> Table<K, V> {
    /// The position of a key that is present.
    pub closed spec fn index_of(&self, k: K::V) -> int {
        choose|i: int| 0 <= i < self.entries@.len() && #[trigger] self.entries@[i].0@ == k
    }

    /// No key occurs twice.
    pub closed spec fn wf(&self) -> bool {
        forall|i: int, j: int|
            0 <= i < self.entries@.len() && 0 <= j < self.entries@.len() && i != j
                ==> #[trigger] self.entries@[i].0@ != #[trigger] self.entries@[j].0@
    }

    /// An empty table.
    pub fn new() -> (r: Table<K, V>)
        ensures
            r.wf(),
            r@ == Map::<K::V, V::V>::empty(),
    {
        let r = Table { entries: Vec::new() };
        assert(r@ =~= Map::<K::V, V::V>::empty());
        r
    }

    /// Position of a key.
    fn find(&self, k: &K) -> (r: Option<usize>)
        requires
            self.wf(),
        ensures
            match r {
                Some(i) => i < self.entries@.len() && self.entries@[i as int].0@ == k@
                    && self.index_of(k@) == i,
                None => !self@.contains_key(k@),
            },
    {
        let mut i: usize = 0;
        while i < self.entries.len()
            invariant
                self.wf(),
                i <= self.entries@.len(),
                forall|j: int| 0 <= j < i ==> #[trigger] self.entries@[j].0@ != k@,
            decreases self.entries.len() - i,
        {
            if self.entries[i].0.key_eq(k) {
                proof {
                    let c = self.index_of(k@);
                    assert(self.entries@[i as int].0@ == k@);
                    assert(0 <= c < self.entries@.len() && self.entries@[c].0@ == k@);
                    assert(c == i);
                }
                return Some(i);
            }
            i = i + 1;
        }
        None
    }

    /// The value under a key.
    pub fn get(&self, k: &K) -> (r: Option<&V>)
        requires
            self.wf(),
        ensures
            match r {
                Some(v) => self@.contains_key(k@) && v@ == self@[k@],
                None => !self@.contains_key(k@),
            },
    {
        match self.find(k) {
            Some(i) => {
                assert(self@.contains_key(k@));
                Some(&self.entries[i].1)
            },
            None => None,
        }
    }

    /// Whether a key is present.
    pub fn contains(&self, k: &K) -> (r: bool)
        requires
            self.wf(),
        ensures
            r == self@.contains_key(k@),
    {
        match self.find(k) {
            Some(i) => {
                assert(self@.contains_key(k@));
                true
            },
            None => false,
        }
    }

    /// Sets the value under a key.
    pub fn insert(&mut self, k: K, v: V)
        requires
            old(self).wf(),
        ensures
            final(self).wf(),
            final(self)@ == old(self)@.insert(k@, v@),
    {
        let ghost m0 = self@;
        let ghost kv = k@;
        let ghost vv = v@;
        match self.find(&k) {
            Some(i) => {
                let ghost e0 = self.entries@;
                self.entries.set(i, (k, v));
                proof {
                    assert forall|a: int, b: int|
                        0 <= a < self.entries@.len() && 0 <= b < self.entries@.len() && a != b
                            implies #[trigger] self.entries@[a].0@ != #[trigger] self.entries@[b].0@ by {
                        if a != i && b != i {
                            assert(e0[a].0@ != e0[b].0@);
                        } else if a == i {
                            assert(e0[b].0@ != e0[i as int].0@);
                        } else {
                            assert(e0[a].0@ != e0[i as int].0@);
                        }
                    }
                    assert forall|key: K::V| #[trigger] self@.contains_key(key) == m0.insert(kv, vv).contains_key(key) by {
                        if m0.contains_key(key) {
                            let j = choose|j: int| 0 <= j < e0.len() && #[trigger] e0[j].0@ == key;
                            assert(self.entries@[j].0@ == key || j == i);
                            if j == i {
                                assert(self.entries@[i as int].0@ == key);
                            }
                        }
                        if self@.contains_key(key) {
                            let j = choose|j: int| 0 <= j < self.entries@.len() && #[trigger] self.entries@[j].0@ == key;
                            if j != i {
                                assert(e0[j].0@ == key);
                            }
                        }
                    }
                    assert forall|key: K::V| #[trigger] self@.contains_key(key) implies self@[key] == m0.insert(kv, vv)[key] by {
                        let j = self.index_of(key);
                        if key == kv {
                            assert(self.entries@[i as int].0@ == key);
                            assert(j == i);
                        } else {
                            assert(j != i);
                            assert(e0[j].0@ == key);
                            let j0 = choose|j0: int| 0 <= j0 < e0.len() && #[trigger] e0[j0].0@ == key;
                            assert(j0 == j);
                        }
                    }
                    assert(self@ =~= m0.insert(kv, vv));
                }
            },
            None => {
                let ghost e0 = self.entries@;
                self.entries.push((k, v));
                proof {
                    let n = e0.len() as int;
                    assert forall|a: int, b: int|
                        0 <= a < self.entries@.len() && 0 <= b < self.entries@.len() && a != b
                            implies #[trigger] self.entries@[a].0@ != #[trigger] self.entries@[b].0@ by {
                        if a < n && b < n {
                            assert(e0[a].0@ != e0[b].0@);
                        } else if a == n {
                            assert(!m0.contains_key(kv));
                            assert(e0[b].0@ != kv);
                        } else {
                            assert(!m0.contains_key(kv));
                            assert(e0[a].0@ != kv);
                        }
                    }
                    assert forall|key: K::V| #[trigger] self@.contains_key(key) == m0.insert(kv, vv).contains_key(key) by {
                        if m0.contains_key(key) {
                            let j = choose|j: int| 0 <= j < e0.len() && #[trigger] e0[j].0@ == key;
                            assert(self.entries@[j].0@ == key);
                        }
                        if key == kv {
                            assert(self.entries@[n].0@ == key);
                        }
                        if self@.contains_key(key) {
                            let j = choose|j: int| 0 <= j < self.entries@.len() && #[trigger] self.entries@[j].0@ == key;
                            if j < n {
                                assert(e0[j].0@ == key);
                            }
                        }
                    }
                    assert forall|key: K::V| #[trigger] self@.contains_key(key) implies self@[key] == m0.insert(kv, vv)[key] by {
                        let j = self.index_of(key);
                        if key == kv {
                            assert(self.entries@[n].0@ == key);
                            assert(j == n);
                        } else {
                            assert(j != n);
                            assert(e0[j].0@ == key);
                            let j0 = choose|j0: int| 0 <= j0 < e0.len() && #[trigger] e0[j0].0@ == key;
                            assert(j0 == j);
                        }
                    }
                    assert(self@ =~= m0.insert(kv, vv));
                }
            },
        }
    }

    /// Removes a key and its value.
    pub fn remove(&mut self, k: &K)
        requires
            old(self).wf(),
        ensures
            final(self).wf(),
            final(self)@ == old(self)@.remove(k@),
    {
        let ghost m0 = self@;
        match self.find(k) {
            Some(i) => {
                let ghost e0 = self.entries@;
                let _ = self.entries.remove(i);
                proof {
                    let e1 = self.entries@;
                    assert(e1 =~= e0.remove(i as int));
                    assert forall|a: int| 0 <= a < e1.len() implies #[trigger] e1[a] == e0[if a < i { a } else { a + 1 }] by {}
                    assert forall|a: int, b: int|
                        0 <= a < e1.len() && 0 <= b < e1.len() && a != b
                            implies #[trigger] e1[a].0@ != #[trigger] e1[b].0@ by {
                        let a0 = if a < i { a } else { a + 1 };
                        let b0 = if b < i { b } else { b + 1 };
                        assert(e1[a] == e0[a0]);
                        assert(e1[b] == e0[b0]);
                        assert(e0[a0].0@ != e0[b0].0@);
                    }
                    assert forall|key: K::V| #[trigger] self@.contains_key(key) == m0.remove(k@).contains_key(key) by {
                        if self@.contains_key(key) {
                            let j = choose|j: int| 0 <= j < e1.len() && #[trigger] e1[j].0@ == key;
                            let j0 = if j < i { j } else { j + 1 };
                            assert(e1[j] == e0[j0]);
                            assert(e0[j0].0@ == key);
                            assert(j0 != i);
                            assert(e0[i as int].0@ != e0[j0].0@);
                        }
                        if m0.remove(k@).contains_key(key) {
                            let j0 = choose|j0: int| 0 <= j0 < e0.len() && #[trigger] e0[j0].0@ == key;
                            assert(j0 != i);
                            let j = if j0 < i { j0 } else { j0 - 1 };
                            assert(e1[j] == e0[j0]);
                            assert(e1[j].0@ == key);
                        }
                    }
                    assert forall|key: K::V| #[trigger] self@.contains_key(key) implies self@[key] == m0.remove(k@)[key] by {
                        let j = self.index_of(key);
                        let j0 = if j < i { j } else { j + 1 };
                        assert(e1[j] == e0[j0]);
                        let c = choose|c: int| 0 <= c < e0.len() && #[trigger] e0[c].0@ == key;
                        assert(c == j0);
                    }
                    assert(self@ =~= m0.remove(k@));
                }
            },
            None => {
                assert(self@ =~= m0.remove(k@));
            },
        }
    }

    /// The entries, in insertion order.
    pub fn items(&self) -> (r: &[(K, V)])
        requires
            self.wf(),
        ensures
            r@.len() == self@.len(),
            forall|i: int| 0 <= i < r@.len() ==> self@.contains_key(#[trigger] r@[i].0@)
                && self@[r@[i].0@] == r@[i].1@,
    {
        proof {
            self.lemma_len();
        }
        assert forall|i: int| 0 <= i < self.entries@.len() implies self@.contains_key(#[trigger] self.entries@[i].0@)
            && self@[self.entries@[i].0@] == self.entries@[i].1@ by {
            let c = self.index_of(self.entries@[i].0@);
            assert(c == i);
        }
        self.entries.as_slice()
    }

    /// The map has as many keys as there are entries.
    proof fn lemma_len(&self)
        requires
            self.wf(),
        ensures
            self@.dom().finite(),
            self@.len() == self.entries@.len(),
    {
        let keys = self.entries@.map_values(|e: (K, V)| e.0@);
        assert forall|a: int, b: int| 0 <= a < b < keys.len() implies keys[a] != keys[b] by {
            assert(self.entries@[a].0@ != self.entries@[b].0@);
        }
        assert(keys.no_duplicates());
        keys.unique_seq_to_set();
        assert(self@.dom() =~= keys.to_set()) by {
            assert forall|k: K::V| #[trigger] self@.dom().contains(k) == keys.to_set().contains(k) by {
                if self@.dom().contains(k) {
                    let j = choose|j: int| 0 <= j < self.entries@.len() && #[trigger] self.entries@[j].0@ == k;
                    assert(keys[j] == k);
                }
                if keys.to_set().contains(k) {
                    assert(keys.contains(k));
                    let j = choose|j: int| 0 <= j < keys.len() && keys[j] == k;
                    assert(self.entries@[j].0@ == k);
                }
            }
        }
    }
}

} // verus!
