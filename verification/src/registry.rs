use vstd::prelude::*;
use crate::address::Key;

verus! {

/// One key with the value that stands under it.
#[derive(Debug)]
struct Entry<K, V> {
    key: K,
    value: V,
}

/// A finite map from keys to values, held as a list in which no key occurs
/// twice. Its view is the map.
#[derive(Debug)]
pub struct Registry<K: Key, V: Copy> {
    entries: Vec<Entry<K, V>>,
}

impl<K: Key, V: Copy> View for Registry<K, V> {
    type V = Map<K::V, V>;

    closed spec fn view(&self) -> Map<K::V, V> {
        Map::new(
            |k: K::V| exists|i: int| 0 <= i < self.entries@.len() && self.entries@[i].key@ == k,
            |k: K::V|
                self.entries@[choose|i: int|
                    0 <= i < self.entries@.len() && self.entries@[i].key@ == k].value,
        )
    }
}

impl<K: Key, V: Copy> Registry<K, V> {
    /// No key occurs twice.
    pub closed spec fn wf(&self) -> bool {
        forall|i: int, j: int|
            0 <= i < j < self.entries@.len() ==> self.entries@[i].key@ != self.entries@[j].key@
    }

    proof fn lemma_entry(&self, i: int)
        requires
            self.wf(),
            0 <= i < self.entries@.len(),
        ensures
            self@.dom().contains(self.entries@[i].key@),
            self@[self.entries@[i].key@] == self.entries@[i].value,
    {
        let k = self.entries@[i].key@;
        let j = choose|j: int| 0 <= j < self.entries@.len() && self.entries@[j].key@ == k;
        assert(0 <= j < self.entries@.len() && self.entries@[j].key@ == k);
        assert(i == j);
    }

    /// The empty registry.
    pub fn new() -> (r: Self)
        ensures
            r.wf(),
            r@ == Map::<K::V, V>::empty(),
    {
        let r = Registry { entries: Vec::new() };
        assert(r@ =~= Map::<K::V, V>::empty());
        r
    }

    fn find(&self, key: &K) -> (r: Option<usize>)
        requires
            self.wf(),
        ensures
            match r {
                Some(i) => i < self.entries@.len() && self.entries@[i as int].key@ == key@
                    && self@.dom().contains(key@) && self@[key@] == self.entries@[i as int].value,
                None => !self@.dom().contains(key@) && forall|i: int|
                    0 <= i < self.entries@.len() ==> self.entries@[i].key@ != key@,
            },
    {
        let mut i: usize = 0;
        while i < self.entries.len()
            invariant
                self.wf(),
                i <= self.entries@.len(),
                forall|j: int| 0 <= j < i ==> self.entries@[j].key@ != key@,
            decreases self.entries@.len() - i,
        {
            if self.entries[i].key.same(key) {
                proof {
                    self.lemma_entry(i as int);
                }
                return Some(i);
            }
            i += 1;
        }
        None
    }

    /// The value under `key`, if there is one.
    pub fn get(&self, key: &K) -> (r: Option<V>)
        requires
            self.wf(),
        ensures
            r == (if self@.dom().contains(key@) {
                Some(self@[key@])
            } else {
                None
            }),
    {
        match self.find(key) {
            Some(i) => Some(self.entries[i].value),
            None => None,
        }
    }

    /// Whether a value stands under `key`.
    pub fn contains(&self, key: &K) -> (r: bool)
        requires
            self.wf(),
        ensures
            r == self@.dom().contains(key@),
    {
        self.find(key).is_some()
    }

    /// Puts `value` under `key`, in place of the value that stood there, if
    /// any.
    pub fn insert(&mut self, key: K, value: V)
        requires
            old(self).wf(),
        ensures
            final(self).wf(),
            final(self)@ == old(self)@.insert(key@, value),
    {
        let ghost before = *self;
        let ghost at: int;
        match self.find(&key) {
            Some(i) => {
                self.entries.set(i, Entry { key, value });
                proof {
                    at = i as int;
                }
            },
            None => {
                self.entries.push(Entry { key, value });
                proof {
                    at = before.entries@.len() as int;
                }
            },
        }
        proof {
            assert(self.entries@[at].key@ == key@ && self.entries@[at].value == value);
            assert(forall|j: int|
                0 <= j < before.entries@.len() && j != at ==> self.entries@[j]
                    == before.entries@[j]);
            assert(forall|j: int|
                0 <= j < before.entries@.len() ==> self.entries@[j].key@
                    == before.entries@[j].key@);
            assert(self.wf());
            self.lemma_entry(at);
            assert forall|k: K::V| #[trigger]
                self@.dom().contains(k) == before@.insert(key@, value).dom().contains(k) by {
                if self@.dom().contains(k) && k != key@ {
                    let j = choose|j: int| 0 <= j < self.entries@.len() && self.entries@[j].key@ == k;
                    assert(0 <= j < self.entries@.len() && self.entries@[j].key@ == k);
                    assert(before.entries@[j].key@ == k);
                }
                if before@.dom().contains(k) && k != key@ {
                    let j = choose|j: int|
                        0 <= j < before.entries@.len() && before.entries@[j].key@ == k;
                    assert(0 <= j < before.entries@.len() && before.entries@[j].key@ == k);
                    assert(self.entries@[j].key@ == k);
                }
            }
            assert forall|k: K::V| self@.dom().contains(k) implies #[trigger] self@[k]
                == before@.insert(key@, value)[k] by {
                if k != key@ {
                    let j = choose|j: int| 0 <= j < self.entries@.len() && self.entries@[j].key@ == k;
                    assert(0 <= j < self.entries@.len() && self.entries@[j].key@ == k);
                    self.lemma_entry(j);
                    assert(before.entries@[j].key@ == k);
                    before.lemma_entry(j);
                }
            }
            assert(self@ =~= before@.insert(key@, value));
        }
    }

    /// Takes away `key` and its value, if they are there.
    pub fn remove(&mut self, key: &K)
        requires
            old(self).wf(),
        ensures
            final(self).wf(),
            final(self)@ == old(self)@.remove(key@),
    {
        let ghost before = *self;
        match self.find(key) {
            Some(i) => {
                let _ = self.entries.remove(i);
                proof {
                    assert forall|k: K::V| #[trigger]
                        self@.dom().contains(k) == before@.remove(key@).dom().contains(k) by {
                        if self@.dom().contains(k) {
                            let j = choose|j: int|
                                0 <= j < self.entries@.len() && self.entries@[j].key@ == k;
                            assert(0 <= j < self.entries@.len() && self.entries@[j].key@ == k);
                            if j < i {
                                assert(before.entries@[j].key@ == k);
                            } else {
                                assert(before.entries@[j + 1].key@ == k);
                            }
                        }
                        if before@.remove(key@).dom().contains(k) {
                            let j = choose|j: int|
                                0 <= j < before.entries@.len() && before.entries@[j].key@ == k;
                            assert(0 <= j < before.entries@.len() && before.entries@[j].key@ == k);
                            if j < i {
                                assert(self.entries@[j].key@ == k);
                            } else {
                                assert(self.entries@[j - 1].key@ == k);
                            }
                        }
                    }
                    assert forall|k: K::V| self@.dom().contains(k) implies #[trigger] self@[k]
                        == before@.remove(key@)[k] by {
                        let j = choose|j: int|
                            0 <= j < self.entries@.len() && self.entries@[j].key@ == k;
                        assert(0 <= j < self.entries@.len() && self.entries@[j].key@ == k);
                        self.lemma_entry(j);
                        if j < i {
                            before.lemma_entry(j);
                        } else {
                            before.lemma_entry(j + 1);
                        }
                    }
                    assert(self@ =~= before@.remove(key@));
                }
            },
            None => {
                assert(self@ =~= before@.remove(key@));
            },
        }
    }

    /// A copy of the registry, to go back to when an operation fails midway.
    pub fn snapshot(&self) -> (r: Self)
        requires
            self.wf(),
        ensures
            r.wf(),
            r@ == self@,
    {
        let mut entries: Vec<Entry<K, V>> = Vec::new();
        let mut i: usize = 0;
        while i < self.entries.len()
            invariant
                i <= self.entries@.len(),
                entries@.len() == i,
                forall|j: int| 0 <= j < i ==> entries@[j] == self.entries@[j],
            decreases self.entries@.len() - i,
        {
            entries.push(Entry { key: self.entries[i].key, value: self.entries[i].value });
            i += 1;
        }
        assert(entries@ =~= self.entries@);
        Registry { entries }
    }
}

} // verus!
