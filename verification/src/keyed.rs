//! A table of values keyed by text, each key present at most once: the
//! registries of agents and sessions.
use vstd::prelude::*;

verus! {

/// Values stored under distinct text keys, in insertion order.
pub struct KeyedVec<V> {
    entries: Vec<(String, V)>,
}

/// Some position of `k` among `keys`.
pub open spec fn position_of(keys: Seq<Seq<char>>, k: Seq<char>) -> int {
    choose|i: int| 0 <= i < keys.len() && keys[i] == k
}

impl<V> KeyedVec<V> {
    /// The keys, in storage order.
    pub closed spec fn keys(&self) -> Seq<Seq<char>> {
        self.entries@.map_values(|e: (String, V)| e.0@)
    }

    /// The values, in storage order.
    pub closed spec fn values(&self) -> Seq<V> {
        self.entries@.map_values(|e: (String, V)| e.1)
    }

    /// No key is stored twice.
    pub closed spec fn wf(&self) -> bool {
        self.keys().no_duplicates()
    }

    /// The table as a map from key text to value.
    pub open spec fn view(&self) -> Map<Seq<char>, V> {
        Map::new(
            |k: Seq<char>| self.keys().contains(k),
            |k: Seq<char>| self.values()[position_of(self.keys(), k)],
        )
    }

    /// How storage order and the map view relate.
    pub proof fn lemma_layout(&self)
        requires
            self.wf(),
        ensures
            self.keys().len() == self.values().len(),
            self.keys().no_duplicates(),
            forall|i: int|
                0 <= i < self.keys().len() ==> #[trigger] self@.contains_key(self.keys()[i])
                    && self@[self.keys()[i]] == self.values()[i],
            forall|k: Seq<char>| #[trigger]
                self@.contains_key(k) ==> exists|i: int|
                    0 <= i < self.keys().len() && self.keys()[i] == k,
            self@.dom().finite(),
            self@.dom().len() == self.keys().len(),
    {
        let keys = self.keys();
        assert forall|i: int| 0 <= i < keys.len() implies #[trigger] self@.contains_key(keys[i])
            && self@[keys[i]] == self.values()[i] by {
            assert(keys.contains(keys[i]));
            let j = position_of(keys, keys[i]);
            assert(0 <= j < keys.len() && keys[j] == keys[i]);
        }
        assert(self@.dom() =~= keys.to_set());
        keys.unique_seq_to_set();
    }

    /// An empty table.
    pub fn new() -> (t: Self)
        ensures
            t.wf(),
            t@ == Map::<Seq<char>, V>::empty(),
            t.keys().len() == 0,
    {
        let t = KeyedVec { entries: Vec::new() };
        assert(t@ =~= Map::<Seq<char>, V>::empty());
        t
    }

    /// Number of keys.
    pub fn len(&self) -> (n: usize)
        requires
            self.wf(),
        ensures
            n == self@.dom().len(),
            n == self.keys().len(),
    {
        proof {
            self.lemma_layout();
        }
        self.entries.len()
    }

    /// The position of `key`, if it is stored.
    pub fn position(&self, key: &String) -> (r: Option<usize>)
        requires
            self.wf(),
        ensures
            r matches Some(i) ==> i < self.keys().len() && self.keys()[i as int] == key@
                && self@.contains_key(key@) && self@[key@] == self.values()[i as int],
            r is None ==> !self@.contains_key(key@),
    {
        proof {
            self.lemma_layout();
        }
        let mut i: usize = 0;
        while i < self.entries.len()
            invariant
                i <= self.entries.len(),
                self.wf(),
                forall|j: int| 0 <= j < i ==> self.keys()[j] != key@,
            decreases self.entries.len() - i,
        {
            if self.entries[i].0 == *key {
                return Some(i);
            }
            i = i + 1;
        }
        proof {
            if self@.contains_key(key@) {
                let j = choose|j: int| 0 <= j < self.keys().len() && self.keys()[j] == key@;
                assert(self.keys()[j] != key@);
            }
        }
        None
    }

    /// Whether `key` is stored.
    pub fn contains_key(&self, key: &String) -> (b: bool)
        requires
            self.wf(),
        ensures
            b == self@.contains_key(key@),
    {
        self.position(key).is_some()
    }

    /// The value stored under `key`.
    pub fn get(&self, key: &String) -> (r: Option<&V>)
        requires
            self.wf(),
        ensures
            r matches Some(v) ==> self@.contains_key(key@) && *v == self@[key@],
            r is None ==> !self@.contains_key(key@),
    {
        match self.position(key) {
            Some(i) => Some(&self.entries[i].1),
            None => None,
        }
    }

    /// The key at position `i`.
    pub fn key_at(&self, i: usize) -> (k: &String)
        requires
            self.wf(),
            i < self.keys().len(),
        ensures
            k@ == self.keys()[i as int],
    {
        &self.entries[i].0
    }

    /// The value at position `i`.
    pub fn value_at(&self, i: usize) -> (v: &V)
        requires
            self.wf(),
            i < self.keys().len(),
        ensures
            *v == self.values()[i as int],
            *v == self@[self.keys()[i as int]],
    {
        proof {
            self.lemma_layout();
        }
        &self.entries[i].1
    }

    /// Replaces the value at position `i`, keeping its key and position.
    pub fn set_value_at(&mut self, i: usize, value: V)
        requires
            old(self).wf(),
            i < old(self).keys().len(),
        ensures
            final(self).wf(),
            final(self).keys() == old(self).keys(),
            final(self).values() == old(self).values().update(i as int, value),
            final(self)@ == old(self)@.insert(old(self).keys()[i as int], value),
    {
        let ghost old_keys = self.keys();
        let ghost old_values = self.values();
        let (k, _old_v) = self.entries.remove(i);
        self.entries.insert(i, (k, value));
        proof {
            assert(self.keys() =~= old_keys);
            assert(self.values() =~= old_values.update(i as int, value));
            self.lemma_layout();
            assert(self@ =~= old(self)@.insert(old_keys[i as int], value)) by {
                old(self).lemma_layout();
                assert forall|k: Seq<char>| #[trigger] self@.contains_key(k) == old(
                    self,
                )@.insert(old_keys[i as int], value).contains_key(k) by {
                    if self@.contains_key(k) {
                        let j = choose|j: int| 0 <= j < self.keys().len() && self.keys()[j] == k;
                        assert(old_keys[j] == k);
                    } else if old(self)@.contains_key(k) {
                        let j = choose|j: int| 0 <= j < old_keys.len() && old_keys[j] == k;
                        assert(self.keys()[j] == k);
                    }
                }
                assert forall|k: Seq<char>| #[trigger] self@.contains_key(k) implies self@[k]
                    == old(self)@.insert(old_keys[i as int], value)[k] by {
                    let j = choose|j: int| 0 <= j < self.keys().len() && self.keys()[j] == k;
                    if j != i {
                        assert(old_keys[j] == k);
                        assert(old_keys[i as int] != k);
                    }
                }
            }
        }
    }

    /// Stores `value` under `key`, replacing what was stored there; tells
    /// whether `key` was stored before.
    pub fn insert(&mut self, key: String, value: V) -> (existed: bool)
        requires
            old(self).wf(),
        ensures
            final(self).wf(),
            existed == old(self)@.contains_key(key@),
            final(self)@ == old(self)@.insert(key@, value),
    {
        match self.position(&key) {
            Some(i) => {
                self.set_value_at(i, value);
                true
            },
            None => {
                let ghost old_keys = self.keys();
                let ghost kv = key@;
                self.entries.push((key, value));
                proof {
                    assert(self.keys() =~= old_keys.push(kv));
                    assert(!old_keys.contains(kv));
                    assert(self.keys().no_duplicates()) by {
                        assert forall|a: int, b: int|
                            0 <= a < self.keys().len() && 0 <= b < self.keys().len() && a != b
                            implies self.keys()[a] != self.keys()[b] by {
                            if a == old_keys.len() {
                                assert(old_keys.contains(self.keys()[b]) || b == a);
                            } else if b == old_keys.len() {
                                assert(old_keys.contains(self.keys()[a]));
                            }
                        }
                    }
                    self.lemma_layout();
                    old(self).lemma_layout();
                    assert(self@ =~= old(self)@.insert(kv, value)) by {
                        assert forall|k: Seq<char>| #[trigger] self@.contains_key(k) == old(
                            self,
                        )@.insert(kv, value).contains_key(k) by {
                            if k == kv {
                                assert(self.keys()[old_keys.len() as int] == kv);
                            } else if self@.contains_key(k) {
                                let j = choose|j: int|
                                    0 <= j < self.keys().len() && self.keys()[j] == k;
                                if j < old_keys.len() {
                                    assert(old_keys[j] == k);
                                }
                            } else if old(self)@.contains_key(k) {
                                let j = choose|j: int| 0 <= j < old_keys.len() && old_keys[j] == k;
                                assert(self.keys()[j] == k);
                            }
                        }
                        assert forall|k: Seq<char>| #[trigger] self@.contains_key(k) implies self@[k]
                            == old(self)@.insert(kv, value)[k] by {
                            let j = choose|j: int|
                                0 <= j < self.keys().len() && self.keys()[j] == k;
                            if j < old_keys.len() {
                                assert(old_keys[j] == k);
                                assert(self.values()[j] == old(self).values()[j]);
                            }
                        }
                    }
                }
                false
            },
        }
    }

    /// Takes out the value stored under `key`.
    pub fn remove(&mut self, key: &String) -> (r: Option<V>)
        requires
            old(self).wf(),
        ensures
            final(self).wf(),
            final(self)@ == old(self)@.remove(key@),
            r matches Some(v) ==> old(self)@.contains_key(key@) && v == old(self)@[key@],
            r is None ==> !old(self)@.contains_key(key@),
    {
        match self.position(key) {
            Some(i) => {
                let ghost old_keys = self.keys();
                let ghost old_values = self.values();
                let (_k, v) = self.entries.remove(i);
                proof {
                    assert(self.keys() =~= old_keys.remove(i as int));
                    assert(self.values() =~= old_values.remove(i as int));
                    assert(self.keys().no_duplicates()) by {
                        assert forall|a: int, b: int|
                            0 <= a < self.keys().len() && 0 <= b < self.keys().len() && a != b
                            implies self.keys()[a] != self.keys()[b] by {
                            let oa = if a < i { a } else { a + 1 };
                            let ob = if b < i { b } else { b + 1 };
                            assert(self.keys()[a] == old_keys[oa]);
                            assert(self.keys()[b] == old_keys[ob]);
                        }
                    }
                    self.lemma_layout();
                    old(self).lemma_layout();
                    assert(self@ =~= old(self)@.remove(key@)) by {
                        assert forall|k: Seq<char>| #[trigger] self@.contains_key(k) == old(
                            self,
                        )@.remove(key@).contains_key(k) by {
                            if self@.contains_key(k) {
                                let j = choose|j: int|
                                    0 <= j < self.keys().len() && self.keys()[j] == k;
                                let oj = if j < i { j } else { j + 1 };
                                assert(old_keys[oj] == k);
                                assert(oj != i);
                            } else if old(self)@.contains_key(k) && k != key@ {
                                let j = choose|j: int| 0 <= j < old_keys.len() && old_keys[j] == k;
                                assert(j != i);
                                let nj = if j < i { j } else { j - 1 };
                                assert(self.keys()[nj] == k);
                            }
                        }
                        assert forall|k: Seq<char>| #[trigger] self@.contains_key(k) implies self@[k]
                            == old(self)@.remove(key@)[k] by {
                            let j = choose|j: int|
                                0 <= j < self.keys().len() && self.keys()[j] == k;
                            let oj = if j < i { j } else { j + 1 };
                            assert(old_keys[oj] == k);
                            assert(self.values()[j] == old_values[oj]);
                        }
                    }
                }
                Some(v)
            },
            None => {
                assert(old(self)@.remove(key@) =~= old(self)@);
                None
            },
        }
    }
}

} // verus!
