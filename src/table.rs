use vstd::prelude::*;

verus! {

/// A sequence without repeats holds each of its elements at one index only.
pub proof fn lemma_index_of_unique<A>(s: Seq<A>, i: int)
    requires
        s.no_duplicates(),
        0 <= i < s.len(),
    ensures
        s.index_of(s[i]) == i,
{
    let j = s.index_of(s[i]);
    assert(s.contains(s[i]));
}

/// A table keyed by strings, each key at most once, in insertion order.
pub struct Table<V> {
    entries: Vec<(String, V)>,
}

impl<V> Table<V> {
    /// The keys, in the order in which they were first inserted.
    pub closed spec fn keys(&self) -> Seq<Seq<char>> {
        self.entries@.map_values(|e: (String, V)| e.0@)
    }

    /// The values, at the same positions as their keys.
    pub closed spec fn values(&self) -> Seq<V> {
        self.entries@.map_values(|e: (String, V)| e.1)
    }

    /// The contents, as a map from key to value.
    pub open spec fn view(&self) -> Map<Seq<char>, V> {
        Map::new(|k: Seq<char>| self.keys().contains(k), |k: Seq<char>| self.values()[self.keys().index_of(k)])
    }

    /// Well-formedness: no key is held twice.
    pub closed spec fn wf(&self) -> bool {
        self.keys().no_duplicates()
    }

    /// The key at position `i` maps to the value at position `i`.
    pub proof fn lemma_position(&self, i: int)
        requires
            self.wf(),
            0 <= i < self.keys().len(),
        ensures
            self.keys().len() == self.values().len(),
            self@.contains_key(self.keys()[i]),
            self@[self.keys()[i]] == self.values()[i],
            forall|j: int| 0 <= j < self.keys().len() && j != i ==> self.keys()[j] != self.keys()[i],
    {
        lemma_index_of_unique(self.keys(), i);
    }

    /// Every key of the map stands at some position.
    pub proof fn lemma_keys(&self)
        requires
            self.wf(),
        ensures
            self.keys().len() == self.values().len(),
            self.keys().no_duplicates(),
            self@.dom() == self.keys().to_set(),
    {
        assert(self@.dom() =~= self.keys().to_set());
    }

    pub fn new() -> (r: Self)
        ensures
            r.wf(),
            r@ == Map::<Seq<char>, V>::empty(),
            r.keys() == Seq::<Seq<char>>::empty(),
    {
        let r = Table { entries: Vec::new() };
        assert(r@ =~= Map::<Seq<char>, V>::empty());
        assert(r.keys() =~= Seq::<Seq<char>>::empty());
        r
    }

    pub fn len(&self) -> (r: usize)
        ensures
            r == self.keys().len(),
            r == self.values().len(),
    {
        self.entries.len()
    }

    /// The position of `key`, if the table holds it.
    pub fn position(&self, key: &String) -> (r: Option<usize>)
        requires
            self.wf(),
        ensures
            r matches Some(i) ==> i < self.keys().len() && self.keys()[i as int] == key@,
            r is None ==> !self@.contains_key(key@),
    {
        let mut i: usize = 0;
        while i < self.entries.len()
            invariant
                0 <= i <= self.entries.len(),
                forall|j: int| 0 <= j < i ==> self.keys()[j] != key@,
            decreases self.entries.len() - i,
        {
            if self.entries[i].0 == *key {
                return Some(i);
            }
            i = i + 1;
        }
        proof {
            if self.keys().contains(key@) {
                let j = choose|j: int| 0 <= j < self.keys().len() && self.keys()[j] == key@;
            }
        }
        None
    }

    pub fn contains_key(&self, key: &String) -> (r: bool)
        requires
            self.wf(),
        ensures
            r == self@.contains_key(key@),
    {
        match self.position(key) {
            Some(i) => {
                proof {
                    self.lemma_position(i as int);
                }
                true
            },
            None => false,
        }
    }

    pub fn get(&self, key: &String) -> (r: Option<&V>)
        requires
            self.wf(),
        ensures
            r matches Some(v) ==> self@.contains_key(key@) && *v == self@[key@],
            r is None ==> !self@.contains_key(key@),
    {
        match self.position(key) {
            Some(i) => {
                proof {
                    self.lemma_position(i as int);
                }
                Some(&self.entries[i].1)
            },
            None => None,
        }
    }

    /// The key and the value at position `i`.
    pub fn entry(&self, i: usize) -> (r: (&String, &V))
        requires
            self.wf(),
            i < self.keys().len(),
        ensures
            r.0@ == self.keys()[i as int],
            *r.1 == self.values()[i as int],
            *r.1 == self@[self.keys()[i as int]],
    {
        proof {
            self.lemma_position(i as int);
        }
        let e = &self.entries[i];
        (&e.0, &e.1)
    }

    /// Sets the value of `key`; a new key goes last, a present one keeps its
    /// position.
    pub fn insert(&mut self, key: String, value: V)
        requires
            old(self).wf(),
        ensures
            final(self).wf(),
            final(self)@ == old(self)@.insert(key@, value),
            old(self).keys().contains(key@) ==> final(self).keys() == old(self).keys(),
            !old(self).keys().contains(key@) ==> final(self).keys() == old(self).keys().push(key@),
    {
        let ghost old_keys = self.keys();
        let ghost old_values = self.values();
        let ghost old_map = self@;
        match self.position(&key) {
            Some(i) => {
                let ghost k = key@;
                self.entries.set(i, (key, value));
                assert(self.keys() =~= old_keys);
                assert(self.values() =~= old_values.update(i as int, value));
                proof {
                    lemma_index_of_unique(old_keys, i as int);
                    assert forall|k2: Seq<char>| #[trigger] old_keys.contains(k2) && k2 != k implies
                        old_keys.index_of(k2) != i as int by {}
                }
                assert(self@ =~= old_map.insert(k, value));
            },
            None => {
                let ghost k = key@;
                self.entries.push((key, value));
                assert(self.keys() =~= old_keys.push(k));
                assert(self.values() =~= old_values.push(value));
                proof {
                    assert(self.keys().no_duplicates()) by {
                        assert forall|a: int, b: int| 0 <= a < b < self.keys().len() implies self.keys()[a] != self.keys()[b] by {
                            if b == old_keys.len() {
                                assert(old_keys.contains(old_keys[a]));
                            }
                        }
                    }
                    lemma_index_of_unique(self.keys(), old_keys.len() as int);
                    assert forall|k2: Seq<char>| #[trigger] old_map.contains_key(k2) implies
                        self@.contains_key(k2) && self@[k2] == old_map[k2] by {
                        let j = old_keys.index_of(k2);
                        assert(old_keys.contains(k2));
                        assert(self.keys()[j] == k2);
                        lemma_index_of_unique(self.keys(), j);
                        assert(self.keys().contains(k2));
                    }
                    assert(self.keys()[old_keys.len() as int] == k);
                    assert(self.keys().contains(k));
                    assert(self@[k] == value);
                }
                assert(self@ =~= old_map.insert(k, value));
            },
        }
    }

    /// Takes `key` and its value out; the other keys keep their order.
    pub fn remove(&mut self, key: &String) -> (r: Option<V>)
        requires
            old(self).wf(),
        ensures
            final(self).wf(),
            final(self)@ == old(self)@.remove(key@),
            r matches Some(v) ==> old(self)@.contains_key(key@) && v == old(self)@[key@],
            r is None ==> !old(self)@.contains_key(key@) && final(self).keys() == old(self).keys(),
    {
        let ghost old_keys = self.keys();
        let ghost old_values = self.values();
        let ghost old_map = self@;
        match self.position(key) {
            Some(i) => {
                proof {
                    self.lemma_position(i as int);
                }
                let (_, v) = self.entries.remove(i);
                assert(self.keys() =~= old_keys.remove(i as int));
                assert(self.values() =~= old_values.remove(i as int));
                proof {
                    assert forall|k2: Seq<char>| #[trigger] self.keys().contains(k2) implies
                        old_keys.contains(k2) && k2 != key@ && self.values()[self.keys().index_of(k2)]
                            == old_values[old_keys.index_of(k2)] by {
                        let j = choose|j: int| 0 <= j < self.keys().len() && self.keys()[j] == k2;
                        lemma_index_of_unique(self.keys(), j);
                        if j < i {
                            lemma_index_of_unique(old_keys, j);
                        } else {
                            lemma_index_of_unique(old_keys, j + 1);
                        }
                    }
                    assert forall|k2: Seq<char>| #[trigger] old_keys.contains(k2) && k2 != key@ implies
                        self.keys().contains(k2) by {
                        let j = choose|j: int| 0 <= j < old_keys.len() && old_keys[j] == k2;
                        if j < i {
                            assert(self.keys()[j] == k2);
                        } else {
                            assert(self.keys()[j - 1] == k2);
                        }
                    }
                }
                assert(self@ =~= old_map.remove(key@));
                Some(v)
            },
            None => {
                assert(self@ =~= old_map.remove(key@));
                None
            },
        }
    }
}

} // verus!
