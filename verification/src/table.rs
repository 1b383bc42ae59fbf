//! A small keyed table: text keys, each held at most once, in insertion order.
//!
//! Every piece of shared state in the fleet (presence leases, camera rosters,
//! entity stores, client registries) is such a table. Its value is the pair of
//! sequences `keys()` and `values()`; `view()` reads them as a map.
use vstd::prelude::*;

verus! {

/// Table from text keys to values of type `V`.
pub struct Table<V> {
    keys: Vec<String>,
    vals: Vec<V>,
}

impl<V> Table<V> {
    /// The keys, in insertion order.
    pub closed spec fn keys(&self) -> Seq<Seq<char>> {
        Seq::new(self.keys@.len(), |i: int| self.keys@[i]@)
    }

    /// The values, each at the index of its key.
    pub closed spec fn values(&self) -> Seq<V> {
        self.vals@
    }

    /// Every key has one value and occurs once.
    pub open spec fn wf(&self) -> bool {
        &&& self.keys().len() == self.values().len()
        &&& self.keys().no_duplicates()
    }

    /// The table read as a map.
    pub open spec fn view(&self) -> Map<Seq<char>, V> {
        Map::new(
            |k: Seq<char>| self.keys().contains(k),
            |k: Seq<char>| self.values()[self.keys().index_of(k)],
        )
    }

    /// The key at index `i` maps to the value at index `i`.
    pub proof fn lemma_entry(&self, i: int)
        requires
            self.wf(),
            0 <= i < self.keys().len(),
        ensures
            self@.contains_key(self.keys()[i]),
            self.keys().index_of(self.keys()[i]) == i,
            self@[self.keys()[i]] == self.values()[i],
    {
        let k = self.keys()[i];
        assert(self.keys().contains(k));
        let j = self.keys().index_of(k);
        assert(0 <= j < self.keys().len() && self.keys()[j] == k);
    }

    /// An empty table.
    pub fn new() -> (r: Self)
        ensures
            r.wf(),
            r.keys() == Seq::<Seq<char>>::empty(),
            r.values() == Seq::<V>::empty(),
            r@ == Map::<Seq<char>, V>::empty(),
    {
        let r = Table { keys: Vec::new(), vals: Vec::new() };
        assert(r.keys() =~= Seq::<Seq<char>>::empty());
        assert(r@ =~= Map::<Seq<char>, V>::empty());
        r
    }

    /// Number of entries.
    pub fn len(&self) -> (n: usize)
        requires
            self.wf(),
        ensures
            n == self.keys().len(),
    {
        self.keys.len()
    }

    /// Index of `key`, if the table holds it.
    pub fn position(&self, key: &String) -> (r: Option<usize>)
        requires
            self.wf(),
        ensures
            match r {
                Some(i) => i < self.keys().len() && self.keys()[i as int] == key@,
                None => !self.keys().contains(key@),
            },
    {
        let mut i: usize = 0;
        while i < self.keys.len()
            invariant
                i <= self.keys.len(),
                forall|j: int| 0 <= j < i ==> self.keys()[j] != key@,
            decreases self.keys.len() - i,
        {
            if self.keys[i] == *key {
                return Some(i);
            }
            i += 1;
        }
        None
    }

    /// Whether the table holds `key`.
    pub fn contains(&self, key: &String) -> (r: bool)
        requires
            self.wf(),
        ensures
            r == self@.contains_key(key@),
    {
        self.position(key).is_some()
    }

    /// The value under `key`, if any.
    pub fn get(&self, key: &String) -> (r: Option<&V>)
        requires
            self.wf(),
        ensures
            match r {
                Some(v) => self@.contains_key(key@) && *v == self@[key@],
                None => !self@.contains_key(key@),
            },
    {
        match self.position(key) {
            Some(i) => {
                proof {
                    self.lemma_entry(i as int);
                }
                Some(&self.vals[i])
            },
            None => None,
        }
    }

    /// The key at index `i`.
    pub fn key_at(&self, i: usize) -> (r: &String)
        requires
            self.wf(),
            i < self.keys().len(),
        ensures
            r@ == self.keys()[i as int],
    {
        &self.keys[i]
    }

    /// The value at index `i`.
    pub fn value_at(&self, i: usize) -> (r: &V)
        requires
            self.wf(),
            i < self.keys().len(),
        ensures
            *r == self.values()[i as int],
    {
        &self.vals[i]
    }

    /// Replaces the value at index `i`, keeping its key.
    pub fn set_value_at(&mut self, i: usize, value: V)
        requires
            old(self).wf(),
            i < old(self).keys().len(),
        ensures
            final(self).wf(),
            final(self).keys() == old(self).keys(),
            final(self).values() == old(self).values().update(i as int, value),
            final(self)@ == old(self)@.insert(old(self).keys()[i as int], value),
    {
        let ghost before = *self;
        self.vals.set(i, value);
        assert(self.keys() =~= before.keys());
        proof {
            let k = before.keys()[i as int];
            before.lemma_entry(i as int);
            assert forall|q: Seq<char>| #[trigger] self@.contains_key(q) implies self@[q]
                == before@.insert(k, value)[q] by {
                let j = self.keys().index_of(q);
                assert(0 <= j < self.keys().len() && self.keys()[j] == q);
            }
            assert(self@ =~= before@.insert(k, value));
        }
    }

    /// Puts `value` at index `i` and hands back the value that stood there.
    /// The key stays.
    pub fn swap_value_at(&mut self, i: usize, value: V) -> (r: V)
        requires
            old(self).wf(),
            i < old(self).keys().len(),
        ensures
            final(self).wf(),
            r == old(self).values()[i as int],
            final(self).keys() == old(self).keys(),
            final(self).values() == old(self).values().update(i as int, value),
    {
        let ghost before = *self;
        let r = self.vals.remove(i);
        self.vals.insert(i, value);
        assert(self.keys() =~= before.keys());
        assert(self.values() =~= before.values().update(i as int, value));
        r
    }

    /// Sets the value under `key`, adding the key at the end if it is new.
    pub fn insert(&mut self, key: String, value: V)
        requires
            old(self).wf(),
        ensures
            final(self).wf(),
            final(self)@ == old(self)@.insert(key@, value),
            old(self)@.contains_key(key@) ==> final(self).keys() == old(self).keys()
                && final(self).values() == old(self).values().update(
                old(self).keys().index_of(key@),
                value,
            ),
            !old(self)@.contains_key(key@) ==> final(self).keys() == old(self).keys().push(key@)
                && final(self).values() == old(self).values().push(value),
    {
        let ghost before = *self;
        match self.position(&key) {
            Some(i) => {
                proof {
                    before.lemma_entry(i as int);
                }
                self.set_value_at(i, value);
            },
            None => {
                self.keys.push(key);
                self.vals.push(value);
                assert(self.keys() =~= before.keys().push(key@));
                proof {
                    let n = before.keys().len() as int;
                    assert(self.keys()[n] == key@);
                    assert forall|q: Seq<char>| #[trigger]
                        before@.insert(key@, value).contains_key(q) implies self@.contains_key(
                        q,
                    ) by {
                        if q != key@ {
                            let j = before.keys().index_of(q);
                            assert(self.keys()[j] == q);
                        }
                    }
                    assert forall|q: Seq<char>| #[trigger] self@.contains_key(q) implies before@.insert(
                        key@,
                        value,
                    ).contains_key(q) && self@[q] == before@.insert(key@, value)[q] by {
                        let j = self.keys().index_of(q);
                        assert(0 <= j < self.keys().len() && self.keys()[j] == q);
                        if j < n {
                            assert(before.keys()[j] == q);
                            before.lemma_entry(j);
                        }
                    }
                    assert(self@ =~= before@.insert(key@, value));
                }
            },
        }
    }

    /// Removes the entry at index `i` and hands its value back. The entries
    /// behind it move up by one.
    pub fn remove_at(&mut self, i: usize) -> (r: V)
        requires
            old(self).wf(),
            i < old(self).keys().len(),
        ensures
            final(self).wf(),
            r == old(self).values()[i as int],
            final(self).keys() == old(self).keys().remove(i as int),
            final(self).values() == old(self).values().remove(i as int),
            final(self)@ == old(self)@.remove(old(self).keys()[i as int]),
    {
        let ghost before = *self;
        let _ = self.keys.remove(i);
        let r = self.vals.remove(i);
        assert(self.keys() =~= before.keys().remove(i as int));
        proof {
            let k = before.keys()[i as int];
            before.lemma_entry(i as int);
            assert forall|q: Seq<char>| #[trigger] before@.remove(k).contains_key(q) implies self@.contains_key(
                q,
            ) by {
                let j = before.keys().index_of(q);
                assert(0 <= j < before.keys().len() && before.keys()[j] == q);
                if j < i {
                    assert(self.keys()[j] == q);
                } else {
                    assert(self.keys()[j - 1] == q);
                }
            }
            assert forall|q: Seq<char>| #[trigger] self@.contains_key(q) implies before@.remove(
                k,
            ).contains_key(q) && self@[q] == before@.remove(k)[q] by {
                let j = self.keys().index_of(q);
                assert(0 <= j < self.keys().len() && self.keys()[j] == q);
                if j < i {
                    assert(before.keys()[j] == q);
                    before.lemma_entry(j);
                } else {
                    assert(before.keys()[j + 1] == q);
                    before.lemma_entry(j + 1);
                }
            }
            assert(self@ =~= before@.remove(k));
        }
        r
    }

    /// Removes `key` and hands its value back, if the table held it.
    pub fn remove(&mut self, key: &String) -> (r: Option<V>)
        requires
            old(self).wf(),
        ensures
            final(self).wf(),
            final(self)@ == old(self)@.remove(key@),
            match r {
                Some(v) => old(self)@.contains_key(key@) && v == old(self)@[key@]
                    && final(self).keys() == old(self).keys().remove(
                    old(self).keys().index_of(key@),
                ) && final(self).values() == old(self).values().remove(
                    old(self).keys().index_of(key@),
                ),
                None => !old(self)@.contains_key(key@) && final(self).keys() == old(self).keys()
                    && final(self).values() == old(self).values(),
            },
    {
        match self.position(key) {
            Some(i) => {
                proof {
                    self.lemma_entry(i as int);
                }
                Some(self.remove_at(i))
            },
            None => {
                assert(self@ =~= self@.remove(key@));
                None
            },
        }
    }

    /// Keeps the entries whose flag in `keep` is set and drops the others.
    /// The flags are read by position: `keep[i]` belongs to `keys()[i]`.
    /// The entries kept stay in their order.
    pub fn retain(&mut self, keep: &Vec<bool>)
        requires
            old(self).wf(),
            keep@.len() == old(self).keys().len(),
        ensures
            final(self).wf(),
            forall|k: Seq<char>| #[trigger]
                final(self)@.contains_key(k) <==> old(self)@.contains_key(k) && keep@[old(
                    self,
                ).keys().index_of(k)],
            forall|k: Seq<char>| #[trigger]
                final(self)@.contains_key(k) ==> final(self)@[k] == old(self)@[k],
    {
        let ghost before = *self;
        let mut i: usize = self.keys.len();
        while i > 0
            invariant
                before.wf(),
                self.wf(),
                keep@.len() == before.keys().len(),
                i <= self.keys().len(),
                i <= before.keys().len(),
                self.keys().take(i as int) == before.keys().take(i as int),
                forall|k: Seq<char>| #[trigger]
                    self@.contains_key(k) <==> before@.contains_key(k) && (before.keys().index_of(k)
                        < i || keep@[before.keys().index_of(k)]),
                forall|k: Seq<char>| #[trigger] self@.contains_key(k) ==> self@[k] == before@[k],
            decreases i,
        {
            let j = i - 1;
            let ghost prev = *self;
            proof {
                assert(self.keys().take(i as int)[j as int] == before.keys().take(i as int)[j as int]);
                before.lemma_entry(j as int);
            }
            if !keep[j] {
                let _ = self.remove_at(j);
                proof {
                    let kj = before.keys()[j as int];
                    assert(self.keys().take(j as int) =~= prev.keys().take(i as int).take(j as int));
                    assert(before.keys().take(j as int) =~= before.keys().take(i as int).take(
                        j as int,
                    ));
                    assert forall|k: Seq<char>| #[trigger] self@.contains_key(k) implies before@.contains_key(k)
                        && (before.keys().index_of(k) < j || keep@[before.keys().index_of(k)]) by {
                        assert(prev@.contains_key(k));
                        let t = before.keys().index_of(k);
                        assert(0 <= t < before.keys().len() && before.keys()[t] == k);
                    }
                    assert forall|k: Seq<char>|
                        before@.contains_key(k) && (before.keys().index_of(k) < j || keep@[before.keys().index_of(
                            k,
                        )]) implies #[trigger] self@.contains_key(k) by {
                        let t = before.keys().index_of(k);
                        assert(0 <= t < before.keys().len() && before.keys()[t] == k);
                        assert(prev@.contains_key(k));
                    }
                }
            } else {
                proof {
                    assert(self.keys().take(j as int) =~= self.keys().take(i as int).take(j as int));
                    assert(before.keys().take(j as int) =~= before.keys().take(i as int).take(
                        j as int,
                    ));
                    assert forall|k: Seq<char>| #[trigger] self@.contains_key(k) implies before@.contains_key(k)
                        && (before.keys().index_of(k) < j || keep@[before.keys().index_of(k)]) by {
                        let t = before.keys().index_of(k);
                        assert(0 <= t < before.keys().len() && before.keys()[t] == k);
                    }
                }
            }
            i = j;
        }
    }
}

} // verus!
