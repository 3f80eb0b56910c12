use vstd::prelude::*;

verus! {

/// A small table keyed by trading symbol (such as `ETHBTC`), in which each
/// symbol occurs at most once. Its view is the map from the symbol's
/// characters to the value last stored for it.
pub struct SymbolMap<V> {
    entries: Vec<(String, V)>,
}

impl<V> SymbolMap<V> {
    /// No symbol is stored twice.
    pub closed spec fn keys_unique(self) -> bool {
        forall|i: int, j: int|
            0 <= i < self.entries@.len() && 0 <= j < self.entries@.len() && i != j
                ==> self.entries@[i].0@ != self.entries@[j].0@
    }

    #[verifier::type_invariant]
    closed spec fn inv(self) -> bool {
        self.keys_unique()
    }

    closed spec fn has_key(self, k: Seq<char>) -> bool {
        exists|i: int| 0 <= i < self.entries@.len() && self.entries@[i].0@ == k
    }

    closed spec fn index_of(self, k: Seq<char>) -> int {
        choose|i: int| 0 <= i < self.entries@.len() && self.entries@[i].0@ == k
    }

    /// The entry at position `i` is what the view holds for its symbol.
    proof fn lemma_entry_in_view(self, i: int)
        requires
            self.keys_unique(),
            0 <= i < self.entries@.len(),
        ensures
            self@.contains_key(self.entries@[i].0@),
            self@[self.entries@[i].0@] == self.entries@[i].1,
    {
        let k = self.entries@[i].0@;
        assert(self.has_key(k));
        let j = self.index_of(k);
        assert(self.entries@[j].0@ == k);
        assert(j == i);
    }

    /// Creates an empty table.
    pub fn new() -> (m: Self)
        ensures
            m@ == Map::<Seq<char>, V>::empty(),
    {
        let m = SymbolMap { entries: Vec::new() };
        assert(m@ =~= Map::<Seq<char>, V>::empty());
        m
    }

    /// Position of `key` among the entries, if it is stored.
    fn find(&self, key: &String) -> (r: Option<usize>)
        ensures
            match r {
                Some(i) => i < self.entries@.len() && self.entries@[i as int].0@ == key@,
                None => !self.has_key(key@),
            },
    {
        let mut i: usize = 0;
        while i < self.entries.len()
            invariant
                i <= self.entries@.len(),
                forall|j: int| 0 <= j < i ==> self.entries@[j].0@ != key@,
            decreases self.entries@.len() - i,
        {
            if self.entries[i].0 == *key {
                return Some(i);
            }
            i = i + 1;
        }
        None
    }

    /// The value stored for `key`, if any.
    pub fn get(&self, key: &String) -> (r: Option<&V>)
        ensures
            r is Some <==> self@.contains_key(key@),
            r matches Some(v) ==> *v == self@[key@],
    {
        proof {
            use_type_invariant(self);
        }
        match self.find(key) {
            Some(i) => {
                proof {
                    self.lemma_entry_in_view(i as int);
                }
                Some(&self.entries[i].1)
            },
            None => None,
        }
    }

    /// Stores `value` for `key`, replacing what was stored for it before.
    pub fn insert(&mut self, key: String, value: V)
        ensures
            final(self)@ == old(self)@.insert(key@, value),
    {
        proof {
            use_type_invariant(&*self);
        }
        let ghost k = key@;
        let ghost before = *self;
        match self.find(&key) {
            Some(i) => {
                let ghost old_entries = self.entries@;
                let mut entries: Vec<(String, V)> = Vec::new();
                std::mem::swap(&mut entries, &mut self.entries);
                entries.set(i, (key, value));
                proof {
                    assert(forall|a: int, b: int| 0 <= a < entries@.len() && 0 <= b < entries@.len() && a != b
                        ==> #[trigger] entries@[a].0@ != #[trigger] entries@[b].0@);
                }
                self.entries = entries;
                proof {
                    let after = *self;
                    assert(after.entries@ == old_entries.update(i as int, (after.entries@[i as int].0, value)));
                    assert(after.keys_unique());
                    assert forall|q: Seq<char>| #[trigger] after@.contains_key(q) <==> before@.insert(k, value).contains_key(q) by {
                        if after.has_key(q) {
                            let j = after.index_of(q);
                            if j != i as int {
                                assert(before.entries@[j].0@ == q);
                            }
                        }
                        if before.has_key(q) {
                            let j = before.index_of(q);
                            assert(after.entries@[j].0@ == q);
                        }
                        if q == k {
                            assert(after.entries@[i as int].0@ == q);
                        }
                    }
                    assert forall|q: Seq<char>| #[trigger] after@.contains_key(q) implies after@[q] == before@.insert(k, value)[q] by {
                        if q == k {
                            after.lemma_entry_in_view(i as int);
                        } else {
                            let j = before.index_of(q);
                            assert(before.has_key(q));
                            assert(j != i as int);
                            before.lemma_entry_in_view(j);
                            after.lemma_entry_in_view(j);
                        }
                    }
                    assert(after@ =~= before@.insert(k, value));
                }
            },
            None => {
                let mut entries: Vec<(String, V)> = Vec::new();
                std::mem::swap(&mut entries, &mut self.entries);
                entries.push((key, value));
                proof {
                    let n = before.entries@.len() as int;
                    assert(entries@[n].0@ == k);
                    assert(forall|a: int, b: int| 0 <= a < entries@.len() && 0 <= b < entries@.len() && a != b
                        ==> #[trigger] entries@[a].0@ != #[trigger] entries@[b].0@);
                }
                self.entries = entries;
                proof {
                    let after = *self;
                    let n = before.entries@.len() as int;
                    assert(after.entries@[n].0@ == k);
                    assert(after.keys_unique());
                    assert forall|q: Seq<char>| #[trigger] after@.contains_key(q) <==> before@.insert(k, value).contains_key(q) by {
                        if after.has_key(q) {
                            let j = after.index_of(q);
                            if j != n {
                                assert(before.entries@[j].0@ == q);
                            }
                        }
                        if before.has_key(q) {
                            let j = before.index_of(q);
                            assert(after.entries@[j].0@ == q);
                        }
                    }
                    assert forall|q: Seq<char>| #[trigger] after@.contains_key(q) implies after@[q] == before@.insert(k, value)[q] by {
                        if q == k {
                            after.lemma_entry_in_view(n);
                        } else {
                            let j = before.index_of(q);
                            assert(before.has_key(q));
                            before.lemma_entry_in_view(j);
                            after.lemma_entry_in_view(j);
                        }
                    }
                    assert(after@ =~= before@.insert(k, value));
                }
            },
        }
    }
}

impl<V: Clone> Clone for SymbolMap<V> {
    /// A copy with the same symbols, each value copied by its own `clone`.
    fn clone(&self) -> (r: Self)
        ensures
            r@.dom() == self@.dom(),
            forall|k: Seq<char>| #[trigger] r@.contains_key(k) ==> cloned::<V>(self@[k], r@[k]),
    {
        proof {
            use_type_invariant(self);
        }
        let mut entries: Vec<(String, V)> = Vec::new();
        let mut i: usize = 0;
        while i < self.entries.len()
            invariant
                i <= self.entries@.len(),
                entries@.len() == i,
                forall|j: int| 0 <= j < i ==> #[trigger] entries@[j].0@ == self.entries@[j].0@,
                forall|j: int| 0 <= j < i ==> cloned::<V>(self.entries@[j].1, #[trigger] entries@[j].1),
                self.keys_unique(),
            decreases self.entries@.len() - i,
        {
            let key = self.entries[i].0.clone();
            let value = self.entries[i].1.clone();
            entries.push((key, value));
            i = i + 1;
        }
        proof {
            assert(forall|a: int, b: int| 0 <= a < entries@.len() && 0 <= b < entries@.len() && a != b
                ==> #[trigger] entries@[a].0@ != #[trigger] entries@[b].0@);
        }
        let r = SymbolMap { entries };
        proof {
            assert forall|k: Seq<char>| r.has_key(k) == self.has_key(k) by {
                if r.has_key(k) {
                    let j = r.index_of(k);
                    assert(self.entries@[j].0@ == k);
                }
                if self.has_key(k) {
                    let j = self.index_of(k);
                    assert(r.entries@[j].0@ == k);
                }
            }
            assert(r@.dom() =~= self@.dom());
            assert forall|k: Seq<char>| #[trigger] r@.contains_key(k) implies cloned::<V>(self@[k], r@[k]) by {
                let j = r.index_of(k);
                assert(r.has_key(k));
                r.lemma_entry_in_view(j);
                self.lemma_entry_in_view(j);
            }
        }
        r
    }
}

impl<V> View for SymbolMap<V> {
    type V = Map<Seq<char>, V>;

    closed spec fn view(&self) -> Map<Seq<char>, V> {
        Map::new(|k: Seq<char>| self.has_key(k), |k: Seq<char>| self.entries@[self.index_of(k)].1)
    }
}

} // verus!
