//! A table: values under distinct text keys, with an order in which they are walked.

use vstd::prelude::*;

verus! {

/// Values under distinct keys. As a mathematical value a table is a map from key to value; `keys`
/// is the order of a walk over it.
#[verifier::reject_recursive_types(V)]
pub struct Table<V> {
    entries: Vec<(String, V)>,
}

impl<V: DeepView> View for Table<V> {
    type V = Map<Seq<char>, V::V>;

    closed spec fn view(&self) -> Map<Seq<char>, V::V> {
        Map::new(
            |k: Seq<char>| self.keys().contains(k),
            |k: Seq<char>| self.entries@[self.keys().index_of(k)].1.deep_view(),
        )
    }
}

impl<V: DeepView> DeepView for Table<V> {
    type V = Map<Seq<char>, V::V>;

    open spec fn deep_view(&self) -> Map<Seq<char>, V::V> {
        self@
    }
}

impl<V> Table<V> {
    /// The keys, in the order in which a walk over the table meets them.
    pub closed spec fn keys(&self) -> Seq<Seq<char>> {
        Seq::new(self.entries@.len(), |i: int| self.entries@[i].0@)
    }

    /// The value that a walk meets at place `i`.
    pub closed spec fn value(&self, i: int) -> V {
        self.entries@[i].1
    }

    /// No key occurs twice. Every table has this property.
    #[verifier::type_invariant]
    pub closed spec fn distinct(self) -> bool {
        self.keys().no_duplicates()
    }
}

/// Whether a walk meets the keys of `m`, each once.
pub open spec fn walks<A>(keys: Seq<Seq<char>>, m: Map<Seq<char>, A>) -> bool {
    &&& keys.no_duplicates()
    &&& forall|k: Seq<char>| keys.contains(k) <==> #[trigger] m.contains_key(k)
    &&& m.dom().finite()
    &&& m.len() == keys.len()
}

impl<V: DeepView> Table<V> {
    /// A walk over a table meets each of its keys once.
    pub proof fn walk_meets_keys(&self)
        requires
            self.distinct(),
        ensures
            walks(self.keys(), self@),
    {
        assert(self@.dom() =~= self.keys().to_set());
        self.keys().unique_seq_to_set();
    }

    proof fn value_under_key(&self, i: int)
        requires
            self.distinct(),
            0 <= i < self.keys().len(),
        ensures
            self@.contains_key(self.keys()[i]),
            self@[self.keys()[i]] == self.entries@[i].1.deep_view(),
    {
        assert(self.keys().contains(self.keys()[i]));
        assert(self.keys().index_of(self.keys()[i]) == i);
    }

    /// The empty table.
    pub fn new() -> (t: Self)
        ensures
            t@ == Map::<Seq<char>, V::V>::empty(),
            t.keys() == Seq::<Seq<char>>::empty(),
    {
        let t = Table { entries: Vec::new() };
        assert(t.keys() =~= Seq::<Seq<char>>::empty());
        assert(t@ =~= Map::<Seq<char>, V::V>::empty());
        t
    }

    /// The number of keys.
    pub fn len(&self) -> (n: usize)
        ensures
            n == self@.len(),
            n == self.keys().len(),
            walks(self.keys(), self@),
    {
        proof {
            use_type_invariant(self);
            self.walk_meets_keys();
        }
        self.entries.len()
    }

    fn position(&self, key: &str) -> (r: Option<usize>)
        ensures
            r matches Some(i) ==> i < self.keys().len() && self.keys()[i as int] == key@,
            r is None ==> !self.keys().contains(key@),
    {
        for i in 0..self.entries.len()
            invariant
                forall|j: int| 0 <= j < i ==> self.keys()[j] != key@,
        {
            if *self.entries[i].0.as_str() == *key {
                return Some(i);
            }
        }
        None
    }

    /// Whether there is a value under `key`.
    pub fn contains_key(&self, key: &str) -> (b: bool)
        ensures
            b == self@.contains_key(key@),
    {
        match self.position(key) {
            Some(i) => {
                assert(self.keys().contains(self.keys()[i as int]));
                true
            },
            None => false,
        }
    }

    /// The value under `key`.
    pub fn get(&self, key: &str) -> (r: Option<&V>)
        ensures
            r is Some <==> self@.contains_key(key@),
            r matches Some(v) ==> v.deep_view() == self@[key@],
    {
        proof {
            use_type_invariant(self);
        }
        match self.position(key) {
            Some(i) => {
                proof {
                    self.value_under_key(i as int);
                }
                Some(&self.entries[i].1)
            },
            None => None,
        }
    }

    /// The key that a walk meets at place `i`.
    pub fn key_at(&self, i: usize) -> (k: &String)
        requires
            i < self.keys().len(),
        ensures
            k@ == self.keys()[i as int],
            self@.contains_key(k@),
    {
        proof {
            use_type_invariant(self);
            self.value_under_key(i as int);
        }
        &self.entries[i].0
    }

    /// The value that a walk meets at place `i`.
    pub fn value_at(&self, i: usize) -> (v: &V)
        requires
            i < self.keys().len(),
        ensures
            self@.contains_key(self.keys()[i as int]),
            v.deep_view() == self@[self.keys()[i as int]],
            *v == self.value(i as int),
    {
        proof {
            use_type_invariant(self);
            self.value_under_key(i as int);
        }
        &self.entries[i].1
    }

    /// Puts `value` under `key`, in place of what was there. A new key comes last in a walk.
    pub fn insert(&mut self, key: String, value: V)
        ensures
            final(self)@ == old(self)@.insert(key@, value.deep_view()),
            old(self)@.contains_key(key@) ==> final(self).keys() == old(self).keys(),
            !old(self)@.contains_key(key@) ==> final(self).keys() == old(self).keys().push(key@),
    {
        proof {
            use_type_invariant(&*self);
        }
        let place = self.position(key.as_str());
        let mut entries: Vec<(String, V)> = Vec::new();
        std::mem::swap(&mut entries, &mut self.entries);
        match place {
            Some(i) => {
                entries[i] = (key, value);
                assert(Seq::new(entries@.len(), |j: int| entries@[j].0@) =~= old(self).keys());
                self.entries = entries;
            },
            None => {
                entries.push((key, value));
                assert(Seq::new(entries@.len(), |j: int| entries@[j].0@) =~= old(self).keys().push(
                    key@,
                ));
                self.entries = entries;
                proof {
                    assert forall|k: Seq<char>| old(self).keys().contains(k) implies
                        self.keys().contains(k) && self.keys().index_of(k)
                        == old(self).keys().index_of(k) by {
                        let i = old(self).keys().index_of(k);
                        assert(self.keys()[i] == k);
                    }
                    assert(self.keys()[self.keys().len() - 1] == key@);
                    assert(self.keys().index_of(key@) == self.keys().len() - 1);
                }
            },
        }
        assert(self@ =~= old(self)@.insert(key@, value.deep_view()));
    }

    /// Takes the value under `key` out of the table.
    pub fn remove(&mut self, key: &str) -> (r: Option<V>)
        ensures
            final(self)@ == old(self)@.remove(key@),
            r is Some <==> old(self)@.contains_key(key@),
            r matches Some(v) ==> v.deep_view() == old(self)@[key@],
    {
        proof {
            use_type_invariant(&*self);
        }
        match self.position(key) {
            Some(i) => {
                proof {
                    self.value_under_key(i as int);
                }
                let mut entries: Vec<(String, V)> = Vec::new();
                std::mem::swap(&mut entries, &mut self.entries);
                let (_, value) = entries.remove(i);
                let ghost before = old(self).keys();
                let ghost after = Seq::new(entries@.len(), |j: int| entries@[j].0@);
                assert(after =~= before.remove(i as int));
                self.entries = entries;
                proof {
                    assert(self.keys() == after);
                    assert forall|k: Seq<char>| before.contains(k) && k != key@ implies
                        after.contains(k) && self.entries@[after.index_of(k)] == old(
                        self,
                    ).entries@[before.index_of(k)] by {
                        let j = before.index_of(k);
                        if j < i {
                            assert(after[j] == k);
                        } else {
                            assert(after[j - 1] == k);
                        }
                    }
                    assert forall|k: Seq<char>| after.contains(k) implies before.contains(k) && k
                        != key@ by {
                        let j = after.index_of(k);
                        if j < i {
                            assert(before[j] == k);
                        } else {
                            assert(before[j + 1] == k);
                        }
                    }
                    assert(self@ =~= old(self)@.remove(key@));
                }
                Some(value)
            },
            None => {
                assert(self@ =~= old(self)@.remove(key@));
                None
            },
        }
    }
}

}
