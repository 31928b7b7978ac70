//! A finite map keyed by strings, viewed as `Map<Seq<char>, V>`. Keys are unique; iteration
//! order is insertion order (callers never depend on it).

use crate::text::string_views;
use vstd::prelude::*;

verus! {

/// String-keyed map with value semantics.
#[derive(Debug, Clone, PartialEq, Eq)]
pub struct StrMap<V> {
    keys: Vec<String>,
    vals: Vec<V>,
}

impl<V> StrMap<V> {
    /// Well-formedness: parallel key/value vectors and unique keys.
    pub closed spec fn wf(&self) -> bool {
        &&& self.keys@.len() == self.vals@.len()
        &&& forall|i: int, j: int|
            0 <= i < self.keys@.len() && 0 <= j < self.keys@.len() && i != j ==> #[trigger] self.keys@[i]@
                != #[trigger] self.keys@[j]@
    }

    /// The keys, in iteration order.
    pub closed spec fn keys_view(&self) -> Seq<Seq<char>> {
        string_views(self.keys@)
    }

    /// The values, in iteration order.
    pub closed spec fn values_view(&self) -> Seq<V> {
        self.vals@
    }

    spec fn index_of_key(&self, k: Seq<char>) -> int {
        choose|i: int| 0 <= i < self.keys@.len() && self.keys@[i]@ == k
    }

    /// The map from each key to its value.
    pub closed spec fn view(&self) -> Map<Seq<char>, V> {
        Map::new(
            |k: Seq<char>| exists|i: int| 0 <= i < self.keys@.len() && self.keys@[i]@ == k,
            |k: Seq<char>| self.vals@[self.index_of_key(k)],
        )
    }

    proof fn lemma_index(&self, i: int)
        requires
            self.wf(),
            0 <= i < self.keys@.len(),
        ensures
            self.view().contains_key(self.keys@[i]@),
            self.index_of_key(self.keys@[i]@) == i,
            self.view()[self.keys@[i]@] == self.vals@[i],
    {
        let k = self.keys@[i]@;
        assert(self.view().contains_key(k));
        let j = self.index_of_key(k);
        assert(self.keys@[j]@ == k);
        if j != i {
            assert(self.keys@[i]@ != self.keys@[j]@);
        }
    }

    /// Facts linking the ordered keys/values to the map (available to callers through
    /// [`StrMap::len`]).
    spec fn linked(&self) -> bool {
        &&& self.keys_view().len() == self.values_view().len()
        &&& self.keys_view().no_duplicates()
        &&& forall|k: Seq<char>| #[trigger] self.view().contains_key(k) <==> self.keys_view().contains(k)
        &&& forall|i: int|
            0 <= i < self.keys_view().len() ==> #[trigger] self.view()[self.keys_view()[i]]
                == self.values_view()[i]
    }

    proof fn lemma_linked(&self)
        requires
            self.wf(),
        ensures
            self.linked(),
    {
        assert forall|i: int, j: int|
            0 <= i < self.keys_view().len() && 0 <= j < self.keys_view().len() && i != j implies self.keys_view()[i]
            != self.keys_view()[j] by {
            assert(self.keys@[i]@ != self.keys@[j]@);
        }
        assert forall|k: Seq<char>| #[trigger] self.view().contains_key(k) <==> self.keys_view().contains(k) by {
            if self.view().contains_key(k) {
                let i = choose|i: int| 0 <= i < self.keys@.len() && self.keys@[i]@ == k;
                assert(self.keys_view()[i] == k);
            }
            if self.keys_view().contains(k) {
                let i = choose|i: int| 0 <= i < self.keys_view().len() && self.keys_view()[i] == k;
                assert(self.keys@[i]@ == k);
            }
        }
        assert forall|i: int| 0 <= i < self.keys_view().len() implies #[trigger] self.view()[self.keys_view()[i]]
            == self.values_view()[i] by {
            self.lemma_index(i);
        }
    }

    pub fn new() -> (m: Self)
        ensures
            m.wf(),
            m@ == Map::<Seq<char>, V>::empty(),
            m.keys_view().len() == 0,
    {
        let m = StrMap { keys: Vec::new(), vals: Vec::new() };
        assert(m@ =~= Map::<Seq<char>, V>::empty());
        m
    }

    /// Number of entries; also exposes how the ordered keys/values relate to the map.
    pub fn len(&self) -> (n: usize)
        requires
            self.wf(),
        ensures
            n == self.keys_view().len(),
            n == self@.len(),
            self.keys_view().len() == self.values_view().len(),
            self.keys_view().no_duplicates(),
            forall|k: Seq<char>| #[trigger] self@.contains_key(k) <==> self.keys_view().contains(k),
            forall|i: int|
                0 <= i < self.keys_view().len() ==> #[trigger] self@[self.keys_view()[i]]
                    == self.values_view()[i],
    {
        proof {
                        self.lemma_linked();
            self.keys_view().unique_seq_to_set();
            assert(self@.dom() =~= self.keys_view().to_set());
        }
        self.keys.len()
    }

    pub fn is_empty(&self) -> (b: bool)
        requires
            self.wf(),
        ensures
            b == (self@.len() == 0),
            b == (self.keys_view().len() == 0),
    {
        self.len() == 0
    }

    /// The `i`-th key in iteration order.
    pub fn key_at(&self, i: usize) -> (k: &String)
        requires
            self.wf(),
            i < self.keys_view().len(),
        ensures
            k@ == self.keys_view()[i as int],
            self@.contains_key(k@),
    {
        proof {
                        self.lemma_index(i as int);
        }
        &self.keys[i]
    }

    /// The `i`-th value in iteration order.
    pub fn value_at(&self, i: usize) -> (v: &V)
        requires
            self.wf(),
            i < self.keys_view().len(),
        ensures
            *v == self.values_view()[i as int],
            *v == self@[self.keys_view()[i as int]],
    {
        proof {
                        self.lemma_index(i as int);
        }
        &self.vals[i]
    }

    fn find(&self, key: &str) -> (r: Option<usize>)
        requires
            self.wf(),
        ensures
            match r {
                Some(i) => i < self.keys@.len() && self.keys@[i as int]@ == key@,
                None => !self@.contains_key(key@),
            },
    {
        let mut i: usize = 0;
        while i < self.keys.len()
            invariant
                i <= self.keys@.len(),
                forall|j: int| 0 <= j < i ==> self.keys@[j]@ != key@,
            decreases self.keys@.len() - i,
        {
            if crate::text::str_eq(self.keys[i].as_str(), key) {
                return Some(i);
            }
            i = i + 1;
        }
        None
    }

    pub fn contains_key(&self, key: &str) -> (b: bool)
        requires
            self.wf(),
        ensures
            b == self@.contains_key(key@),
    {
        match self.find(key) {
            Some(i) => {
                proof {
                    self.lemma_index(i as int);
                }
                true
            },
            None => false,
        }
    }

    pub fn get(&self, key: &str) -> (r: Option<&V>)
        requires
            self.wf(),
        ensures
            match r {
                Some(v) => self@.contains_key(key@) && *v == self@[key@],
                None => !self@.contains_key(key@),
            },
    {
        match self.find(key) {
            Some(i) => {
                proof {
                    self.lemma_index(i as int);
                }
                Some(&self.vals[i])
            },
            None => None,
        }
    }

    /// Inserts or replaces the value for `key`, returning the previous value.
    pub fn insert(&mut self, key: String, value: V) -> (old_value: Option<V>)
        requires
            old(self).wf(),
        ensures
            final(self).wf(),
            final(self)@ == old(self)@.insert(key@, value),
            match old_value {
                Some(v) => old(self)@.contains_key(key@) && v == old(self)@[key@],
                None => !old(self)@.contains_key(key@),
            },
    {
        let ghost old_map = self@;
        match self.find(key.as_str()) {
            Some(i) => {
                proof {
                    self.lemma_index(i as int);
                }
                let prev = self.vals.remove(i);
                self.vals.insert(i, value);
                proof {
                    assert(self.vals@ =~= old(self).vals@.update(i as int, value));
                    assert(self.wf());
                    assert forall|k: Seq<char>| #[trigger] self@.contains_key(k) == old_map.insert(key@, value).contains_key(k) by {
                        if old_map.contains_key(k) {
                            let j = choose|j: int| 0 <= j < self.keys@.len() && self.keys@[j]@ == k;
                            assert(self.keys@[j]@ == k);
                        }
                    }
                    assert forall|k: Seq<char>| #[trigger] self@.contains_key(k) implies self@[k] == old_map.insert(key@, value)[k] by {
                        let j = choose|j: int| 0 <= j < self.keys@.len() && self.keys@[j]@ == k;
                        self.lemma_index(j);
                        old(self).lemma_index(j);
                    }
                    assert(self@ =~= old_map.insert(key@, value));
                }
                Some(prev)
            },
            None => {
                self.keys.push(key);
                self.vals.push(value);
                proof {
                    let n = old(self).keys@.len();
                    assert forall|i: int, j: int|
                        0 <= i < self.keys@.len() && 0 <= j < self.keys@.len() && i != j implies #[trigger] self.keys@[i]@
                        != #[trigger] self.keys@[j]@ by {
                        if i < n && j < n {
                            assert(old(self).keys@[i]@ != old(self).keys@[j]@);
                        } else if i == n {
                            old(self).lemma_index(j);
                        } else {
                            old(self).lemma_index(i);
                        }
                    }
                    assert(self.wf());
                    assert forall|k: Seq<char>| #[trigger] self@.contains_key(k) == old_map.insert(key@, value).contains_key(k) by {
                        if old_map.contains_key(k) {
                            let j = choose|j: int| 0 <= j < old(self).keys@.len() && old(self).keys@[j]@ == k;
                            assert(self.keys@[j]@ == k);
                        }
                        if k == key@ {
                            assert(self.keys@[n as int]@ == k);
                        }
                    }
                    assert forall|k: Seq<char>| #[trigger] self@.contains_key(k) implies self@[k] == old_map.insert(key@, value)[k] by {
                        let j = choose|j: int| 0 <= j < self.keys@.len() && self.keys@[j]@ == k;
                        self.lemma_index(j);
                        if j < n {
                            old(self).lemma_index(j);
                        }
                    }
                    assert(self@ =~= old_map.insert(key@, value));
                }
                None
            },
        }
    }

    /// Removes `key`, returning its value.
    pub fn remove(&mut self, key: &str) -> (old_value: Option<V>)
        requires
            old(self).wf(),
        ensures
            final(self).wf(),
            final(self)@ == old(self)@.remove(key@),
            match old_value {
                Some(v) => old(self)@.contains_key(key@) && v == old(self)@[key@],
                None => !old(self)@.contains_key(key@),
            },
    {
        let ghost old_map = self@;
        match self.find(key) {
            Some(i) => {
                proof {
                    self.lemma_index(i as int);
                }
                self.keys.remove(i);
                let prev = self.vals.remove(i);
                proof {
                    let o = old(self);
                    assert forall|a: int, b: int|
                        0 <= a < self.keys@.len() && 0 <= b < self.keys@.len() && a != b implies #[trigger] self.keys@[a]@
                        != #[trigger] self.keys@[b]@ by {
                        let oa = if a < i { a } else { a + 1 };
                        let ob = if b < i { b } else { b + 1 };
                        assert(self.keys@[a] == o.keys@[oa]);
                        assert(self.keys@[b] == o.keys@[ob]);
                        assert(o.keys@[oa]@ != o.keys@[ob]@);
                    }
                    assert(self.wf());
                    assert forall|k: Seq<char>| #[trigger] self@.contains_key(k) == old_map.remove(key@).contains_key(k) by {
                        if self@.contains_key(k) {
                            let j = choose|j: int| 0 <= j < self.keys@.len() && self.keys@[j]@ == k;
                            let oj = if j < i { j } else { j + 1 };
                            assert(self.keys@[j] == o.keys@[oj]);
                            o.lemma_index(oj);
                        }
                        if old_map.remove(key@).contains_key(k) {
                            let j = choose|j: int| 0 <= j < o.keys@.len() && o.keys@[j]@ == k;
                            assert(j != i);
                            let nj = if j < i { j } else { j - 1 };
                            assert(self.keys@[nj] == o.keys@[j]);
                        }
                    }
                    assert forall|k: Seq<char>| #[trigger] self@.contains_key(k) implies self@[k] == old_map.remove(key@)[k] by {
                        let j = choose|j: int| 0 <= j < self.keys@.len() && self.keys@[j]@ == k;
                        self.lemma_index(j);
                        let oj = if j < i { j } else { j + 1 };
                        assert(self.keys@[j] == o.keys@[oj]);
                        assert(self.vals@[j] == o.vals@[oj]);
                        o.lemma_index(oj);
                    }
                    assert(self@ =~= old_map.remove(key@));
                }
                Some(prev)
            },
            None => {
                proof {
                    assert(self@ =~= old_map.remove(key@));
                }
                None
            },
        }
    }
}

impl<V: Clone> StrMap<V> {
    /// The keys, in iteration order.
    pub fn keys(&self) -> (ks: Vec<String>)
        requires
            self.wf(),
        ensures
            string_views(ks@) == self.keys_view(),
    {
        let mut out: Vec<String> = Vec::new();
        let mut i: usize = 0;
        while i < self.keys.len()
            invariant
                i <= self.keys@.len(),
                string_views(out@) == self.keys_view().take(i as int),
            decreases self.keys@.len() - i,
        {
            let ghost prev = out@;
            let k = self.keys[i].clone();
            out.push(k);
            proof {
                assert(string_views(prev).len() == prev.len());
                assert(self.keys_view().take(i as int).len() == i);
                assert(prev.len() == i);
                assert(out@ == prev.push(k));
                assert forall|j: int| 0 <= j < i + 1 implies #[trigger] string_views(out@)[j]
                    == self.keys_view().take(i + 1)[j] by {
                    if j < i {
                        assert(out@[j] == prev[j]);
                        assert(string_views(prev)[j] == self.keys_view().take(i as int)[j]);
                    }
                }
                assert(string_views(out@) =~= self.keys_view().take(i + 1));
            }
            i = i + 1;
        }
        proof {
            assert(self.keys_view().take(i as int) =~= self.keys_view());
        }
        out
    }
}


impl StrMap<String> {
    /// An entry-for-entry copy: the same keys in the same order, with the same values.
    pub fn duplicate(&self) -> (r: Self)
        requires
            self.wf(),
        ensures
            r.wf(),
            r@ == self@,
            r.keys_view() == self.keys_view(),
    {
        let mut keys: Vec<String> = Vec::new();
        let mut vals: Vec<String> = Vec::new();
        let mut i: usize = 0;
        while i < self.keys.len()
            invariant
                self.wf(),
                i <= self.keys@.len(),
                keys@ == self.keys@.take(i as int),
                vals@ == self.vals@.take(i as int),
            decreases self.keys@.len() - i,
        {
            let k = self.keys[i].clone();
            let v = self.vals[i].clone();
            keys.push(k);
            vals.push(v);
            proof {
                assert(keys@ =~= self.keys@.take(i + 1));
                assert(vals@ =~= self.vals@.take(i + 1));
            }
            i = i + 1;
        }
        proof {
            assert(keys@ =~= self.keys@);
            assert(vals@ =~= self.vals@);
        }
        let r = StrMap { keys, vals };
        assert(r@ =~= self@);
        r
    }
}

} // verus!
