//! A small map from string keys to values, kept as a list of entries.
//!
//! The peer and presence tables of the client are tiny (one entry per player), so a list of
//! `(key, value)` pairs with distinct keys is all they need. Its abstract view is a `Map` from
//! the key's characters to the view of the value.
use vstd::prelude::*;

verus! {

/// The characters of each string of a sequence, in order.
pub open spec fn names(v: Seq<String>) -> Seq<Seq<char>> {
    v.map_values(|s: String| s@)
}

/// `r` lists every element of `s` exactly once, in some order.
pub open spec fn enumerates(r: Seq<Seq<char>>, s: Set<Seq<char>>) -> bool {
    &&& forall|i: int, j: int| 0 <= i < r.len() && 0 <= j < r.len() && i != j ==> r[i] != r[j]
    &&& forall|i: int| 0 <= i < r.len() ==> s.contains(#[trigger] r[i])
    &&& forall|k: Seq<char>| #[trigger] s.contains(k) ==> exists|i: int| 0 <= i < r.len() && r[i] == k
}

/// A map from strings to values; each key occurs in at most one entry.
pub struct StrMap<V> {
    entries: Vec<(String, V)>,
}

impl<V: View> StrMap<V> {
    /// Number of entries.
    pub closed spec fn size(self) -> nat {
        self.entries@.len()
    }

    /// Key of the entry at position `i`.
    pub closed spec fn key_at(self, i: int) -> Seq<char> {
        self.entries@[i].0@
    }

    /// View of the value of the entry at position `i`.
    pub closed spec fn value_at(self, i: int) -> V::V {
        self.entries@[i].1@
    }

    /// Entry `i` exists and has key `k`.
    pub open spec fn holds_at(self, k: Seq<char>, i: int) -> bool {
        0 <= i < self.size() && self.key_at(i) == k
    }

    /// No key occurs in two entries.
    pub closed spec fn wf(self) -> bool {
        forall|i: int, j: int|
            0 <= i < self.size() && 0 <= j < self.size() && i != j ==> #[trigger] self.key_at(i)
                != #[trigger] self.key_at(j)
    }

    /// How the entries make up the map: every entry is in it, under its key and with its
    /// value, and every key of the map comes from some entry.
    pub proof fn lemma_entries(self)
        requires
            self.wf(),
        ensures
            forall|i: int, j: int|
                0 <= i < self.size() && 0 <= j < self.size() && i != j ==> #[trigger] self.key_at(i)
                    != #[trigger] self.key_at(j),
            forall|i: int|
                0 <= i < self.size() ==> #[trigger] self@.contains_key(self.key_at(i)),
            forall|i: int| 0 <= i < self.size() ==> self@[#[trigger] self.key_at(i)] == self.value_at(i),
            forall|k: Seq<char>|
                #[trigger] self@.contains_key(k) ==> exists|i: int| self.holds_at(k, i),
            self@.dom().finite(),
            self@.len() == self.size(),
    {
        assert forall|i: int| 0 <= i < self.size() implies #[trigger] self@.contains_key(
            self.key_at(i),
        ) && self@[self.key_at(i)] == self.value_at(i) by {
            assert(self.holds_at(self.key_at(i), i));
            let j = choose|j: int| self.holds_at(self.key_at(i), j);
            assert(j == i);
        }
        self.lemma_dom_len(self.size() as int);
    }

    /// The keys of the first `n` entries form a finite set of `n` elements.
    proof fn lemma_dom_len(self, n: int)
        requires
            self.wf(),
            0 <= n <= self.size(),
        ensures
            Set::new(|k: Seq<char>| exists|i: int| 0 <= i < n && self.holds_at(k, i)).finite(),
            Set::new(|k: Seq<char>| exists|i: int| 0 <= i < n && self.holds_at(k, i)).len() == n,
            n == self.size() ==> self@.dom() == Set::new(
                |k: Seq<char>| exists|i: int| 0 <= i < n && self.holds_at(k, i),
            ),
        decreases n,
    {
        let s = Set::new(|k: Seq<char>| exists|i: int| 0 <= i < n && self.holds_at(k, i));
        if n == 0 {
            assert(s =~= Set::empty());
        } else {
            let t = Set::new(|k: Seq<char>| exists|i: int| 0 <= i < n - 1 && self.holds_at(k, i));
            self.lemma_dom_len(n - 1);
            assert(self.holds_at(self.key_at(n - 1), n - 1));
            assert(s =~= t.insert(self.key_at(n - 1)));
            assert(!t.contains(self.key_at(n - 1)));
        }
        if n == self.size() {
            assert(self@.dom() =~= s);
        }
    }

    /// An empty map.
    pub fn new() -> (r: Self)
        ensures
            r.wf(),
            r@ == Map::<Seq<char>, V::V>::empty(),
    {
        let r = StrMap { entries: Vec::new() };
        assert(r@ =~= Map::<Seq<char>, V::V>::empty());
        r
    }

    /// Number of entries.
    pub fn len(&self) -> (r: usize)
        ensures
            r == self.size(),
    {
        self.entries.len()
    }

    /// Key of the entry at position `i`.
    pub fn key(&self, i: usize) -> (r: &String)
        requires
            i < self.size(),
        ensures
            r@ == self.key_at(i as int),
    {
        &self.entries[i].0
    }

    /// Value of the entry at position `i`.
    pub fn value(&self, i: usize) -> (r: &V)
        requires
            i < self.size(),
        ensures
            r@ == self.value_at(i as int),
    {
        &self.entries[i].1
    }

    /// Position of the entry with key `k`, if any.
    pub fn find(&self, k: &str) -> (r: Option<usize>)
        requires
            self.wf(),
        ensures
            match r {
                Some(i) => self.holds_at(k@, i as int),
                None => !self@.contains_key(k@),
            },
    {
        let key = k.to_owned();
        let n = self.entries.len();
        let mut i: usize = 0;
        while i < n
            invariant
                n == self.size(),
                i <= n,
                key@ == k@,
                forall|j: int| 0 <= j < i ==> self.key_at(j) != k@,
            decreases n - i,
        {
            if self.entries[i].0 == key {
                return Some(i);
            }
            i = i + 1;
        }
        proof {
            if self@.contains_key(k@) {
                self.lemma_entries();
            }
        }
        None
    }

    /// Whether some entry has key `k`.
    pub fn contains_key(&self, k: &str) -> (r: bool)
        requires
            self.wf(),
        ensures
            r == self@.contains_key(k@),
    {
        proof {
            self.lemma_entries();
        }
        match self.find(k) {
            Some(i) => {
                assert(self@.contains_key(self.key_at(i as int)));
                true
            },
            None => false,
        }
    }

    /// The value stored under `k`, if any.
    pub fn get(&self, k: &str) -> (r: Option<&V>)
        requires
            self.wf(),
        ensures
            match r {
                Some(v) => self@.contains_key(k@) && v@ == self@[k@],
                None => !self@.contains_key(k@),
            },
    {
        proof {
            self.lemma_entries();
        }
        match self.find(k) {
            Some(i) => {
                assert(self@[self.key_at(i as int)] == self.value_at(i as int));
                Some(&self.entries[i].1)
            },
            None => None,
        }
    }

    /// Stores `v` under `k`, replacing the value that was there.
    pub fn insert(&mut self, k: String, v: V)
        requires
            old(self).wf(),
        ensures
            final(self).wf(),
            final(self)@ == old(self)@.insert(k@, v@),
    {
        proof {
            old(self).lemma_entries();
        }
        let ghost kv = k@;
        let ghost vv = v@;
        match self.find(k.as_str()) {
            Some(i) => {
                self.entries.set(i, (k, v));
                assert(self.wf()) by {
                    assert forall|a: int, b: int|
                        0 <= a < self.size() && 0 <= b < self.size() && a != b implies #[trigger] self.key_at(a)
                            != #[trigger] self.key_at(b) by {
                        if a != i as int && b != i as int {
                            assert(old(self).key_at(a) != old(self).key_at(b));
                        } else if a == i as int {
                            assert(old(self).key_at(i as int) != old(self).key_at(b));
                        } else {
                            assert(old(self).key_at(a) != old(self).key_at(i as int));
                        }
                    }
                }
                proof {
                    self.lemma_entries();
                    assert(self@ =~= old(self)@.insert(kv, vv)) by {
                        assert forall|key: Seq<char>| #[trigger] self@.contains_key(key) <==> old(self)@.insert(kv, vv).contains_key(key) by {
                            if self@.contains_key(key) {
                                let j = choose|j: int| self.holds_at(key, j);
                                if j != i as int {
                                    assert(old(self).holds_at(key, j));
                                    assert(old(self)@.contains_key(old(self).key_at(j)));
                                }
                            }
                            if old(self)@.contains_key(key) {
                                let j = choose|j: int| old(self).holds_at(key, j);
                                if j != i as int {
                                    assert(self.holds_at(key, j));
                                    assert(self@.contains_key(self.key_at(j)));
                                } else {
                                    assert(self@.contains_key(self.key_at(i as int)));
                                }
                            }
                            if key == kv {
                                assert(self@.contains_key(self.key_at(i as int)));
                            }
                        }
                        assert forall|key: Seq<char>| #[trigger] self@.contains_key(key) implies self@[key] == old(self)@.insert(kv, vv)[key] by {
                            let j = choose|j: int| self.holds_at(key, j);
                            assert(self@[self.key_at(j)] == self.value_at(j));
                            if j != i as int {
                                assert(old(self)@[old(self).key_at(j)] == old(self).value_at(j));
                            }
                        }
                    }
                }
            },
            None => {
                let ghost n = self.entries@.len();
                self.entries.push((k, v));
                assert(self.wf()) by {
                    assert forall|a: int, b: int|
                        0 <= a < self.size() && 0 <= b < self.size() && a != b implies #[trigger] self.key_at(a)
                            != #[trigger] self.key_at(b) by {
                        if a < n && b < n {
                            assert(old(self).key_at(a) != old(self).key_at(b));
                        } else if a < n {
                            assert(old(self)@.contains_key(old(self).key_at(a)));
                        } else {
                            assert(old(self)@.contains_key(old(self).key_at(b)));
                        }
                    }
                }
                proof {
                    self.lemma_entries();
                    assert(self@ =~= old(self)@.insert(kv, vv)) by {
                        assert forall|key: Seq<char>| #[trigger] self@.contains_key(key) <==> old(self)@.insert(kv, vv).contains_key(key) by {
                            if self@.contains_key(key) {
                                let j = choose|j: int| self.holds_at(key, j);
                                if j < n {
                                    assert(old(self).holds_at(key, j));
                                    assert(old(self)@.contains_key(old(self).key_at(j)));
                                }
                            }
                            if old(self)@.contains_key(key) {
                                let j = choose|j: int| old(self).holds_at(key, j);
                                assert(self.holds_at(key, j));
                                assert(self@.contains_key(self.key_at(j)));
                            }
                            if key == kv {
                                assert(self@.contains_key(self.key_at(n as int)));
                            }
                        }
                        assert forall|key: Seq<char>| #[trigger] self@.contains_key(key) implies self@[key] == old(self)@.insert(kv, vv)[key] by {
                            let j = choose|j: int| self.holds_at(key, j);
                            assert(self@[self.key_at(j)] == self.value_at(j));
                            if j < n {
                                assert(old(self)@[old(self).key_at(j)] == old(self).value_at(j));
                            }
                        }
                    }
                }
            },
        }
    }

    /// Removes the entry with key `k`, if any.
    pub fn remove(&mut self, k: &str)
        requires
            old(self).wf(),
        ensures
            final(self).wf(),
            final(self)@ == old(self)@.remove(k@),
    {
        proof {
            old(self).lemma_entries();
        }
        match self.find(k) {
            Some(i) => {
                self.entries.remove(i);
                assert(self.wf()) by {
                    assert forall|a: int, b: int|
                        0 <= a < self.size() && 0 <= b < self.size() && a != b implies #[trigger] self.key_at(a)
                            != #[trigger] self.key_at(b) by {
                        let oa = if a < i { a } else { a + 1 };
                        let ob = if b < i { b } else { b + 1 };
                        assert(self.key_at(a) == old(self).key_at(oa));
                        assert(self.key_at(b) == old(self).key_at(ob));
                        assert(old(self).key_at(oa) != old(self).key_at(ob));
                    }
                }
                proof {
                    self.lemma_entries();
                    assert(self@ =~= old(self)@.remove(k@)) by {
                        assert forall|key: Seq<char>| #[trigger] self@.contains_key(key) <==> old(self)@.remove(k@).contains_key(key) by {
                            if self@.contains_key(key) {
                                let j = choose|j: int| self.holds_at(key, j);
                                let oj = if j < i { j } else { j + 1 };
                                assert(self.key_at(j) == old(self).key_at(oj));
                                assert(old(self)@.contains_key(old(self).key_at(oj)));
                                assert(old(self).key_at(oj) != old(self).key_at(i as int));
                            }
                            if old(self)@.remove(k@).contains_key(key) {
                                let j = choose|j: int| old(self).holds_at(key, j);
                                assert(j != i);
                                let nj = if j < i { j } else { j - 1 };
                                assert(self.key_at(nj) == old(self).key_at(j));
                                assert(self@.contains_key(self.key_at(nj)));
                            }
                        }
                        assert forall|key: Seq<char>| #[trigger] self@.contains_key(key) implies self@[key] == old(self)@.remove(k@)[key] by {
                            let j = choose|j: int| self.holds_at(key, j);
                            let oj = if j < i { j } else { j + 1 };
                            assert(self@[self.key_at(j)] == self.value_at(j));
                            assert(self.value_at(j) == old(self).value_at(oj));
                            assert(old(self)@[old(self).key_at(oj)] == old(self).value_at(oj));
                        }
                    }
                }
            },
            None => {
                assert(self@ =~= old(self)@.remove(k@));
            },
        }
    }

    /// Removes every entry.
    pub fn clear(&mut self)
        ensures
            final(self).wf(),
            final(self)@ == Map::<Seq<char>, V::V>::empty(),
    {
        self.entries.clear();
        assert(self@ =~= Map::<Seq<char>, V::V>::empty());
    }

    /// All keys, each once, in entry order.
    pub fn keys(&self) -> (r: Vec<String>)
        requires
            self.wf(),
        ensures
            enumerates(names(r@), self@.dom()),
    {
        proof {
            self.lemma_entries();
        }
        let n = self.entries.len();
        let mut r: Vec<String> = Vec::new();
        let mut i: usize = 0;
        while i < n
            invariant
                n == self.size(),
                i <= n,
                self.wf(),
                r@.len() == i,
                forall|j: int| 0 <= j < i ==> #[trigger] r@[j]@ == self.key_at(j),
            decreases n - i,
        {
            r.push(self.entries[i].0.clone());
            i = i + 1;
        }
        proof {
            self.lemma_entries();
            let nm = names(r@);
            assert forall|a: int, b: int| 0 <= a < nm.len() && 0 <= b < nm.len() && a != b implies nm[a] != nm[b] by {
                assert(nm[a] == self.key_at(a));
                assert(nm[b] == self.key_at(b));
            }
            assert forall|a: int| 0 <= a < nm.len() implies self@.dom().contains(#[trigger] nm[a]) by {
                assert(nm[a] == self.key_at(a));
            }
            assert forall|k: Seq<char>| #[trigger] self@.dom().contains(k) implies exists|a: int| 0 <= a < nm.len() && nm[a] == k by {
                let j = choose|j: int| self.holds_at(k, j);
                assert(nm[j] == k);
            }
        }
        r
    }
}

impl<V: View> View for StrMap<V> {
    type V = Map<Seq<char>, V::V>;

    closed spec fn view(&self) -> Map<Seq<char>, V::V> {
        Map::new(
            |k: Seq<char>| exists|i: int| self.holds_at(k, i),
            |k: Seq<char>| self.value_at(choose|i: int| self.holds_at(k, i)),
        )
    }
}

} // verus!
