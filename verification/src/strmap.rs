//! A map keyed by strings that keeps its entries in insertion order.
//!
//! It stands for the `HashMap<String, _>` fields of the configuration: the
//! logic only ever looks entries up by key, replaces them, removes them and
//! walks all of them.
use vstd::prelude::*;

use crate::text::chars_eq;
use crate::text::chars_of;

verus! {

/// String-keyed map; no key occurs twice among its entries.
pub struct StrMap<V> {
    entries: Vec<(String, V)>,
}

impl<V> View for StrMap<V> {
    type V = Map<Seq<char>, V>;

    closed spec fn view(&self) -> Map<Seq<char>, V> {
        Map::new(
            |k: Seq<char>| exists|i: int| 0 <= i < self.entries@.len() && #[trigger] self.entries@[i].0@ == k,
            |k: Seq<char>|
                self.entries@[choose|i: int|
                    0 <= i < self.entries@.len() && #[trigger] self.entries@[i].0@ == k].1,
        )
    }
}

/// No key occurs twice in `s`.
pub open spec fn keys_unique<V>(s: Seq<(String, V)>) -> bool {
    forall|i: int, j: int|
        0 <= i < s.len() && 0 <= j < s.len() && i != j ==> #[trigger] s[i].0@ != #[trigger] s[j].0@
}

/// `s` lists exactly the entries of `m`, each key once.
pub open spec fn lists_map<V>(s: Seq<(String, V)>, m: Map<Seq<char>, V>) -> bool {
    &&& keys_unique(s)
    &&& forall|i: int| 0 <= i < s.len() ==> m.contains_key(#[trigger] s[i].0@) && m[s[i].0@] == s[i].1
    &&& forall|k: Seq<char>| #[trigger] m.contains_key(k) ==> exists|i: int| 0 <= i < s.len() && #[trigger] s[i].0@ == k
}

impl<V> StrMap<V> {
    #[verifier::type_invariant]
    spec fn inv(self) -> bool {
        keys_unique(self.entries@)
    }

    proof fn lemma_view(&self)
        requires
            keys_unique(self.entries@),
        ensures
            lists_map(self.entries@, self@),
    {
        assert forall|i: int| 0 <= i < self.entries@.len() implies self@.contains_key(
            #[trigger] self.entries@[i].0@,
        ) && self@[self.entries@[i].0@] == self.entries@[i].1 by {
            let k = self.entries@[i].0@;
            assert(self@.contains_key(k));
            let j = choose|j: int| 0 <= j < self.entries@.len() && #[trigger] self.entries@[j].0@ == k;
            assert(self.entries@[j].0@ == k);
        }
    }

    /// An empty map.
    pub fn new() -> (m: Self)
        ensures
            m@ == Map::<Seq<char>, V>::empty(),
    {
        let m = StrMap { entries: Vec::new() };
        assert(m@ =~= Map::<Seq<char>, V>::empty());
        m
    }

    /// Index of the entry whose key is `key`, if there is one.
    fn find(&self, key: &str) -> (r: Option<usize>)
        ensures
            match r {
                Some(i) => i < self.entries@.len() && self.entries@[i as int].0@ == key@,
                None => forall|i: int| 0 <= i < self.entries@.len() ==> #[trigger] self.entries@[i].0@ != key@,
            },
    {
        let kv = chars_of(key);
        let mut i: usize = 0;
        while i < self.entries.len()
            invariant
                i <= self.entries@.len(),
                kv@ == key@,
                forall|j: int| 0 <= j < i ==> #[trigger] self.entries@[j].0@ != key@,
            decreases self.entries@.len() - i,
        {
            let ev = chars_of(self.entries[i].0.as_str());
            if chars_eq(&ev, &kv) {
                return Some(i);
            }
            i += 1;
        }
        None
    }

    /// The value stored under `key`.
    pub fn get(&self, key: &str) -> (r: Option<&V>)
        ensures
            match r {
                Some(v) => self@.contains_key(key@) && self@[key@] == *v,
                None => !self@.contains_key(key@),
            },
    {
        proof {
            use_type_invariant(self);
            self.lemma_view();
        }
        match self.find(key) {
            Some(i) => Some(&self.entries[i].1),
            None => None,
        }
    }

    /// Whether some entry has key `key`.
    pub fn contains_key(&self, key: &str) -> (r: bool)
        ensures
            r == self@.contains_key(key@),
    {
        proof {
            use_type_invariant(self);
            self.lemma_view();
        }
        self.find(key).is_some()
    }

    /// The entries in the order they are kept.
    pub closed spec fn entries_view(&self) -> Seq<(String, V)> {
        self.entries@
    }

    /// The entries, each key once, in insertion order.
    pub fn pairs(&self) -> (r: &Vec<(String, V)>)
        ensures
            lists_map(r@, self@),
            r@ == self.entries_view(),
    {
        proof {
            use_type_invariant(self);
            self.lemma_view();
        }
        &self.entries
    }

    /// Number of entries.
    pub fn len(&self) -> (n: usize)
        ensures
            n == self.pairs_len(),
    {
        self.entries.len()
    }

    /// Number of entries (one per key).
    pub closed spec fn pairs_len(&self) -> nat {
        self.entries@.len()
    }

    /// Stores `value` under `key`, replacing and returning any earlier value.
    pub fn insert(&mut self, key: String, value: V) -> (old_value: Option<V>)
        ensures
            final(self)@ == old(self)@.insert(key@, value),
            match old_value {
                Some(v) => old(self)@.contains_key(key@) && old(self)@[key@] == v,
                None => !old(self)@.contains_key(key@),
            },
    {
        proof {
            use_type_invariant(&*self);
            self.lemma_view();
        }
        let ghost k = key@;
        let ghost before = self.entries@;
        let ghost old_map = self@;
        match self.find(key.as_str()) {
            Some(i) => {
                let mut entries: Vec<(String, V)> = Vec::new();
                std::mem::swap(&mut entries, &mut self.entries);
                let (_, prev) = entries.remove(i);
                entries.insert(i, (key, value));
                proof {
                    assert(entries@ =~= before.update(i as int, (entries@[i as int].0, value)));
                    assert forall|a: int, b: int|
                        0 <= a < entries@.len() && 0 <= b < entries@.len() && a != b implies #[trigger] entries@[a].0@
                        != #[trigger] entries@[b].0@ by {
                        if a != i && b != i {
                            assert(entries@[a] == before[a] && entries@[b] == before[b]);
                        } else if a == i {
                            assert(entries@[b] == before[b]);
                        } else {
                            assert(entries@[a] == before[a]);
                        }
                    }
                }
                self.entries = entries;
                proof {
                    self.lemma_view();
                    assert forall|q: Seq<char>| #[trigger] self@.contains_key(q) == old_map.insert(k, value).contains_key(q) by {
                        if self@.contains_key(q) {
                            let j = choose|j: int| 0 <= j < self.entries@.len() && #[trigger] self.entries@[j].0@ == q;
                            if j != i {
                                assert(before[j].0@ == q);
                            }
                        }
                        if old_map.contains_key(q) {
                            let j = choose|j: int| 0 <= j < before.len() && #[trigger] before[j].0@ == q;
                            if j != i {
                                assert(self.entries@[j].0@ == q);
                            } else {
                                assert(self.entries@[i as int].0@ == q);
                            }
                        }
                        if q == k {
                            assert(self.entries@[i as int].0@ == q);
                        }
                    }
                    assert(self@ =~= old_map.insert(k, value));
                }
                Some(prev)
            },
            None => {
                let mut entries: Vec<(String, V)> = Vec::new();
                std::mem::swap(&mut entries, &mut self.entries);
                entries.push((key, value));
                proof {
                    let e = entries@;
                    assert forall|a: int, b: int|
                        0 <= a < e.len() && 0 <= b < e.len() && a != b implies #[trigger] e[a].0@
                        != #[trigger] e[b].0@ by {
                        if a < before.len() && b < before.len() {
                            assert(e[a] == before[a] && e[b] == before[b]);
                        } else if a < before.len() {
                            assert(e[a] == before[a]);
                        } else {
                            assert(e[b] == before[b]);
                        }
                    }
                }
                self.entries = entries;
                proof {
                    let e = self.entries@;
                    assert forall|a: int, b: int|
                        0 <= a < e.len() && 0 <= b < e.len() && a != b implies #[trigger] e[a].0@
                        != #[trigger] e[b].0@ by {
                        if a < before.len() && b < before.len() {
                            assert(e[a] == before[a] && e[b] == before[b]);
                        } else if a < before.len() {
                            assert(e[a] == before[a]);
                        } else {
                            assert(e[b] == before[b]);
                        }
                    }
                    self.lemma_view();
                    assert forall|q: Seq<char>| #[trigger] self@.contains_key(q) == old_map.insert(k, value).contains_key(q) by {
                        if self@.contains_key(q) {
                            let j = choose|j: int| 0 <= j < e.len() && #[trigger] e[j].0@ == q;
                            if j < before.len() {
                                assert(before[j].0@ == q);
                            }
                        }
                        if old_map.contains_key(q) {
                            let j = choose|j: int| 0 <= j < before.len() && #[trigger] before[j].0@ == q;
                            assert(e[j].0@ == q);
                        }
                        if q == k {
                            assert(e[before.len() as int].0@ == q);
                        }
                    }
                    assert(self@ =~= old_map.insert(k, value));
                }
                None
            },
        }
    }

    /// Removes the entry under `key`, returning its value.
    pub fn remove(&mut self, key: &str) -> (old_value: Option<V>)
        ensures
            final(self)@ == old(self)@.remove(key@),
            match old_value {
                Some(v) => old(self)@.contains_key(key@) && old(self)@[key@] == v,
                None => !old(self)@.contains_key(key@),
            },
    {
        proof {
            use_type_invariant(&*self);
            self.lemma_view();
        }
        let ghost k = key@;
        let ghost before = self.entries@;
        let ghost old_map = self@;
        match self.find(key) {
            Some(i) => {
                let mut entries: Vec<(String, V)> = Vec::new();
                std::mem::swap(&mut entries, &mut self.entries);
                let (_, prev) = entries.remove(i);
                proof {
                    assert(entries@ =~= before.remove(i as int));
                    assert forall|a: int, b: int|
                        0 <= a < entries@.len() && 0 <= b < entries@.len() && a != b implies #[trigger] entries@[a].0@
                        != #[trigger] entries@[b].0@ by {
                        let a2 = if a < i { a } else { a + 1 };
                        let b2 = if b < i { b } else { b + 1 };
                        assert(entries@[a] == before[a2] && entries@[b] == before[b2]);
                    }
                }
                self.entries = entries;
                proof {
                    self.lemma_view();
                    let e = self.entries@;
                    assert forall|q: Seq<char>| #[trigger] self@.contains_key(q) == old_map.remove(k).contains_key(q) by {
                        if self@.contains_key(q) {
                            let j = choose|j: int| 0 <= j < e.len() && #[trigger] e[j].0@ == q;
                            let j2 = if j < i { j } else { j + 1 };
                            assert(before[j2].0@ == q);
                            assert(j2 != i);
                        }
                        if old_map.contains_key(q) && q != k {
                            let j = choose|j: int| 0 <= j < before.len() && #[trigger] before[j].0@ == q;
                            assert(j != i);
                            let j1 = if j < i { j } else { j - 1 };
                            assert(e[j1].0@ == q);
                        }
                    }
                    assert(self@ =~= old_map.remove(k));
                }
                Some(prev)
            },
            None => {
                proof {
                    assert(!old_map.contains_key(k));
                    assert(self@ =~= old_map.remove(k));
                }
                None
            },
        }
    }
}

} // verus!
