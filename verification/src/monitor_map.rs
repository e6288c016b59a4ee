//! A map keyed by monitor name, holding at most one value per monitor.

use vstd::prelude::*;
use crate::text::str_eq;

verus! {

/// The name of an entry.
pub open spec fn entry_key<V>(e: (String, V)) -> Seq<char> {
    e.0@
}

/// Values keyed by monitor name; inserting under a name that is present
/// replaces its value.
pub struct MonitorMap<V> {
    entries: Vec<(String, V)>,
}

impl<V> MonitorMap<V> {
    /// The names of the entries, in insertion order.
    pub closed spec fn keys(&self) -> Seq<Seq<char>> {
        self.entries@.map_values(|e: (String, V)| entry_key(e))
    }

    #[verifier::type_invariant]
    closed spec fn names_distinct(&self) -> bool {
        self.keys().no_duplicates()
    }

    /// The position of the entry named `k`.
    closed spec fn position(&self, k: Seq<char>) -> int {
        choose|i: int| 0 <= i < self.entries@.len() && self.entries@[i].0@ == k
    }

    /// The monitor names present.
    pub closed spec fn has(&self, k: Seq<char>) -> bool {
        exists|i: int| 0 <= i < self.entries@.len() && self.entries@[i].0@ == k
    }

    proof fn lemma_position(&self, i: int)
        requires
            self.names_distinct(),
            0 <= i < self.entries@.len(),
        ensures
            self.has(self.entries@[i].0@),
            self.position(self.entries@[i].0@) == i,
    {
        let k = self.entries@[i].0@;
        assert(self.keys()[i] == k);
        let p = self.position(k);
        assert(self.keys()[p] == k);
    }
}

impl<V> View for MonitorMap<V> {
    type V = Map<Seq<char>, V>;

    closed spec fn view(&self) -> Map<Seq<char>, V> {
        Map::new(|k: Seq<char>| self.has(k), |k: Seq<char>| self.entries@[self.position(k)].1)
    }
}

impl<V> MonitorMap<V> {
    /// An empty map.
    pub fn new() -> (m: Self)
        ensures
            m@ == Map::<Seq<char>, V>::empty(),
    {
        let m = MonitorMap { entries: Vec::new() };
        assert(m@ =~= Map::<Seq<char>, V>::empty());
        m
    }

    /// The index of the entry named `key`, if there is one.
    fn find(&self, key: &str) -> (r: Option<usize>)
        ensures
            match r {
                Some(i) => i < self.entries@.len() && self.entries@[i as int].0@ == key@
                    && self.position(key@) == i,
                None => !self.has(key@),
            },
    {
        proof {
            use_type_invariant(self);
        }
        let mut i: usize = 0;
        while i < self.entries.len()
            invariant
                i <= self.entries@.len(),
                self.names_distinct(),
                forall|j: int| 0 <= j < i ==> self.entries@[j].0@ != key@,
            decreases self.entries@.len() - i,
        {
            if str_eq(self.entries[i].0.as_str(), key) {
                proof {
                    self.lemma_position(i as int);
                }
                return Some(i);
            }
            i = i + 1;
        }
        None
    }

    /// Whether a value is held for `key`.
    pub fn contains_key(&self, key: &str) -> (r: bool)
        ensures
            r == self@.dom().contains(key@),
    {
        self.find(key).is_some()
    }

    /// The value held for `key`, if any.
    pub fn get(&self, key: &str) -> (r: Option<&V>)
        ensures
            match r {
                Some(v) => self@.dom().contains(key@) && *v == self@[key@],
                None => !self@.dom().contains(key@),
            },
    {
        match self.find(key) {
            Some(i) => Some(&self.entries[i].1),
            None => None,
        }
    }

    /// Holds `value` for `key`, replacing any value held for it before.
    pub fn insert(&mut self, key: String, value: V)
        ensures
            final(self)@ == old(self)@.insert(key@, value),
    {
        proof {
            use_type_invariant(&*self);
        }
        let ghost k = key@;
        let ghost before = *self;
        match self.find(key.as_str()) {
            Some(i) => {
                let mut entries = Vec::new();
                std::mem::swap(&mut entries, &mut self.entries);
                entries.set(i, (key, value));
                proof {
                    let m = MonitorMap { entries };
                    assert(m.keys() =~= before.keys());
                }
                self.entries = entries;
                proof {
                    assert(self.keys() =~= before.keys());
                    assert forall|kk: Seq<char>| self.has(kk) == before.has(kk) by {
                        if before.has(kk) {
                            let j = before.position(kk);
                            if j == i {
                                assert(self.entries@[j].0@ == kk);
                            } else {
                                assert(self.entries@[j] == before.entries@[j]);
                            }
                        }
                        if self.has(kk) {
                            let j = choose|j: int| 0 <= j < self.entries@.len() && self.entries@[j].0@ == kk;
                            if j != i {
                                assert(before.entries@[j] == self.entries@[j]);
                            } else {
                                assert(before.entries@[j].0@ == kk);
                            }
                        }
                    }
                    assert forall|kk: Seq<char>| self.has(kk) implies self.entries@[self.position(kk)].1 == (
                    if kk == k {
                        value
                    } else {
                        before.entries@[before.position(kk)].1
                    }) by {
                        let j = self.position(kk);
                        assert(0 <= j < self.entries@.len() && self.entries@[j].0@ == kk);
                        if j == i {
                            assert(kk == k);
                        } else {
                            assert(self.entries@[j] == before.entries@[j]);
                            assert(self.keys()[j] == kk);
                            assert(self.keys()[i as int] == k);
                            assert(kk != k);
                            before.lemma_position(j);
                        }
                    }
                    assert(before.entries@[i as int].0@ == k);
                    assert(before.has(k));
                    assert(self@.dom() =~= before@.insert(k, value).dom());
                    assert forall|kk: Seq<char>| self@.dom().contains(kk) implies self@[kk] == before@.insert(
                        k,
                        value,
                    )[kk] by {}
                    assert(self@ =~= before@.insert(k, value));
                }
            },
            None => {
                let mut entries = Vec::new();
                std::mem::swap(&mut entries, &mut self.entries);
                entries.push((key, value));
                proof {
                    let m = MonitorMap { entries };
                    assert(m.keys() =~= before.keys().push(k));
                    assert(m.keys().no_duplicates());
                }
                self.entries = entries;
                proof {
                    let n = before.entries@.len() as int;
                    assert(self.keys() =~= before.keys().push(k));
                    assert forall|kk: Seq<char>| self.has(kk) == (before.has(kk) || kk == k) by {
                        if before.has(kk) {
                            let j = before.position(kk);
                            assert(self.entries@[j] == before.entries@[j]);
                        }
                        if kk == k {
                            assert(self.entries@[n].0@ == k);
                        }
                        if self.has(kk) && kk != k {
                            let j = choose|j: int| 0 <= j < self.entries@.len() && self.entries@[j].0@ == kk;
                            assert(before.entries@[j] == self.entries@[j]);
                        }
                    }
                    assert forall|kk: Seq<char>| self.has(kk) implies self.entries@[self.position(kk)].1 == (
                    if kk == k {
                        value
                    } else {
                        before.entries@[before.position(kk)].1
                    }) by {
                        let j = self.position(kk);
                        self.lemma_position(j);
                        if kk != k {
                            before.lemma_position(j);
                        }
                    }
                    assert(self@ =~= before@.insert(k, value));
                }
            },
        }
    }

    /// Removes every entry.
    pub fn clear(&mut self)
        ensures
            final(self)@ == Map::<Seq<char>, V>::empty(),
    {
        self.entries = Vec::new();
        assert(self@ =~= Map::<Seq<char>, V>::empty());
    }

    /// The number of monitors that have a value.
    pub fn len(&self) -> (n: usize)
        ensures
            n == self@.dom().len(),
    {
        proof {
            use_type_invariant(self);
            self.keys().unique_seq_to_set();
            assert(self@.dom() =~= self.keys().to_set()) by {
                assert forall|kk: Seq<char>| self.has(kk) implies self.keys().contains(kk) by {
                    let j = choose|j: int| 0 <= j < self.entries@.len() && self.entries@[j].0@ == kk;
                    assert(self.keys()[j] == kk);
                }
                assert forall|kk: Seq<char>| self.keys().contains(kk) implies self.has(kk) by {
                    let j = choose|j: int| 0 <= j < self.keys().len() && self.keys()[j] == kk;
                    assert(self.entries@[j].0@ == kk);
                }
            }
        }
        self.entries.len()
    }
}

} // verus!
