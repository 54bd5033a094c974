//! A small map from names to values, for the handful of devices,
//! interfaces and metric types that the monitor tracks by name.
use vstd::prelude::*;
use crate::text::str_eq;

verus! {

/// A map from names to values, kept as a list in which no name occurs twice.
pub struct NameMap<V> {
    entries: Vec<(String, V)>,
}

impl<V: Copy> NameMap<V> {
    /// No name occurs twice.
    pub closed spec fn wf(&self) -> bool {
        forall|i: int, j: int|
            0 <= i < self.entries@.len() && 0 <= j < self.entries@.len() && i != j
                ==> self.entries@[i].0@ != self.entries@[j].0@
    }

    closed spec fn has_at(&self, k: Seq<char>, i: int) -> bool {
        0 <= i < self.entries@.len() && self.entries@[i].0@ == k
    }

    /// The values by name.
    pub closed spec fn view(&self) -> Map<Seq<char>, V> {
        Map::new(
            |k: Seq<char>| exists|i: int| self.has_at(k, i),
            |k: Seq<char>|
                {
                    let i = choose|i: int| self.has_at(k, i);
                    self.entries@[i].1
                },
        )
    }

    proof fn lemma_entry(&self, i: int)
        requires
            self.wf(),
            0 <= i < self.entries@.len(),
        ensures
            self.view().contains_key(self.entries@[i].0@),
            self.view()[self.entries@[i].0@] == self.entries@[i].1,
    {
        let k = self.entries@[i].0@;
        assert(self.has_at(k, i));
        let j = choose|j: int| self.has_at(k, j);
        assert(j == i);
    }

    /// An empty store.
    pub fn new() -> (r: Self)
        ensures
            r.wf(),
            r.view() == Map::<Seq<char>, V>::empty(),
    {
        let r = NameMap { entries: Vec::new() };
        assert(r.view() =~= Map::<Seq<char>, V>::empty());
        r
    }

    fn find(&self, name: &str) -> (r: Option<usize>)
        requires
            self.wf(),
        ensures
            match r {
                Some(i) => i < self.entries@.len() && self.entries@[i as int].0@ == name@,
                None => !self.view().contains_key(name@),
            },
    {
        let mut i: usize = 0;
        while i < self.entries.len()
            invariant
                i <= self.entries@.len(),
                forall|j: int| 0 <= j < i ==> self.entries@[j].0@ != name@,
            decreases self.entries.len() - i,
        {
            if str_eq(self.entries[i].0.as_str(), name) {
                return Some(i);
            }
            i = i + 1;
        }
        None
    }

    /// The value stored under `name`.
    pub fn get(&self, name: &str) -> (r: Option<V>)
        requires
            self.wf(),
        ensures
            r == (if self.view().contains_key(name@) {
                Some(self.view()[name@])
            } else {
                None
            }),
    {
        match self.find(name) {
            Some(i) => {
                proof {
                    self.lemma_entry(i as int);
                }
                Some(self.entries[i].1)
            },
            None => None,
        }
    }

    /// Store `value` under `name`, replacing what was there.
    pub fn insert(&mut self, name: &str, value: V)
        requires
            old(self).wf(),
        ensures
            final(self).wf(),
            final(self).view() == old(self).view().insert(name@, value),
    {
        let ghost before = self.view();
        match self.find(name) {
            Some(i) => {
                let entry = (name.to_owned(), value);
                self.entries.set(i, entry);
                proof {
                    assert forall|k: Seq<char>| #[trigger]
                        self.view().contains_key(k) == before.insert(name@, value).contains_key(k) by {
                        if k == name@ {
                            assert(self.has_at(k, i as int));
                        } else if before.contains_key(k) {
                            let j = choose|j: int| old(self).has_at(k, j);
                            assert(self.has_at(k, j));
                        } else if self.view().contains_key(k) {
                            let j = choose|j: int| self.has_at(k, j);
                            assert(old(self).has_at(k, j));
                        }
                    }
                    assert forall|k: Seq<char>| #[trigger]
                        self.view().contains_key(k) implies self.view()[k] == before.insert(
                        name@,
                        value,
                    )[k] by {
                        let j = choose|j: int| self.has_at(k, j);
                        self.lemma_entry(j);
                        if k != name@ {
                            old(self).lemma_entry(j);
                        }
                    }
                    assert(self.view() =~= before.insert(name@, value));
                }
            },
            None => {
                let entry = (name.to_owned(), value);
                self.entries.push(entry);
                proof {
                    let n = self.entries@.len() - 1;
                    assert forall|j: int| 0 <= j < n implies self.entries@[j].0@ != name@ by {
                        if self.entries@[j].0@ == name@ {
                            assert(old(self).has_at(name@, j));
                        }
                    }
                    assert(self.wf());
                    assert forall|k: Seq<char>| #[trigger]
                        self.view().contains_key(k) == before.insert(name@, value).contains_key(k) by {
                        if k == name@ {
                            assert(self.has_at(k, n));
                        } else if before.contains_key(k) {
                            let j = choose|j: int| old(self).has_at(k, j);
                            assert(self.has_at(k, j));
                        } else if self.view().contains_key(k) {
                            let j = choose|j: int| self.has_at(k, j);
                            assert(old(self).has_at(k, j));
                        }
                    }
                    assert forall|k: Seq<char>| #[trigger]
                        self.view().contains_key(k) implies self.view()[k] == before.insert(
                        name@,
                        value,
                    )[k] by {
                        let j = choose|j: int| self.has_at(k, j);
                        self.lemma_entry(j);
                        if k != name@ {
                            old(self).lemma_entry(j);
                        }
                    }
                    assert(self.view() =~= before.insert(name@, value));
                }
            },
        }
    }
}

} // verus!
