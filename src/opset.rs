//! Operator-set imports: the version of each operator domain in use.
use crate::text::str_eq;
use vstd::prelude::*;

verus! {

/// A map from operator domain to version; the empty domain is the default one.
#[derive(Debug, Clone)]
pub struct OpsetImports {
    entries: Vec<(String, i32)>,
}

impl OpsetImports {
    /// The version of each imported domain.
    pub closed spec fn versions(&self) -> Map<Seq<char>, i32> {
        Map::new(
            |k: Seq<char>| exists|i: int| 0 <= i < self.entries@.len() && self.entries@[i].0@ == k,
            |k: Seq<char>| self.entries@[choose|i: int| 0 <= i < self.entries@.len() && self.entries@[i].0@ == k].1,
        )
    }

    /// Each domain appears once.
    pub closed spec fn wf(&self) -> bool {
        forall|i: int, j: int| 0 <= i < self.entries@.len() && 0 <= j < self.entries@.len() && i != j
            ==> #[trigger] self.entries@[i].0@ != #[trigger] self.entries@[j].0@
    }

    proof fn lemma_at(&self, i: int)
        requires
            self.wf(),
            0 <= i < self.entries@.len(),
        ensures
            self.versions().contains_key(self.entries@[i].0@),
            self.versions()[self.entries@[i].0@] == self.entries@[i].1,
    {
        let k = self.entries@[i].0@;
        assert(0 <= i < self.entries@.len() && self.entries@[i].0@ == k);
        let j = choose|j: int| 0 <= j < self.entries@.len() && self.entries@[j].0@ == k;
        assert(i == j);
    }

    /// Creates an empty map.
    pub fn new() -> (r: Self)
        ensures
            r.wf(),
            r.versions() == Map::<Seq<char>, i32>::empty(),
    {
        let r = OpsetImports { entries: Vec::new() };
        assert(r.versions() =~= Map::<Seq<char>, i32>::empty());
        r
    }

    fn find(&self, domain: &str) -> (r: Option<usize>)
        requires
            self.wf(),
        ensures
            match r {
                Some(i) => i < self.entries@.len() && self.entries@[i as int].0@ == domain@,
                None => !self.versions().contains_key(domain@),
            },
    {
        let mut i: usize = 0;
        while i < self.entries.len()
            invariant
                i <= self.entries@.len(),
                forall|j: int| 0 <= j < i ==> (#[trigger] self.entries@[j]).0@ != domain@,
            decreases self.entries@.len() - i,
        {
            if str_eq(self.entries[i].0.as_str(), domain) {
                return Some(i);
            }
            i = i + 1;
        }
        None
    }

    /// Sets the version of `domain`.
    pub fn set(&mut self, domain: &str, version: i32)
        requires
            old(self).wf(),
        ensures
            final(self).wf(),
            final(self).versions() == old(self).versions().insert(domain@, version),
    {
        let ghost prior = self.versions();
        match self.find(domain) {
            Some(i) => {
                let k = self.entries[i].0.clone();
                self.entries.set(i, (k, version));
                proof {
                    assert forall|a: int, b: int| 0 <= a < self.entries@.len() && 0 <= b < self.entries@.len() && a != b
                        implies #[trigger] self.entries@[a].0@ != #[trigger] self.entries@[b].0@ by {
                        assert(old(self).entries@[a].0@ == self.entries@[a].0@);
                        assert(old(self).entries@[b].0@ == self.entries@[b].0@);
                    }
                    assert forall|k2: Seq<char>| #[trigger] self.versions().contains_key(k2) == prior.insert(domain@, version).contains_key(k2) by {
                        if self.versions().contains_key(k2) {
                            let j = choose|j: int| 0 <= j < self.entries@.len() && self.entries@[j].0@ == k2;
                            old(self).lemma_at(j);
                        }
                        if prior.contains_key(k2) {
                            let j = choose|j: int| 0 <= j < old(self).entries@.len() && old(self).entries@[j].0@ == k2;
                            self.lemma_at(j);
                        }
                        if k2 == domain@ {
                            self.lemma_at(i as int);
                        }
                    }
                    assert forall|k2: Seq<char>| #[trigger] self.versions().contains_key(k2) implies self.versions()[k2] == prior.insert(domain@, version)[k2] by {
                        let j = choose|j: int| 0 <= j < self.entries@.len() && self.entries@[j].0@ == k2;
                        self.lemma_at(j);
                        old(self).lemma_at(j);
                    }
                    assert(self.versions() =~= prior.insert(domain@, version));
                }
            },
            None => {
                self.entries.push((domain.to_owned(), version));
                proof {
                    let n = self.entries@.len() - 1;
                    assert forall|a: int, b: int| 0 <= a < self.entries@.len() && 0 <= b < self.entries@.len() && a != b
                        implies #[trigger] self.entries@[a].0@ != #[trigger] self.entries@[b].0@ by {
                        if a == n {
                            old(self).lemma_at(b);
                        } else if b == n {
                            old(self).lemma_at(a);
                        } else {
                            assert(old(self).entries@[a] == self.entries@[a]);
                            assert(old(self).entries@[b] == self.entries@[b]);
                        }
                    }
                    assert forall|k2: Seq<char>| #[trigger] self.versions().contains_key(k2) == prior.insert(domain@, version).contains_key(k2) by {
                        if self.versions().contains_key(k2) {
                            let j = choose|j: int| 0 <= j < self.entries@.len() && self.entries@[j].0@ == k2;
                            if j < n {
                                assert(old(self).entries@[j] == self.entries@[j]);
                                old(self).lemma_at(j);
                            }
                        }
                        if prior.contains_key(k2) {
                            let j = choose|j: int| 0 <= j < old(self).entries@.len() && old(self).entries@[j].0@ == k2;
                            assert(old(self).entries@[j] == self.entries@[j]);
                            self.lemma_at(j);
                        }
                        if k2 == domain@ {
                            self.lemma_at(n);
                        }
                    }
                    assert forall|k2: Seq<char>| #[trigger] self.versions().contains_key(k2) implies self.versions()[k2] == prior.insert(domain@, version)[k2] by {
                        let j = choose|j: int| 0 <= j < self.entries@.len() && self.entries@[j].0@ == k2;
                        self.lemma_at(j);
                        if j < n {
                            assert(old(self).entries@[j] == self.entries@[j]);
                            old(self).lemma_at(j);
                        }
                    }
                    assert(self.versions() =~= prior.insert(domain@, version));
                }
            },
        }
    }

    /// Returns the version of `domain`, if it is imported.
    pub fn get(&self, domain: &str) -> (r: Option<i32>)
        requires
            self.wf(),
        ensures
            r is Some == self.versions().contains_key(domain@),
            r is Some ==> r->Some_0 == self.versions()[domain@],
    {
        match self.find(domain) {
            Some(i) => {
                proof {
                    self.lemma_at(i as int);
                }
                Some(self.entries[i].1)
            },
            None => None,
        }
    }

    /// Returns the number of imported domains.
    pub fn len(&self) -> (r: usize)
        requires
            self.wf(),
        ensures
            r == self.versions().dom().len(),
    {
        proof {
            let ks = self.entries@.map_values(|e: (String, i32)| e.0@);
            assert forall|k: Seq<char>| #[trigger] self.versions().dom().contains(k) == ks.to_set().contains(k) by {
                if self.versions().dom().contains(k) {
                    let j = choose|j: int| 0 <= j < self.entries@.len() && self.entries@[j].0@ == k;
                    assert(ks[j] == k);
                }
                if ks.to_set().contains(k) {
                    let j = choose|j: int| 0 <= j < ks.len() && ks[j] == k;
                    assert(self.entries@[j].0@ == k);
                }
            }
            assert(self.versions().dom() =~= ks.to_set());
            assert forall|i: int, j: int| 0 <= i < ks.len() && 0 <= j < ks.len() && i != j implies ks[i] != ks[j] by {
                assert(ks[i] == self.entries@[i].0@);
                assert(ks[j] == self.entries@[j].0@);
            }
            ks.unique_seq_to_set();
        }
        self.entries.len()
    }
}

} // verus!
