//! An ordered container that may be edited while it is being walked.
//!
//! Elements live in numbered links. Link 0 is the sentinel that marks both
//! ends of the circular chain and never holds an element. Removing an element
//! empties its link and unhooks it from the chain, but the link keeps pointing
//! at the element that followed it, so a traversal standing on it goes on from
//! there. Links are never reused, so a link number held by a traversal always
//! stays meaningful.
use vstd::prelude::*;

verus! {

/// An ordered, doubly linked sequence of elements with stable link numbers.
pub struct DoublyLinkedList<T> {
    prev: Vec<usize>,
    next: Vec<usize>,
    values: Vec<Option<T>>,
    length: usize,
    /// The links that hold elements, in list order.
    order: Ghost<Seq<usize>>,
    /// For an emptied link, the moment it was emptied.
    stamp: Ghost<Seq<nat>>,
    /// Moments are counted by removals.
    clock: Ghost<nat>,
}

/// A traversal of a container; it stands on the link it yielded last
/// (initially the sentinel).
#[derive(Debug, Clone, Copy)]
pub struct Iter {
    current: usize,
}

impl<T> View for DoublyLinkedList<T> {
    type V = Seq<T>;

    closed spec fn view(&self) -> Seq<T> {
        self.order@.map_values(|l: usize| self.values@[l as int]->Some_0)
    }
}

impl<T> DoublyLinkedList<T> {
    /// The number of links ever made, the sentinel included.
    pub closed spec fn slots(&self) -> nat {
        self.values@.len()
    }

    /// Link `l` holds an element.
    pub closed spec fn is_live(&self, l: int) -> bool {
        0 < l < self.values@.len() && self.values@[l] is Some
    }

    /// Link `l` held an element that has since been removed.
    pub closed spec fn is_erased(&self, l: int) -> bool {
        0 < l < self.values@.len() && self.values@[l] is None
    }

    /// The well-formedness of the chain.
    pub closed spec fn wf(&self) -> bool {
        let n = self.values@.len();
        let ord = self.order@;
        &&& n >= 1
        &&& self.prev@.len() == n
        &&& self.next@.len() == n
        &&& self.stamp@.len() == n
        &&& self.values@[0] is None
        &&& self.length == ord.len()
        &&& self.length < n
        &&& forall|k: int| 0 <= k < ord.len() ==> 0 < #[trigger] ord[k] < n && self.values@[ord[k] as int] is Some
        &&& forall|k1: int, k2: int| 0 <= k1 < ord.len() && 0 <= k2 < ord.len() && k1 != k2 ==> #[trigger] ord[k1] != #[trigger] ord[k2]
        &&& forall|i: int| 0 < i < n && (#[trigger] self.values@[i]) is Some ==> exists|k: int| 0 <= k < ord.len() && ord[k] == i
        &&& forall|i: int| 0 <= i < n ==> #[trigger] self.next@[i] < n
        &&& forall|i: int| 0 <= i < n ==> #[trigger] self.prev@[i] < n
        &&& self.next@[0] == (if ord.len() == 0 { 0 } else { ord[0] })
        &&& self.prev@[0] == (if ord.len() == 0 { 0 } else { ord.last() })
        &&& forall|k: int| 0 <= k < ord.len() ==> #[trigger] self.next@[ord[k] as int] == (if k + 1 < ord.len() { ord[k + 1] } else { 0 })
        &&& forall|k: int| 0 <= k < ord.len() ==> #[trigger] self.prev@[ord[k] as int] == (if k > 0 { ord[k - 1] } else { 0 })
        &&& forall|i: int| #![trigger self.stamp@[i]] 0 < i < n && self.values@[i] is None ==> self.stamp@[i] < self.clock@ && ({
            let j = self.next@[i] as int;
            j == 0 || self.values@[j] is Some || self.stamp@[j] > self.stamp@[i]
        })
    }

    spec fn measure(&self, i: int) -> nat {
        if self.is_erased(i) && self.stamp@[i] < self.clock@ {
            (self.clock@ - self.stamp@[i]) as nat
        } else {
            0
        }
    }

    /// The link that a walk from `i` over emptied links arrives at.
    spec fn resolve(&self, i: int) -> int
        decreases self.measure(i),
    {
        if self.is_erased(i) {
            let j = self.next@[i] as int;
            if self.measure(j) < self.measure(i) {
                self.resolve(j)
            } else {
                j
            }
        } else {
            i
        }
    }

    /// The index in the list of the element held by link `l` (the length for the sentinel).
    pub closed spec fn index_of(&self, l: int) -> int {
        if l == 0 {
            self.order@.len() as int
        } else {
            choose|k: int| 0 <= k < self.order@.len() && self.order@[k] == l
        }
    }

    /// The index in the list of the next element that a traversal standing
    /// on link `c` yields; the length when it yields nothing more.
    pub closed spec fn start(&self, c: int) -> int {
        self.index_of(self.resolve(self.next@[c] as int))
    }

    proof fn lemma_index_of(&self, k: int)
        requires
            self.wf(),
            0 <= k < self.order@.len(),
        ensures
            self.index_of(self.order@[k] as int) == k,
    {
        let l = self.order@[k] as int;
        assert(0 <= k < self.order@.len() && self.order@[k] == l);
        let k2 = choose|k2: int| 0 <= k2 < self.order@.len() && self.order@[k2] == l;
        assert(self.order@[k2] == self.order@[k]);
    }

    proof fn lemma_resolve(&self, i: int)
        requires
            self.wf(),
            0 <= i < self.values@.len(),
        ensures
            0 <= self.resolve(i) < self.values@.len(),
            self.resolve(i) == 0 || self.is_live(self.resolve(i)),
        decreases self.measure(i),
    {
        if self.is_erased(i) {
            let j = self.next@[i] as int;
            assert(self.stamp@[i] < self.clock@);
            assert(j < self.values@.len());
            if self.is_erased(j) {
                assert(self.stamp@[j] < self.clock@);
                self.lemma_resolve(j);
            }
            assert(self.measure(j) < self.measure(i));
            assert(self.resolve(i) == self.resolve(j));
        }
    }

    /// The start of a cursor on link `c` is an index of the list or its length.
    proof fn lemma_start(&self, c: int)
        requires
            self.wf(),
            0 <= c < self.values@.len(),
        ensures
            0 <= self.start(c) <= self.order@.len(),
            self.start(c) < self.order@.len() ==> self.order@[self.start(c)] == self.resolve(self.next@[c] as int),
    {
        let r = self.resolve(self.next@[c] as int);
        self.lemma_resolve(self.next@[c] as int);
        if r != 0 {
            let k = choose|k: int| 0 <= k < self.order@.len() && self.order@[k] == r;
            self.lemma_index_of(k);
        }
    }

    /// Creates an empty list.
    pub fn new() -> (r: Self)
        ensures
            r.wf(),
            r@ == Seq::<T>::empty(),
    {
        let mut values: Vec<Option<T>> = Vec::new();
        values.push(None);
        let r = DoublyLinkedList {
            prev: vec![0],
            next: vec![0],
            values,
            length: 0,
            order: Ghost(Seq::empty()),
            stamp: Ghost(Seq::empty().push(0nat)),
            clock: Ghost(0),
        };
        assert(r@ =~= Seq::<T>::empty());
        r
    }

    /// Returns the number of elements.
    pub fn len(&self) -> (r: usize)
        requires
            self.wf(),
        ensures
            r == self@.len(),
    {
        self.length
    }

    /// Returns true if the list holds no element.
    pub fn is_empty(&self) -> (r: bool)
        requires
            self.wf(),
        ensures
            r == (self@.len() == 0),
    {
        self.length == 0
    }

    /// Link `l` holds an element or is the sentinel.
    pub open spec fn is_anchor(&self, l: int) -> bool {
        l == 0 || self.is_live(l)
    }

    /// The starts of all traversals after one element went in at index `q`.
    pub open spec fn starts_after_insert(&self, prior: &Self, q: int) -> bool {
        forall|c: int| #![trigger self.start(c)] 0 <= c < prior.slots() ==> self.start(c) == (
            if q < prior.start(c) || (q == prior.start(c) && prior.is_erased(c)) {
                prior.start(c) + 1
            } else {
                prior.start(c)
            })
    }

    /// The starts of all traversals after the element at index `q` went out.
    pub open spec fn starts_after_remove(&self, prior: &Self, q: int) -> bool {
        forall|c: int| #![trigger self.start(c)] 0 <= c < prior.slots() ==> self.start(c) == (
            if q < prior.start(c) {
                prior.start(c) - 1
            } else {
                prior.start(c)
            })
    }

    /// Every link that held an element in `prior` still holds the same one.
    pub open spec fn elements_kept(&self, prior: &Self) -> bool {
        forall|l: int| #![trigger self.is_live(l)] #![trigger self.element(l)] prior.is_live(l)
            ==> self.is_live(l) && self.element(l) == prior.element(l)
    }

    /// Every link that holds an element held the same one in `prior`, and
    /// every link `prior` held an element in, but `gone`, still holds it.
    pub open spec fn elements_kept_but(&self, prior: &Self, gone: int) -> bool {
        &&& forall|l: int| #![trigger self.is_live(l)] #![trigger self.element(l)] self.is_live(l)
            ==> prior.is_live(l) && self.element(l) == prior.element(l)
        &&& forall|l: int| #![trigger prior.is_live(l)] prior.is_live(l) && l != gone ==> self.is_live(l)
    }

    /// Links keep their state when others change.
    pub open spec fn links_kept(&self, prior: &Self) -> bool {
        &&& prior.slots() <= self.slots()
        &&& forall|l: int| #![trigger self.is_erased(l)] prior.is_erased(l) ==> self.is_erased(l)
    }

    proof fn lemma_resolve_insert(&self, prior: &Self, i: int)
        requires
            prior.wf(),
            self.values@.len() == prior.values@.len() + 1,
            self.clock@ == prior.clock@,
            forall|j: int| 0 <= j < prior.values@.len() ==> (#[trigger] self.values@[j] is Some) == (prior.values@[j] is Some),
            forall|j: int| #![trigger prior.stamp@[j]] prior.is_erased(j) ==> self.stamp@[j] == prior.stamp@[j] && self.next@[j] == prior.next@[j],
            0 <= i < prior.values@.len(),
        ensures
            self.resolve(i) == prior.resolve(i),
        decreases prior.measure(i),
    {
        if prior.is_erased(i) {
            let j = prior.next@[i] as int;
            assert(prior.stamp@[i] < prior.clock@);
            if prior.is_erased(j) {
                assert(prior.stamp@[j] < prior.clock@);
                self.lemma_resolve_insert(prior, j);
            }
            assert(prior.measure(j) < prior.measure(i));
            assert(self.measure(j) < self.measure(i));
            assert(self.is_erased(i));
            assert(self.resolve(i) == self.resolve(j));
            assert(prior.resolve(i) == prior.resolve(j));
        }
    }

    #[verifier::rlimit(60)]
    proof fn lemma_insert_shape(&self, prior: &Self, before: usize, p: usize, m: usize, q: int)
        requires
            prior.wf(),
            prior.is_anchor(before as int),
            q == prior.index_of(before as int),
            0 <= q <= prior.order@.len(),
            q < prior.order@.len() ==> prior.order@[q] == before,
            p == prior.prev@[before as int],
            m == prior.values@.len(),
            self.prev@ == prior.prev@.push(p).update(before as int, m),
            self.next@ == prior.next@.push(before).update(p as int, m),
            self.values@.len() == m + 1,
            self.values@.drop_last() == prior.values@,
            self.values@[m as int] is Some,
            self.length == prior.length + 1,
            self.stamp@ == prior.stamp@.push(0),
            self.clock@ == prior.clock@,
            self.order@ == prior.order@.insert(q, m),
        ensures
            self.wf(),
            self@ == prior@.insert(q, self.values@[m as int]->Some_0),
    {
        let o = prior;
        let value = self.values@[m as int]->Some_0;
            let ord = self.order@;
            assert(0 <= q <= o.order@.len());
            assert(forall|k: int| 0 <= k < q ==> ord[k] == o.order@[k]);
            assert(ord[q] == m);
            assert(forall|k: int| q < k < ord.len() ==> ord[k] == o.order@[k - 1]);
            assert(q > 0 ==> p == o.order@[q - 1]);
            assert(q == 0 ==> p == 0);
            assert(forall|i: int| 0 < i < self.values@.len() && (#[trigger] self.values@[i]) is Some ==> exists|k: int| 0 <= k < ord.len() && ord[k] == i) by {
                assert forall|i: int| 0 < i < self.values@.len() && (#[trigger] self.values@[i]) is Some implies exists|k: int| 0 <= k < ord.len() && ord[k] == i by {
                    if i == m {
                        assert(ord[q] == i);
                    } else {
                        assert(o.values@[i] is Some);
                        let k = choose|k: int| 0 <= k < o.order@.len() && o.order@[k] == i;
                        if k < q {
                            assert(ord[k] == i);
                        } else {
                            assert(ord[k + 1] == i);
                        }
                    }
                }
            }
            let n = self.values@.len();
            assert(forall|k: int| 0 <= k < ord.len() ==> 0 < #[trigger] ord[k] < n && self.values@[ord[k] as int] is Some);
            assert(forall|k1: int, k2: int| 0 <= k1 < ord.len() && 0 <= k2 < ord.len() && k1 != k2 ==> #[trigger] ord[k1] != #[trigger] ord[k2]);
            assert(forall|i: int| 0 <= i < n ==> #[trigger] self.next@[i] < n);
            assert(forall|i: int| 0 <= i < n ==> #[trigger] self.prev@[i] < n);
            assert(self.next@[0] == (if ord.len() == 0 { 0 } else { ord[0] }));
            assert(self.prev@[0] == (if ord.len() == 0 { 0 } else { ord.last() }));
            assert(forall|k: int| 0 <= k < ord.len() ==> #[trigger] self.next@[ord[k] as int] == (if k + 1 < ord.len() { ord[k + 1] } else { 0 }));
            assert(forall|k: int| 0 <= k < ord.len() ==> #[trigger] self.prev@[ord[k] as int] == (if k > 0 { ord[k - 1] } else { 0 }));
            assert(forall|i: int| #![trigger self.stamp@[i]] 0 < i < n && self.values@[i] is None ==> self.stamp@[i] < self.clock@ && ({
                let j = self.next@[i] as int;
                j == 0 || self.values@[j] is Some || self.stamp@[j] > self.stamp@[i]
            }));
            assert(self.wf());
            assert(self@ =~= o@.insert(q, value)) by {
                assert forall|k: int| 0 <= k < self@.len() implies self@[k] == o@.insert(q, value)[k] by {
                    if k < q {
                        assert(ord[k] == o.order@[k]);
                    } else if k > q {
                        assert(ord[k] == o.order@[k - 1]);
                    }
                }
            }
    }

    #[verifier::rlimit(60)]
    proof fn lemma_insert_starts(&self, prior: &Self, before: usize, p: usize, m: usize, q: int)
        requires
            prior.wf(),
            prior.is_anchor(before as int),
            q == prior.index_of(before as int),
            0 <= q <= prior.order@.len(),
            q < prior.order@.len() ==> prior.order@[q] == before,
            p == prior.prev@[before as int],
            m == prior.values@.len(),
            self.prev@ == prior.prev@.push(p).update(before as int, m),
            self.next@ == prior.next@.push(before).update(p as int, m),
            self.values@.len() == m + 1,
            self.values@.drop_last() == prior.values@,
            self.values@[m as int] is Some,
            self.length == prior.length + 1,
            self.stamp@ == prior.stamp@.push(0),
            self.clock@ == prior.clock@,
            self.order@ == prior.order@.insert(q, m),
            self.wf(),
        ensures
            self.starts_after_insert(prior, q),
    {
        let o = prior;
        let ord = self.order@;
            self.lemma_index_of(q);
            assert forall|c: int| #![trigger self.start(c)] 0 <= c < o.slots() implies self.start(c) == (
                if q < o.start(c) || (q == o.start(c) && o.is_erased(c)) {
                    o.start(c) + 1
                } else {
                    o.start(c)
                }) by {
                o.lemma_start(c);
                self.lemma_start(c);
                let j = o.next@[c] as int;
                let r = o.resolve(j);
                o.lemma_resolve(j);
                if o.is_erased(c) {
                    self.lemma_resolve_insert(o, j);
                } else if c == p {
                    assert(self.next@[c] == m);
                    assert(self.resolve(m as int) == m);
                    assert(o.start(c) == q);
                } else {
                    assert(self.next@[c] == j);
                    if c != 0 {
                        let kc = choose|k: int| 0 <= k < o.order@.len() && o.order@[k] == c;
                        if kc < q {
                            assert(ord[kc] == c);
                        } else {
                            assert(ord[kc + 1] == c);
                        }
                    }
                    self.lemma_resolve_insert(o, j);
                }
                if r != 0 {
                    let kr = o.index_of(r);
                    assert(o.order@[kr] == r);
                    if kr < q {
                        assert(ord[kr] == r);
                        self.lemma_index_of(kr);
                    } else {
                        assert(ord[kr + 1] == r);
                        self.lemma_index_of(kr + 1);
                    }
                }
            }
    }

    /// Puts `value` into a new link just before link `before`.
    fn insert_before_link(&mut self, before: usize, value: T) -> (m: usize)
        requires
            old(self).wf(),
            old(self).is_anchor(before as int),
        ensures
            final(self).wf(),
            m == old(self).slots(),
            final(self).slots() == old(self).slots() + 1,
            final(self).is_live(m as int),
            final(self)@ == old(self)@.insert(old(self).index_of(before as int), value),
            final(self).index_of(m as int) == old(self).index_of(before as int),
            final(self).links_kept(old(self)),
            final(self).starts_after_insert(old(self), old(self).index_of(before as int)),
            forall|l: int| #![trigger final(self).is_live(l)] old(self).is_live(l) ==> final(self).is_live(l),
            final(self).elements_kept(old(self)),
    {
        let ghost q = self.index_of(before as int);
        proof {
            if before != 0 {
                let k = choose|k: int| 0 <= k < self.order@.len() && self.order@[k] == before;
                self.lemma_index_of(k);
            }
        }
        let p = self.prev[before];
        let m = self.values.len();
        self.prev.push(p);
        self.next.push(before);
        self.values.push(Some(value));
        self.next[p] = m;
        self.prev[before] = m;
        self.length = self.length + 1;
        self.stamp = Ghost(self.stamp@.push(0));
        self.order = Ghost(self.order@.insert(q, m));
        proof {
            assert(self.values@.drop_last() =~= old(self).values@);
            assert(self.prev@ =~= old(self).prev@.push(p).update(before as int, m));
            assert(self.next@ =~= old(self).next@.push(before).update(p as int, m));
            self.lemma_insert_shape(old(self), before, p, m, q);
            self.lemma_index_of(q);
            self.lemma_insert_starts(old(self), before, p, m, q);
            assert forall|l: int| #![trigger self.is_live(l)] #![trigger self.element(l)] old(self).is_live(l)
                implies self.is_live(l) && self.element(l) == old(self).element(l) by {
                assert(self.values@[l] == old(self).values@[l]);
            }
        }
        m
    }

    proof fn lemma_resolve_erase(&self, prior: &Self, x: usize, nx: usize, i: int)
        requires
            prior.wf(),
            prior.is_live(x as int),
            nx == prior.next@[x as int],
            nx == 0 || prior.is_live(nx as int),
            nx != x,
            self.next@.len() == prior.next@.len(),
            forall|j: int| 0 <= j < prior.next@.len() && prior.is_erased(j) ==> #[trigger] self.next@[j] == prior.next@[j],
            self.next@[x as int] == nx,
            self.values@ == prior.values@.update(x as int, None),
            self.stamp@ == prior.stamp@.update(x as int, prior.clock@),
            self.clock@ == prior.clock@ + 1,
            prior.is_erased(i),
        ensures
            self.resolve(i) == (if prior.resolve(i) == x { nx as int } else { prior.resolve(i) }),
        decreases prior.measure(i),
    {
        let j = prior.next@[i] as int;
        assert(prior.stamp@[i] < prior.clock@);
        assert(self.next@[i] == j);
        assert(self.is_erased(i));
        assert(self.measure(i) == prior.measure(i) + 1);
        if prior.is_erased(j) {
            assert(prior.stamp@[j] < prior.clock@);
            self.lemma_resolve_erase(prior, x, nx, j);
            assert(self.measure(j) < self.measure(i));
            assert(self.resolve(i) == self.resolve(j));
            assert(prior.measure(j) < prior.measure(i));
            assert(prior.resolve(i) == prior.resolve(j));
        } else if j == x {
            assert(self.measure(j) == 1);
            assert(self.resolve(i) == self.resolve(j));
            assert(self.measure(nx as int) == 0);
            assert(self.resolve(j) == self.resolve(nx as int));
            assert(prior.resolve(i) == prior.resolve(j));
        } else {
            assert(self.resolve(i) == self.resolve(j));
            assert(prior.resolve(i) == prior.resolve(j));
        }
    }

    #[verifier::rlimit(60)]
    proof fn lemma_erase_shape(&self, prior: &Self, x: usize, p: usize, nx: usize, q: int)
        requires
            prior.wf(),
            prior.is_live(x as int),
            0 <= q < prior.order@.len(),
            prior.order@[q] == x,
            p == prior.prev@[x as int],
            nx == prior.next@[x as int],
            self.next@ == prior.next@.update(p as int, nx),
            self.prev@ == prior.prev@.update(nx as int, p),
            self.values@ == prior.values@.update(x as int, None),
            self.stamp@ == prior.stamp@.update(x as int, prior.clock@),
            self.clock@ == prior.clock@ + 1,
            self.order@ == prior.order@.remove(q),
            self.length == prior.length - 1,
        ensures
            self.wf(),
            self@ == prior@.remove(q),
    {
        let o = prior;
        let ord = self.order@;
        let n = self.values@.len();
        assert(forall|k: int| 0 <= k < q ==> ord[k] == o.order@[k]);
        assert(forall|k: int| q <= k < ord.len() ==> ord[k] == o.order@[k + 1]);
        assert(q > 0 ==> p == o.order@[q - 1]);
        assert(q == 0 ==> p == 0);
        assert(q + 1 < o.order@.len() ==> nx == o.order@[q + 1]);
        assert(q + 1 == o.order@.len() ==> nx == 0);
        assert(forall|k: int| 0 <= k < ord.len() ==> #[trigger] ord[k] != x);
        assert(forall|k: int| 0 <= k < ord.len() ==> 0 < #[trigger] ord[k] < n && self.values@[ord[k] as int] is Some);
        assert(forall|k1: int, k2: int| 0 <= k1 < ord.len() && 0 <= k2 < ord.len() && k1 != k2 ==> #[trigger] ord[k1] != #[trigger] ord[k2]);
        assert forall|i: int| 0 < i < n && (#[trigger] self.values@[i]) is Some implies exists|k: int| 0 <= k < ord.len() && ord[k] == i by {
            assert(o.values@[i] is Some);
            let k = choose|k: int| 0 <= k < o.order@.len() && o.order@[k] == i;
            if k < q {
                assert(ord[k] == i);
            } else {
                assert(k != q);
                assert(ord[k - 1] == i);
            }
        }
        assert(forall|i: int| 0 <= i < n ==> #[trigger] self.next@[i] < n);
        assert(forall|i: int| 0 <= i < n ==> #[trigger] self.prev@[i] < n);
        assert(self.next@[0] == (if ord.len() == 0 { 0 } else { ord[0] }));
        assert(self.prev@[0] == (if ord.len() == 0 { 0 } else { ord.last() }));
        assert(forall|k: int| 0 <= k < ord.len() ==> #[trigger] self.next@[ord[k] as int] == (if k + 1 < ord.len() { ord[k + 1] } else { 0 }));
        assert(forall|k: int| 0 <= k < ord.len() ==> #[trigger] self.prev@[ord[k] as int] == (if k > 0 { ord[k - 1] } else { 0 }));
        assert forall|i: int| #![trigger self.stamp@[i]] 0 < i < n && self.values@[i] is None implies self.stamp@[i] < self.clock@ && ({
            let j = self.next@[i] as int;
            j == 0 || self.values@[j] is Some || self.stamp@[j] > self.stamp@[i]
        }) by {
            if i != x {
                assert(o.values@[i] is None);
                assert(i != p);
                assert(o.stamp@[i] < o.clock@);
            }
        }
        assert(self.wf());
        assert(self@ =~= o@.remove(q)) by {
            assert forall|k: int| 0 <= k < self@.len() implies self@[k] == o@.remove(q)[k] by {
                if k < q {
                    assert(ord[k] == o.order@[k]);
                } else {
                    assert(ord[k] == o.order@[k + 1]);
                }
            }
        }
    }

    #[verifier::rlimit(60)]
    proof fn lemma_erase_starts(&self, prior: &Self, x: usize, p: usize, nx: usize, q: int)
        requires
            prior.wf(),
            prior.is_live(x as int),
            0 <= q < prior.order@.len(),
            prior.order@[q] == x,
            p == prior.prev@[x as int],
            nx == prior.next@[x as int],
            self.next@ == prior.next@.update(p as int, nx),
            self.prev@ == prior.prev@.update(nx as int, p),
            self.values@ == prior.values@.update(x as int, None),
            self.stamp@ == prior.stamp@.update(x as int, prior.clock@),
            self.clock@ == prior.clock@ + 1,
            self.order@ == prior.order@.remove(q),
            self.length == prior.length - 1,
            self.wf(),
        ensures
            self.starts_after_remove(prior, q),
    {
        let o = prior;
        let ord = self.order@;
        assert(forall|k: int| 0 <= k < q ==> ord[k] == o.order@[k]);
        assert(forall|k: int| q <= k < ord.len() ==> ord[k] == o.order@[k + 1]);
        assert(q > 0 ==> p == o.order@[q - 1]);
        assert(q == 0 ==> p == 0);
        assert(q + 1 < o.order@.len() ==> nx == o.order@[q + 1]);
        assert(q + 1 == o.order@.len() ==> nx == 0);
        assert(nx == 0 || o.is_live(nx as int));
        assert(nx != x);
        // where the element after the removed one now stands
        assert(self.resolve(nx as int) == nx);
        if nx != 0 {
            self.lemma_index_of(q);
        }
        assert(self.index_of(nx as int) == q);
        assert forall|c: int| #![trigger self.start(c)] 0 <= c < o.slots() implies self.start(c) == (
            if q < o.start(c) {
                o.start(c) - 1
            } else {
                o.start(c)
            }) by {
            o.lemma_start(c);
            self.lemma_start(c);
            let j = o.next@[c] as int;
            let r = o.resolve(j);
            o.lemma_resolve(j);
            if c == x as int {
                assert(self.next@[c] == nx);
                o.lemma_index_of(q);
                if nx != 0 {
                    o.lemma_index_of(q + 1);
                }
                assert(o.start(c) == q + 1);
            } else if c == p as int {
                assert(self.next@[c] == nx);
                assert(j == x);
                o.lemma_index_of(q);
                assert(o.start(c) == q);
            } else {
                assert(self.next@[c] == j);
                if o.is_erased(j) {
                    self.lemma_resolve_erase(o, x, nx, j);
                } else if j == x {
                    assert(o.is_erased(c));
                    assert(self.measure(nx as int) == 0);
                    assert(self.resolve(j) == self.resolve(nx as int));
                    o.lemma_index_of(q);
                } else {
                    assert(self.resolve(j) == j);
                }
                if r != 0 && r != x {
                    let kr = o.index_of(r);
                    assert(o.order@[kr] == r);
                    if kr < q {
                        assert(ord[kr] == r);
                        self.lemma_index_of(kr);
                    } else {
                        assert(kr != q);
                        assert(ord[kr - 1] == r);
                        self.lemma_index_of(kr - 1);
                    }
                }
            }
        }
    }

    /// Takes the element out of link `x`, which stays behind, emptied.
    fn erase_link(&mut self, x: usize) -> (r: T)
        requires
            old(self).wf(),
            old(self).is_live(x as int),
        ensures
            final(self).wf(),
            r == old(self)@[old(self).index_of(x as int)],
            final(self)@ == old(self)@.remove(old(self).index_of(x as int)),
            final(self).slots() == old(self).slots(),
            final(self).is_erased(x as int),
            final(self).links_kept(old(self)),
            final(self).starts_after_remove(old(self), old(self).index_of(x as int)),
            forall|l: int| #![trigger final(self).is_live(l)] l != x ==> final(self).is_live(l) == old(self).is_live(l),
            final(self).elements_kept_but(old(self), x as int),
    {
        let ghost q = self.index_of(x as int);
        proof {
            let k = choose|k: int| 0 <= k < self.order@.len() && self.order@[k] == x;
            self.lemma_index_of(k);
        }
        let p = self.prev[x];
        let nx = self.next[x];
        self.next[p] = nx;
        self.prev[nx] = p;
        let v = self.values[x].take();
        self.length = self.length - 1;
        self.stamp = Ghost(self.stamp@.update(x as int, self.clock@));
        self.clock = Ghost(self.clock@ + 1);
        self.order = Ghost(self.order@.remove(q));
        proof {
            let o = old(self);
            assert(self.next@ =~= o.next@.update(p as int, nx));
            assert(self.prev@ =~= o.prev@.update(nx as int, p));
            assert(self.values@ =~= o.values@.update(x as int, None));
            self.lemma_erase_shape(o, x, p, nx, q);
            self.lemma_erase_starts(o, x, p, nx, q);
            assert forall|l: int| #![trigger self.is_live(l)] #![trigger self.element(l)] self.is_live(l)
                implies o.is_live(l) && self.element(l) == o.element(l) by {
                assert(self.values@[l] == o.values@[l]);
            }
        }
        v.unwrap()
    }

    /// The element held by live link `l`.
    pub closed spec fn element(&self, l: int) -> T {
        self.values@[l]->Some_0
    }

    proof fn lemma_element(&self, l: int)
        requires
            self.wf(),
            self.is_live(l),
        ensures
            0 <= self.index_of(l) < self@.len(),
            self@[self.index_of(l)] == self.element(l),
            self.order@[self.index_of(l)] == l,
    {
        let k = choose|k: int| 0 <= k < self.order@.len() && self.order@[k] == l;
        self.lemma_index_of(k);
    }

    /// Appends an element at the back.
    pub fn push_back(&mut self, value: T)
        requires
            old(self).wf(),
        ensures
            final(self).wf(),
            final(self)@ == old(self)@.push(value),
            final(self).links_kept(old(self)),
            final(self).elements_kept(old(self)),
            final(self).starts_after_insert(old(self), old(self)@.len() as int),
    {
        self.insert_before_link(0, value);
        proof {
            assert(old(self)@.insert(old(self)@.len() as int, value) =~= old(self)@.push(value));
        }
    }

    /// Puts an element at the front.
    pub fn push_front(&mut self, value: T)
        requires
            old(self).wf(),
        ensures
            final(self).wf(),
            final(self)@ == old(self)@.insert(0, value),
            final(self).links_kept(old(self)),
            final(self).elements_kept(old(self)),
            final(self).starts_after_insert(old(self), 0),
    {
        let first = self.next[0];
        proof {
            if first != 0 {
                self.lemma_index_of(0);
            }
        }
        self.insert_before_link(first, value);
    }

    /// Removes and returns the element at the back, or `None` if the list is empty.
    pub fn pop_back(&mut self) -> (r: Option<T>)
        requires
            old(self).wf(),
        ensures
            final(self).wf(),
            final(self).links_kept(old(self)),
            old(self)@.len() == 0 ==> r is None && final(self)@ == old(self)@,
            old(self)@.len() > 0 ==> r == Some(old(self)@.last()) && final(self)@ == old(self)@.drop_last()
                && final(self).starts_after_remove(old(self), old(self)@.len() - 1),
            forall|l: int| #![trigger final(self).is_live(l)] #![trigger final(self).element(l)] final(self).is_live(l)
                ==> old(self).is_live(l) && final(self).element(l) == old(self).element(l),
    {
        if self.length == 0 {
            return None;
        }
        let last = self.prev[0];
        proof {
            self.lemma_index_of(self.order@.len() - 1);
        }
        let v = self.erase_link(last);
        proof {
            assert(old(self)@.remove(old(self)@.len() - 1) =~= old(self)@.drop_last());
        }
        Some(v)
    }

    /// Removes and returns the element at the front, or `None` if the list is empty.
    pub fn pop_front(&mut self) -> (r: Option<T>)
        requires
            old(self).wf(),
        ensures
            final(self).wf(),
            final(self).links_kept(old(self)),
            old(self)@.len() == 0 ==> r is None && final(self)@ == old(self)@,
            old(self)@.len() > 0 ==> r == Some(old(self)@[0]) && final(self)@ == old(self)@.drop_first()
                && final(self).starts_after_remove(old(self), 0),
            forall|l: int| #![trigger final(self).is_live(l)] #![trigger final(self).element(l)] final(self).is_live(l)
                ==> old(self).is_live(l) && final(self).element(l) == old(self).element(l),
    {
        if self.length == 0 {
            return None;
        }
        let first = self.next[0];
        proof {
            self.lemma_index_of(0);
        }
        let v = self.erase_link(first);
        proof {
            assert(old(self)@.remove(0) =~= old(self)@.drop_first());
        }
        Some(v)
    }

    /// Returns the element at the front, if any.
    pub fn front(&self) -> (r: Option<&T>)
        requires
            self.wf(),
        ensures
            self@.len() == 0 ==> r is None,
            self@.len() > 0 ==> r is Some && *r->Some_0 == self@[0],
    {
        let first = self.next[0];
        proof {
            if self.length > 0 {
                self.lemma_index_of(0);
            }
        }
        self.values[first].as_ref()
    }

    /// Returns the element at the back, if any.
    pub fn back(&self) -> (r: Option<&T>)
        requires
            self.wf(),
        ensures
            self@.len() == 0 ==> r is None,
            self@.len() > 0 ==> r is Some && *r->Some_0 == self@.last(),
    {
        let last = self.prev[0];
        proof {
            if self.length > 0 {
                self.lemma_index_of(self.order@.len() - 1);
            }
        }
        self.values[last].as_ref()
    }

    /// Removes every element.
    pub fn clear(&mut self)
        requires
            old(self).wf(),
        ensures
            final(self).wf(),
            final(self)@.len() == 0,
            final(self).links_kept(old(self)),
    {
        loop
            invariant
                self.wf(),
                self.links_kept(old(self)),
            ensures
                self.wf(),
                self@.len() == 0,
                self.links_kept(old(self)),
            decreases self@.len(),
        {
            let r = self.pop_front();
            if r.is_none() {
                break;
            }
        }
    }

    /// Returns true if link `l` holds an element.
    pub fn is_linked(&self, l: usize) -> (r: bool)
        requires
            self.wf(),
        ensures
            r == self.is_live(l as int),
    {
        l != 0 && l < self.values.len() && self.values[l].is_some()
    }

    /// Returns the element held by link `l`, if it holds one.
    pub fn get(&self, l: usize) -> (r: Option<&T>)
        requires
            self.wf(),
        ensures
            self.is_live(l as int) ==> r is Some && *r->Some_0 == self.element(l as int),
            !self.is_live(l as int) ==> r is None,
    {
        if l < self.values.len() {
            self.values[l].as_ref()
        } else {
            None
        }
    }

    /// Returns the element held by live link `l` for change in place.
    pub fn get_mut(&mut self, l: usize) -> (r: &mut T)
        requires
            old(self).wf(),
            old(self).is_live(l as int),
        ensures
            *r == old(self).element(l as int),
            final(self).wf(),
            final(self).element(l as int) == *final(r),
            final(self)@ == old(self)@.update(old(self).index_of(l as int), *final(r)),
            final(self)@.len() == old(self)@.len(),
            final(self).slots() == old(self).slots(),
            final(self).links_kept(old(self)),
            forall|k: int| #![trigger final(self).is_live(k)] final(self).is_live(k) == old(self).is_live(k),
            forall|k: int| #![trigger final(self).element(k)] old(self).is_live(k) && k != l ==> final(self).element(k) == old(self).element(k),
    {
        proof {
            self.lemma_element(l as int);
        }
        self.values[l].as_mut().unwrap()
    }

    /// Starts a traversal at the front.
    pub fn iter(&self) -> (r: Iter)
        requires
            self.wf(),
        ensures
            r.at() == 0,
            r.at() < self.slots(),
            self.start(0) == 0,
    {
        proof {
            if self.length > 0 {
                self.lemma_index_of(0);
            }
        }
        Iter { current: 0 }
    }

    /// Puts an element just after live link `l` (after the sentinel: at the front)
    /// and returns its link.
    pub fn insert_after(&mut self, l: usize, value: T) -> (m: usize)
        requires
            old(self).wf(),
            old(self).is_anchor(l as int),
        ensures
            final(self).wf(),
            final(self).is_live(m as int),
            final(self)@ == old(self)@.insert(old(self).start(l as int), value),
            final(self).element(m as int) == value,
            final(self).index_of(m as int) == old(self).start(l as int),
            final(self).links_kept(old(self)),
            final(self).elements_kept(old(self)),
            final(self).starts_after_insert(old(self), old(self).start(l as int)),
    {
        let nx = self.next[l];
        proof {
            self.lemma_start(l as int);
            self.lemma_resolve(nx as int);
        }
        let m = self.insert_before_link(nx, value);
        proof {
            self.lemma_element(m as int);
        }
        m
    }

    /// Puts an element just before live link `l` (before the sentinel: at the back)
    /// and returns its link.
    pub fn insert_before(&mut self, l: usize, value: T) -> (m: usize)
        requires
            old(self).wf(),
            old(self).is_anchor(l as int),
        ensures
            final(self).wf(),
            final(self).is_live(m as int),
            final(self)@ == old(self)@.insert(old(self).index_of(l as int), value),
            final(self).element(m as int) == value,
            final(self).index_of(m as int) == old(self).index_of(l as int),
            final(self).links_kept(old(self)),
            final(self).elements_kept(old(self)),
            final(self).starts_after_insert(old(self), old(self).index_of(l as int)),
    {
        let m = self.insert_before_link(l, value);
        proof {
            self.lemma_element(m as int);
        }
        m
    }

    /// What a traversal still has to yield: the elements from its start on.
    pub open spec fn remaining(&self, c: int) -> Seq<T> {
        self@.subrange(self.start(c), self@.len() as int)
    }

    /// A traversal that stands on an element (or on the sentinel) sees an
    /// element put in after its position later on, and does not see one put
    /// in before it.
    pub proof fn lemma_insert_visibility(before: &Self, after: &Self, c: int, q: int, value: T)
        requires
            before.wf(),
            after.wf(),
            before.is_anchor(c),
            0 <= q <= before@.len(),
            after@ == before@.insert(q, value),
            after.starts_after_insert(before, q),
        ensures
            q >= before.start(c) ==> after.remaining(c) == before.remaining(c).insert(q - before.start(c), value),
            q < before.start(c) ==> after.remaining(c) == before.remaining(c),
    {
        before.lemma_start(c);
        let s = before.start(c);
        if q >= s {
            assert(after.start(c) == s);
            assert(after.remaining(c) =~= before.remaining(c).insert(q - s, value));
        } else {
            assert(after.start(c) == s + 1);
            assert(after.remaining(c) =~= before.remaining(c));
        }
    }

    /// A traversal does not see an element removed after its position, and
    /// goes on as before when one before its position is removed.
    pub proof fn lemma_remove_visibility(before: &Self, after: &Self, c: int, q: int)
        requires
            before.wf(),
            after.wf(),
            0 <= c < before.slots(),
            0 <= q < before@.len(),
            after@ == before@.remove(q),
            after.starts_after_remove(before, q),
        ensures
            q >= before.start(c) ==> after.remaining(c) == before.remaining(c).remove(q - before.start(c)),
            q < before.start(c) ==> after.remaining(c) == before.remaining(c),
    {
        before.lemma_start(c);
        let s = before.start(c);
        if q >= s {
            assert(after.start(c) == s);
            assert(after.remaining(c) =~= before.remaining(c).remove(q - s));
        } else {
            assert(after.start(c) == s - 1);
            assert(after.remaining(c) =~= before.remaining(c));
        }
    }

    /// The sentinel stands after the last element.
    pub proof fn lemma_sentinel_index(&self)
        requires
            self.wf(),
        ensures
            self.index_of(0) == self@.len(),
    {
    }

    /// A traversal from the sentinel starts at the front.
    pub proof fn lemma_front_start(&self)
        requires
            self.wf(),
        ensures
            self.start(0) == 0,
    {
        if self.length > 0 {
            self.lemma_index_of(0);
        }
    }

    /// Takes the element out of link `l`; `None` if the link holds none.
    pub fn remove(&mut self, l: usize) -> (r: Option<T>)
        requires
            old(self).wf(),
        ensures
            final(self).wf(),
            final(self).links_kept(old(self)),
            !old(self).is_live(l as int) ==> r is None && *final(self) == *old(self),
            old(self).is_live(l as int) ==> r == Some(old(self).element(l as int))
                && final(self)@ == old(self)@.remove(old(self).index_of(l as int))
                && final(self).starts_after_remove(old(self), old(self).index_of(l as int))
                && !final(self).is_live(l as int),
            forall|k: int| k != l ==> #[trigger] final(self).is_live(k) == old(self).is_live(k),
            forall|k: int| #![trigger final(self).element(k)] final(self).is_live(k) ==> final(self).element(k) == old(self).element(k),
            final(self).slots() == old(self).slots(),
    {
        if !self.is_linked(l) {
            return None;
        }
        proof {
            self.lemma_element(l as int);
        }
        let v = self.erase_link(l);
        Some(v)
    }
}

impl Iter {
    /// The link the traversal stands on.
    pub closed spec fn at(&self) -> int {
        self.current as int
    }

    /// Returns the link the traversal stands on.
    pub fn link(&self) -> (r: usize)
        ensures
            r == self.at(),
    {
        self.current
    }

    /// Yields the next element of `list` after the link the traversal stands
    /// on, skipping links emptied since, and moves onto its link.
    pub fn next<'a, T>(&mut self, list: &'a DoublyLinkedList<T>) -> (r: Option<&'a T>)
        requires
            list.wf(),
            old(self).at() < list.slots(),
        ensures
            0 <= final(self).at() < list.slots(),
            0 <= list.start(old(self).at()) <= list@.len(),
            r is None ==> list.start(old(self).at()) == list@.len() && list.start(final(self).at()) == list@.len(),
            r is Some ==> list.start(old(self).at()) < list@.len()
                && *r->Some_0 == list@[list.start(old(self).at())]
                && list.is_live(final(self).at())
                && list.start(final(self).at()) == list.start(old(self).at()) + 1,
    {
        let mut cur = self.current;
        let ghost s0 = list.start(cur as int);
        proof {
            list.lemma_start(cur as int);
            assert(s0 == list.start(old(self).at()));
        }
        loop
            invariant
                list.wf(),
                cur < list.slots(),
                list.start(cur as int) == s0,
                s0 == list.start(old(self).at()),
                0 <= s0 <= list@.len(),
            decreases list.measure(list.next@[cur as int] as int),
        {
            let nx = list.next[cur];
            if nx == 0 {
                self.current = cur;
                return None;
            }
            if list.values[nx].is_some() {
                self.current = nx;
                proof {
                    list.lemma_element(nx as int);
                    let k = list.index_of(nx as int);
                    if k + 1 < list.order@.len() {
                        list.lemma_index_of(k + 1);
                    }
                    list.lemma_start(nx as int);
                }
                return list.values[nx].as_ref();
            }
            proof {
                let j = list.next@[nx as int] as int;
                assert(list.stamp@[nx as int] < list.clock@);
                if list.is_erased(j) {
                    assert(list.stamp@[j] < list.clock@);
                }
                assert(list.measure(j) < list.measure(nx as int));
                assert(list.resolve(nx as int) == list.resolve(j));
            }
            cur = nx;
        }
    }
}

/// One of the end operations of a list.
pub enum EndOp<T> {
    PushBack(T),
    PushFront(T),
    PopBack,
    PopFront,
}

/// What an end operation does to the elements, as its function states it.
pub open spec fn end_op_effect<T>(before: Seq<T>, op: EndOp<T>, after: Seq<T>) -> bool {
    match op {
        EndOp::PushBack(v) => after == before.push(v),
        EndOp::PushFront(v) => after == before.insert(0, v),
        EndOp::PopBack => if before.len() == 0 { after == before } else { after == before.drop_last() },
        EndOp::PopFront => if before.len() == 0 { after == before } else { after == before.drop_first() },
    }
}

/// Pushes minus the pops that found an element, over the first `n` operations.
pub open spec fn net_pushes<T>(states: Seq<Seq<T>>, ops: Seq<EndOp<T>>, n: nat) -> int
    decreases n,
{
    if n == 0 {
        0
    } else {
        let i = n - 1;
        net_pushes(states, ops, (n - 1) as nat) + match ops[i] {
            EndOp::PushBack(_) => 1int,
            EndOp::PushFront(_) => 1int,
            _ => if states[i].len() > 0 { -1int } else { 0int },
        }
    }
}

/// Over any run of end operations, the number of elements is what it was
/// plus the pushes minus the pops that found an element.
pub proof fn lemma_end_ops_count<T>(states: Seq<Seq<T>>, ops: Seq<EndOp<T>>)
    requires
        states.len() == ops.len() + 1,
        forall|i: int| 0 <= i < ops.len() ==> end_op_effect(states[i], #[trigger] ops[i], states[i + 1]),
    ensures
        states.last().len() == states[0].len() + net_pushes(states, ops, ops.len()),
    decreases ops.len(),
{
    if ops.len() > 0 {
        let n = ops.len() - 1;
        let s2 = states.drop_last();
        let o2 = ops.drop_last();
        assert forall|i: int| 0 <= i < o2.len() implies end_op_effect(s2[i], #[trigger] o2[i], s2[i + 1]) by {
            assert(o2[i] == ops[i]);
            assert(s2[i] == states[i] && s2[i + 1] == states[i + 1]);
        }
        lemma_end_ops_count(s2, o2);
        assert forall|k: nat| k <= n implies #[trigger] net_pushes(s2, o2, k) == net_pushes(states, ops, k) by {
            lemma_net_pushes_prefix(states, ops, s2, o2, k);
        }
        assert(end_op_effect(states[n], ops[n], states[n + 1]));
        assert(s2.last() == states[n]);
    }
}

/// The values pushed at the back by the first `n` operations, in order.
pub open spec fn pushed_back<T>(ops: Seq<EndOp<T>>, n: nat) -> Seq<T>
    decreases n,
{
    if n == 0 {
        Seq::empty()
    } else {
        match ops[n - 1] {
            EndOp::PushBack(v) => pushed_back(ops, (n - 1) as nat).push(v),
            _ => pushed_back(ops, (n - 1) as nat),
        }
    }
}

/// The pops at the front that found an element, among the first `n` operations.
pub open spec fn popped_front<T>(states: Seq<Seq<T>>, ops: Seq<EndOp<T>>, n: nat) -> nat
    decreases n,
{
    if n == 0 {
        0
    } else {
        popped_front(states, ops, (n - 1) as nat) + match ops[n - 1] {
            EndOp::PopFront => if states[n - 1].len() > 0 { 1nat } else { 0nat },
            _ => 0nat,
        }
    }
}

/// Used as a queue from empty (pushes at the back, pops at the front), a
/// list holds the pushed values not yet popped, oldest first: `front`
/// returns the oldest surviving value and `back` the newest.
pub proof fn lemma_queue_order<T>(states: Seq<Seq<T>>, ops: Seq<EndOp<T>>, n: nat)
    requires
        states.len() == ops.len() + 1,
        states[0].len() == 0,
        n <= ops.len(),
        forall|i: int| 0 <= i < ops.len() ==> end_op_effect(states[i], #[trigger] ops[i], states[i + 1]),
        forall|i: int| 0 <= i < ops.len() ==> (#[trigger] ops[i] is PushBack || ops[i] is PopFront),
    ensures
        popped_front(states, ops, n) <= pushed_back(ops, n).len(),
        states[n as int] == pushed_back(ops, n).subrange(popped_front(states, ops, n) as int, pushed_back(ops, n).len() as int),
    decreases n,
{
    if n == 0 {
        assert(states[0] =~= Seq::<T>::empty());
        assert(pushed_back(ops, 0).subrange(0, 0) =~= Seq::<T>::empty());
    } else {
        let k = (n - 1) as nat;
        lemma_queue_order(states, ops, k);
        let pk = pushed_back(ops, k);
        let ck = popped_front(states, ops, k);
        assert(end_op_effect(states[k as int], ops[k as int], states[n as int]));
        assert(ops[k as int] is PushBack || ops[k as int] is PopFront);
        match ops[k as int] {
            EndOp::PushBack(v) => {
                assert(states[n as int] =~= pk.push(v).subrange(ck as int, (pk.len() + 1) as int));
            },
            _ => {
                if states[k as int].len() > 0 {
                    assert(states[n as int] =~= pk.subrange((ck + 1) as int, pk.len() as int));
                }
            },
        }
    }
}

proof fn lemma_net_pushes_prefix<T>(states: Seq<Seq<T>>, ops: Seq<EndOp<T>>, s2: Seq<Seq<T>>, o2: Seq<EndOp<T>>, k: nat)
    requires
        s2 == states.drop_last(),
        o2 == ops.drop_last(),
        states.len() == ops.len() + 1,
        k < ops.len(),
    ensures
        net_pushes(s2, o2, k) == net_pushes(states, ops, k),
    decreases k,
{
    if k > 0 {
        lemma_net_pushes_prefix(states, ops, s2, o2, (k - 1) as nat);
        assert(o2[k - 1] == ops[k - 1]);
        assert(s2[k - 1] == states[k - 1]);
    }
}

impl<T> Default for DoublyLinkedList<T> {
    fn default() -> (r: Self)
        ensures
            r.wf(),
            r@ == Seq::<T>::empty(),
    {
        DoublyLinkedList::new()
    }
}

} // verus!
