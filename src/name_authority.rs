//! Names for values and nodes that do not clash with names already taken.
//!
//! Generated names are `val_<n>` for values and `node_<op>_<n>` for nodes,
//! where `<n>` is a counter that only moves forward. A name once taken stays
//! taken until the authority is cleared.
use crate::text::{decimal, lemma_numbered_concat, lemma_numbered_unique, numbered, push_decimal, str_eq};
use vstd::prelude::*;
use vstd::set_lib::{lemma_int_range, lemma_len_subset, set_int_range};
use vstd::string::StringExecFns;

verus! {

broadcast use vstd::seq_lib::seq_to_set_is_finite;

/// The generated name of value number `c`.
pub open spec fn value_name_for(c: nat) -> Seq<char> {
    "val_"@ + decimal(c)
}

/// The generated name of node number `c` with operator `op`.
pub open spec fn node_name_for(op: Seq<char>, c: nat) -> Seq<char> {
    "node_"@ + op + "_"@ + decimal(c)
}

/// Some name of `names` ends with `_` and the number `c`.
pub open spec fn has_numbered(names: Seq<Seq<char>>, c: nat) -> bool {
    exists|i: int| 0 <= i < names.len() && numbered(names[i], c)
}

spec fn hits(names: Seq<Seq<char>>, k: nat) -> Set<int>
    decreases k,
{
    if k == 0 {
        Set::empty()
    } else {
        hits(names, (k - 1) as nat).insert(choose|i: int| 0 <= i < names.len() && numbered(names[i], (k - 1) as nat))
    }
}

proof fn lemma_hits(names: Seq<Seq<char>>, k: nat)
    requires
        forall|c: nat| c < k ==> #[trigger] has_numbered(names, c),
    ensures
        hits(names, k).finite(),
        hits(names, k).len() == k,
        forall|i: int| #[trigger] hits(names, k).contains(i) ==> 0 <= i < names.len()
            && exists|c: nat| c < k && numbered(names[i], c),
    decreases k,
{
    if k > 0 {
        let c = (k - 1) as nat;
        assert(has_numbered(names, c));
        lemma_hits(names, c);
        let j = choose|i: int| 0 <= i < names.len() && numbered(names[i], c);
        if hits(names, c).contains(j) {
            let c2 = choose|c2: nat| c2 < c && numbered(names[j], c2);
            lemma_numbered_unique(names[j], c, c2);
        }
        assert forall|i: int| #[trigger] hits(names, k).contains(i) implies 0 <= i < names.len()
            && exists|c3: nat| c3 < k && numbered(names[i], c3) by {
            if i != j {
                assert(hits(names, c).contains(i));
            }
        }
    }
}

/// If every count below `k` numbers some name, there are at least `k` names.
proof fn lemma_count_bound(names: Seq<Seq<char>>, k: nat)
    requires
        forall|c: nat| c < k ==> #[trigger] has_numbered(names, c),
    ensures
        k <= names.len(),
{
    lemma_hits(names, k);
    lemma_int_range(0, names.len() as int);
    assert(hits(names, k).subset_of(set_int_range(0, names.len() as int)));
    lemma_len_subset(hits(names, k), set_int_range(0, names.len() as int));
}

proof fn lemma_push_to_set(s: Seq<Seq<char>>, x: Seq<char>)
    ensures
        s.push(x).to_set() == s.to_set().insert(x),
{
    assert forall|a: Seq<char>| #[trigger] s.push(x).to_set().contains(a) == s.to_set().insert(x).contains(a) by {
        if s.push(x).contains(a) && a != x {
            let i = choose|i: int| 0 <= i < s.len() + 1 && s.push(x)[i] == a;
            assert(s[i] == a);
        }
        if s.contains(a) {
            let i = choose|i: int| 0 <= i < s.len() && s[i] == a;
            assert(s.push(x)[i] == a);
        }
        if a == x {
            assert(s.push(x)[s.len() as int] == a);
        }
    }
    assert(s.push(x).to_set() =~= s.to_set().insert(x));
}

/// A set of distinct names.
struct Names {
    list: Vec<String>,
}

impl Names {
    spec fn seq(&self) -> Seq<Seq<char>> {
        self.list@.map_values(|s: String| s@)
    }

    spec fn wf(&self) -> bool {
        self.seq().no_duplicates()
    }

    fn new() -> (r: Self)
        ensures
            r.wf(),
            r.seq().len() == 0,
    {
        let r = Names { list: Vec::new() };
        assert(r.seq() =~= Seq::<Seq<char>>::empty());
        r
    }

    fn contains(&self, s: &str) -> (r: bool)
        ensures
            r == self.seq().contains(s@),
    {
        let mut i: usize = 0;
        while i < self.list.len()
            invariant
                i <= self.list@.len(),
                forall|j: int| 0 <= j < i ==> #[trigger] self.seq()[j] != s@,
            decreases self.list@.len() - i,
        {
            if str_eq(self.list[i].as_str(), s) {
                assert(self.seq()[i as int] == s@);
                return true;
            }
            i = i + 1;
        }
        false
    }

    fn insert(&mut self, s: String) -> (r: bool)
        requires
            old(self).wf(),
        ensures
            final(self).wf(),
            r == !old(self).seq().contains(s@),
            r ==> final(self).seq() == old(self).seq().push(s@),
            !r ==> final(self).seq() == old(self).seq(),
    {
        if self.contains(s.as_str()) {
            return false;
        }
        let ghost v = s@;
        self.list.push(s);
        proof {
            assert(self.seq() =~= old(self).seq().push(v));
        }
        true
    }

    fn len(&self) -> (r: usize)
        ensures
            r == self.seq().len(),
    {
        self.list.len()
    }
}

/// Hands out names for values and nodes, never one already taken.
pub struct NameAuthority {
    value_counter: usize,
    node_counter: usize,
    value_names: Names,
    node_names: Names,
}

impl NameAuthority {
    /// The value names taken.
    pub closed spec fn value_names(&self) -> Set<Seq<char>> {
        self.value_names.seq().to_set()
    }

    /// The node names taken.
    pub closed spec fn node_names(&self) -> Set<Seq<char>> {
        self.node_names.seq().to_set()
    }

    /// The counter of generated value names.
    pub closed spec fn value_count(&self) -> nat {
        self.value_counter as nat
    }

    /// The counter of generated node names.
    pub closed spec fn node_count(&self) -> nat {
        self.node_counter as nat
    }

    /// Names are distinct, and every count passed is the number of a taken name.
    pub closed spec fn wf(&self) -> bool {
        &&& self.value_names.wf()
        &&& self.node_names.wf()
        &&& forall|c: nat| c < self.value_counter ==> #[trigger] has_numbered(self.value_names.seq(), c)
        &&& forall|c: nat| c < self.node_counter ==> #[trigger] has_numbered(self.node_names.seq(), c)
    }

    /// Creates an authority with no name taken.
    pub fn new() -> (r: Self)
        ensures
            r.wf(),
            r.value_names().finite(),
            r.node_names().finite(),
            r.value_names() == Set::<Seq<char>>::empty(),
            r.node_names() == Set::<Seq<char>>::empty(),
            r.value_count() == 0,
            r.node_count() == 0,
    {
        let r = NameAuthority { value_counter: 0, node_counter: 0, value_names: Names::new(), node_names: Names::new() };
        proof {
            assert(r.value_names() =~= Set::<Seq<char>>::empty());
            assert(r.node_names() =~= Set::<Seq<char>>::empty());
        }
        r
    }

    /// Returns a value name not yet taken, and takes it: `preferred` if it
    /// is free, else the first free `val_<n>` from the counter on.
    pub fn unique_value_name(&mut self, preferred: Option<&str>) -> (r: String)
        requires
            old(self).wf(),
        ensures
            final(self).wf(),
            final(self).value_names().finite(),
            final(self).node_names().finite(),
            !old(self).value_names().contains(r@),
            final(self).value_names() == old(self).value_names().insert(r@),
            final(self).node_names() == old(self).node_names(),
            final(self).node_count() == old(self).node_count(),
            (preferred is Some && !old(self).value_names().contains(preferred->Some_0@)) ==> r@ == preferred->Some_0@
                && final(self).value_count() == old(self).value_count(),
            !(preferred is Some && !old(self).value_names().contains(preferred->Some_0@)) ==> final(self).value_count()
                > old(self).value_count() && r@ == value_name_for((final(self).value_count() - 1) as nat)
                && forall|c: nat| old(self).value_count() <= c < final(self).value_count() - 1
                ==> #[trigger] old(self).value_names().contains(value_name_for(c)),
    {
        if let Some(name) = preferred {
            if !self.value_names.contains(name) {
                let owned = name.to_owned();
                let added = self.value_names.insert(owned.clone());
                proof {
                    assert(added);
                    lemma_push_to_set(old(self).value_names.seq(), owned@);
                    assert(self.value_names() =~= old(self).value_names().insert(owned@));
                    assert forall|c: nat| c < self.value_counter implies #[trigger] has_numbered(self.value_names.seq(), c) by {
                        assert(has_numbered(old(self).value_names.seq(), c));
                        let i = choose|i: int| 0 <= i < old(self).value_names.seq().len() && numbered(old(self).value_names.seq()[i], c);
                        assert(self.value_names.seq()[i] == old(self).value_names.seq()[i]);
                    }
                }
                return owned;
            }
        }
        let mut c = self.value_counter;
        proof {
            reveal_strlit("val_");
        }
        loop
            invariant
                *self == *old(self),
                self.wf(),
                old(self).value_counter <= c,
                !(preferred is Some && !old(self).value_names().contains(preferred->Some_0@)),
                forall|k: nat| k < c ==> #[trigger] has_numbered(self.value_names.seq(), k),
                forall|k: nat| old(self).value_counter <= k < c ==> #[trigger] self.value_names.seq().contains(value_name_for(k)),
            decreases self.value_names.seq().len() - c,
        {
            let mut s = String::from_str("val_");
            push_decimal(&mut s, c as u64);
            proof {
                reveal_strlit("val_");
                assert(s@ == value_name_for(c as nat));
                lemma_numbered_concat("val_"@, c as nat);
            }
            if !self.value_names.contains(s.as_str()) {
                let taken = s.clone();
                let added = self.value_names.insert(taken);
                // a count of names held in memory bounds the counter
                let _ = self.value_names.len();
                proof {
                    lemma_count_bound(old(self).value_names.seq(), c as nat);
                }
                self.value_counter = c + 1;
                proof {
                    assert(added);
                    let seq = self.value_names.seq();
                    assert(seq[seq.len() - 1] == s@);
                    lemma_push_to_set(old(self).value_names.seq(), s@);
                    assert(self.value_names() =~= old(self).value_names().insert(s@));
                    assert forall|k: nat| k < self.value_counter implies #[trigger] has_numbered(seq, k) by {
                        if k < c {
                            assert(has_numbered(old(self).value_names.seq(), k));
                            let i = choose|i: int| 0 <= i < old(self).value_names.seq().len() && numbered(old(self).value_names.seq()[i], k);
                            assert(seq[i] == old(self).value_names.seq()[i]);
                        } else {
                            assert(numbered(seq[seq.len() - 1], k));
                        }
                    }
                    assert forall|k: nat| old(self).value_count() <= k < self.value_count() - 1
                        implies #[trigger] old(self).value_names().contains(value_name_for(k)) by {
                        assert(old(self).value_names.seq().contains(value_name_for(k)));
                        let i = choose|i: int| 0 <= i < old(self).value_names.seq().len() && old(self).value_names.seq()[i] == value_name_for(k);
                    }
                    assert(!old(self).value_names().contains(s@)) by {
                        if old(self).value_names().contains(s@) {
                            let i = choose|i: int| 0 <= i < old(self).value_names.seq().len() && old(self).value_names.seq()[i] == s@;
                        }
                    }
                }
                return s;
            }
            proof {
                let seq = self.value_names.seq();
                let i = choose|i: int| 0 <= i < seq.len() && seq[i] == s@;
                assert(numbered(seq[i], c as nat));
                assert(has_numbered(seq, c as nat));
                lemma_count_bound(seq, (c + 1) as nat);
            }
            // a count of names held in memory bounds the counter
            let _ = self.value_names.len();
            c = c + 1;
        }
    }

    /// Returns a node name not yet taken, and takes it: `preferred` if it
    /// is free, else the first free `node_<op_type>_<n>` from the counter on.
    pub fn unique_node_name(&mut self, op_type: &str, preferred: Option<&str>) -> (r: String)
        requires
            old(self).wf(),
        ensures
            final(self).wf(),
            final(self).value_names().finite(),
            final(self).node_names().finite(),
            !old(self).node_names().contains(r@),
            final(self).node_names() == old(self).node_names().insert(r@),
            final(self).value_names() == old(self).value_names(),
            final(self).value_count() == old(self).value_count(),
            (preferred is Some && !old(self).node_names().contains(preferred->Some_0@)) ==> r@ == preferred->Some_0@
                && final(self).node_count() == old(self).node_count(),
            !(preferred is Some && !old(self).node_names().contains(preferred->Some_0@)) ==> final(self).node_count()
                > old(self).node_count() && r@ == node_name_for(op_type@, (final(self).node_count() - 1) as nat)
                && forall|c: nat| old(self).node_count() <= c < final(self).node_count() - 1
                ==> #[trigger] old(self).node_names().contains(node_name_for(op_type@, c)),
    {
        if let Some(name) = preferred {
            if !self.node_names.contains(name) {
                let owned = name.to_owned();
                let added = self.node_names.insert(owned.clone());
                proof {
                    assert(added);
                    lemma_push_to_set(old(self).node_names.seq(), owned@);
                    assert(self.node_names() =~= old(self).node_names().insert(owned@));
                    assert forall|c: nat| c < self.node_counter implies #[trigger] has_numbered(self.node_names.seq(), c) by {
                        assert(has_numbered(old(self).node_names.seq(), c));
                        let i = choose|i: int| 0 <= i < old(self).node_names.seq().len() && numbered(old(self).node_names.seq()[i], c);
                        assert(self.node_names.seq()[i] == old(self).node_names.seq()[i]);
                    }
                }
                return owned;
            }
        }
        let mut c = self.node_counter;
        proof {
            reveal_strlit("node_");
            reveal_strlit("_");
        }
        loop
            invariant
                *self == *old(self),
                self.wf(),
                old(self).node_counter <= c,
                !(preferred is Some && !old(self).node_names().contains(preferred->Some_0@)),
                forall|k: nat| k < c ==> #[trigger] has_numbered(self.node_names.seq(), k),
                forall|k: nat| old(self).node_counter <= k < c ==> #[trigger] self.node_names.seq().contains(node_name_for(op_type@, k)),
            decreases self.node_names.seq().len() - c,
        {
            let mut s = String::from_str("node_");
            s.append(op_type);
            s.append("_");
            push_decimal(&mut s, c as u64);
            proof {
                reveal_strlit("node_");
                reveal_strlit("_");
                let p = "node_"@ + op_type@ + "_"@;
                assert(s@ =~= p + decimal(c as nat));
                assert(s@ == node_name_for(op_type@, c as nat));
                lemma_numbered_concat(p, c as nat);
            }
            if !self.node_names.contains(s.as_str()) {
                let taken = s.clone();
                let added = self.node_names.insert(taken);
                // a count of names held in memory bounds the counter
                let _ = self.node_names.len();
                proof {
                    lemma_count_bound(old(self).node_names.seq(), c as nat);
                }
                self.node_counter = c + 1;
                proof {
                    assert(added);
                    let seq = self.node_names.seq();
                    assert(seq[seq.len() - 1] == s@);
                    lemma_push_to_set(old(self).node_names.seq(), s@);
                    assert(self.node_names() =~= old(self).node_names().insert(s@));
                    assert forall|k: nat| k < self.node_counter implies #[trigger] has_numbered(seq, k) by {
                        if k < c {
                            assert(has_numbered(old(self).node_names.seq(), k));
                            let i = choose|i: int| 0 <= i < old(self).node_names.seq().len() && numbered(old(self).node_names.seq()[i], k);
                            assert(seq[i] == old(self).node_names.seq()[i]);
                        } else {
                            assert(numbered(seq[seq.len() - 1], k));
                        }
                    }
                    assert forall|k: nat| old(self).node_count() <= k < self.node_count() - 1
                        implies #[trigger] old(self).node_names().contains(node_name_for(op_type@, k)) by {
                        assert(old(self).node_names.seq().contains(node_name_for(op_type@, k)));
                        let i = choose|i: int| 0 <= i < old(self).node_names.seq().len() && old(self).node_names.seq()[i] == node_name_for(op_type@, k);
                    }
                    assert(!old(self).node_names().contains(s@)) by {
                        if old(self).node_names().contains(s@) {
                            let i = choose|i: int| 0 <= i < old(self).node_names.seq().len() && old(self).node_names.seq()[i] == s@;
                        }
                    }
                }
                return s;
            }
            proof {
                let seq = self.node_names.seq();
                let i = choose|i: int| 0 <= i < seq.len() && seq[i] == s@;
                assert(numbered(seq[i], c as nat));
                assert(has_numbered(seq, c as nat));
                lemma_count_bound(seq, (c + 1) as nat);
            }
            // a count of names held in memory bounds the counter
            let _ = self.node_names.len();
            c = c + 1;
        }
    }

    /// Takes a value name; returns false if it was already taken.
    pub fn register_value_name(&mut self, name: String) -> (r: bool)
        requires
            old(self).wf(),
        ensures
            final(self).wf(),
            final(self).value_names().finite(),
            final(self).node_names().finite(),
            r == !old(self).value_names().contains(name@),
            final(self).value_names() == old(self).value_names().insert(name@),
            final(self).node_names() == old(self).node_names(),
            final(self).value_count() == old(self).value_count(),
            final(self).node_count() == old(self).node_count(),
    {
        let ghost v = name@;
        let r = self.value_names.insert(name);
        proof {
            if r {
                lemma_push_to_set(old(self).value_names.seq(), v);
                assert(self.value_names() =~= old(self).value_names().insert(v));
                assert forall|c: nat| c < self.value_counter implies #[trigger] has_numbered(self.value_names.seq(), c) by {
                    assert(has_numbered(old(self).value_names.seq(), c));
                    let i = choose|i: int| 0 <= i < old(self).value_names.seq().len() && numbered(old(self).value_names.seq()[i], c);
                    assert(self.value_names.seq()[i] == old(self).value_names.seq()[i]);
                }
            } else {
                assert(old(self).value_names.seq().contains(v));
                assert(self.value_names() =~= old(self).value_names().insert(v));
            }
        }
        r
    }

    /// Takes a node name; returns false if it was already taken.
    pub fn register_node_name(&mut self, name: String) -> (r: bool)
        requires
            old(self).wf(),
        ensures
            final(self).wf(),
            final(self).value_names().finite(),
            final(self).node_names().finite(),
            r == !old(self).node_names().contains(name@),
            final(self).node_names() == old(self).node_names().insert(name@),
            final(self).value_names() == old(self).value_names(),
            final(self).value_count() == old(self).value_count(),
            final(self).node_count() == old(self).node_count(),
    {
        let ghost v = name@;
        let r = self.node_names.insert(name);
        proof {
            if r {
                lemma_push_to_set(old(self).node_names.seq(), v);
                assert(self.node_names() =~= old(self).node_names().insert(v));
                assert forall|c: nat| c < self.node_counter implies #[trigger] has_numbered(self.node_names.seq(), c) by {
                    assert(has_numbered(old(self).node_names.seq(), c));
                    let i = choose|i: int| 0 <= i < old(self).node_names.seq().len() && numbered(old(self).node_names.seq()[i], c);
                    assert(self.node_names.seq()[i] == old(self).node_names.seq()[i]);
                }
            } else {
                assert(old(self).node_names.seq().contains(v));
                assert(self.node_names() =~= old(self).node_names().insert(v));
            }
        }
        r
    }

    /// Returns true if the value name is taken.
    pub fn has_value_name(&self, name: &str) -> (r: bool)
        ensures
            r == self.value_names().contains(name@),
    {
        self.value_names.contains(name)
    }

    /// Returns true if the node name is taken.
    pub fn has_node_name(&self, name: &str) -> (r: bool)
        ensures
            r == self.node_names().contains(name@),
    {
        self.node_names.contains(name)
    }

    /// Returns the number of value names taken.
    pub fn value_name_count(&self) -> (r: usize)
        requires
            self.wf(),
        ensures
            r == self.value_names().len(),
    {
        proof {
            self.value_names.seq().unique_seq_to_set();
        }
        self.value_names.len()
    }

    /// Returns the number of node names taken.
    pub fn node_name_count(&self) -> (r: usize)
        requires
            self.wf(),
        ensures
            r == self.node_names().len(),
    {
        proof {
            self.node_names.seq().unique_seq_to_set();
        }
        self.node_names.len()
    }

    /// Frees every name and sets both counters back to 0.
    pub fn clear(&mut self)
        ensures
            final(self).wf(),
            final(self).value_names().finite(),
            final(self).node_names().finite(),
            final(self).value_names() == Set::<Seq<char>>::empty(),
            final(self).node_names() == Set::<Seq<char>>::empty(),
            final(self).value_count() == 0,
            final(self).node_count() == 0,
    {
        *self = NameAuthority::new();
    }
}

impl Default for NameAuthority {
    fn default() -> (r: Self)
        ensures
            r.wf(),
            r.value_names().finite(),
            r.node_names().finite(),
            r.value_names() == Set::<Seq<char>>::empty(),
            r.node_names() == Set::<Seq<char>>::empty(),
            r.value_count() == 0,
            r.node_count() == 0,
    {
        NameAuthority::new()
    }
}

} // verus!
