//! Shapes: ordered lists of dimensions, each a concrete size or a symbol.
use crate::text::{push_signed_decimal, signed_decimal};
use vstd::prelude::*;
use vstd::string::StringExecFns;

verus! {

/// One dimension of a shape: a concrete size, or a symbol that stands for an
/// unknown size (named or not).
#[derive(Debug, Clone, PartialEq, Eq)]
pub enum SymbolicDim {
    Int(i64),
    Symbol(Option<String>),
}

impl SymbolicDim {
    /// Creates a concrete dimension.
    pub fn from_int(value: i64) -> (r: Self)
        ensures
            r == SymbolicDim::Int(value),
    {
        SymbolicDim::Int(value)
    }

    /// Creates a symbolic dimension.
    pub fn from_symbol(name: Option<String>) -> (r: Self)
        ensures
            r == SymbolicDim::Symbol(name),
    {
        SymbolicDim::Symbol(name)
    }

    /// Returns true for a concrete dimension.
    pub fn is_int(&self) -> (r: bool)
        ensures
            r == (*self is Int),
    {
        match self {
            SymbolicDim::Int(_) => true,
            SymbolicDim::Symbol(_) => false,
        }
    }

    /// Returns true for a symbolic dimension.
    pub fn is_symbol(&self) -> (r: bool)
        ensures
            r == (*self is Symbol),
    {
        match self {
            SymbolicDim::Int(_) => false,
            SymbolicDim::Symbol(_) => true,
        }
    }

    /// Returns the size of a concrete dimension.
    pub fn as_int(&self) -> (r: Option<i64>)
        ensures
            r == (match *self {
                SymbolicDim::Int(v) => Some(v),
                SymbolicDim::Symbol(_) => None,
            }),
    {
        match self {
            SymbolicDim::Int(v) => Some(*v),
            SymbolicDim::Symbol(_) => None,
        }
    }
}

/// How a dimension is written: its size, its symbol, or `?` for an unnamed symbol.
pub open spec fn dim_text(d: SymbolicDim) -> Seq<char> {
    match d {
        SymbolicDim::Int(v) => signed_decimal(v as int),
        SymbolicDim::Symbol(Some(name)) => name@,
        SymbolicDim::Symbol(None) => seq!['?'],
    }
}

/// Dimensions written one after the other, separated by commas.
pub open spec fn dims_text(ds: Seq<SymbolicDim>) -> Seq<char>
    decreases ds.len(),
{
    if ds.len() == 0 {
        Seq::empty()
    } else if ds.len() == 1 {
        dim_text(ds[0])
    } else {
        dims_text(ds.drop_last()) + seq![','] + dim_text(ds.last())
    }
}

/// How a shape is written: its dimensions between brackets.
pub open spec fn shape_text(ds: Seq<SymbolicDim>) -> Seq<char> {
    seq!['['] + dims_text(ds) + seq![']']
}

impl SymbolicDim {
    fn push_text(&self, s: &mut String)
        ensures
            final(s)@ == old(s)@ + dim_text(*self),
    {
        match self {
            SymbolicDim::Int(v) => push_signed_decimal(s, *v),
            SymbolicDim::Symbol(Some(name)) => s.append(name.as_str()),
            SymbolicDim::Symbol(None) => {
                s.append("?");
                proof {
                    reveal_strlit("?");
                }
            },
        }
    }

    /// Returns how the dimension is written.
    pub fn to_text(&self) -> (r: String)
        ensures
            r@ == dim_text(*self),
    {
        let mut s = String::new();
        self.push_text(&mut s);
        proof {
            assert(s@ =~= dim_text(*self));
        }
        s
    }
}

impl From<i64> for SymbolicDim {
    fn from(value: i64) -> (r: Self) {
        SymbolicDim::Int(value)
    }
}

impl vstd::std_specs::convert::FromSpecImpl<i64> for SymbolicDim {
    open spec fn obeys_from_spec() -> bool {
        true
    }

    open spec fn from_spec(v: i64) -> Self {
        SymbolicDim::Int(v)
    }
}

/// `a * b`, or `usize::MAX` where the product does not fit.
pub open spec fn saturating_product(a: usize, b: usize) -> usize {
    if a * b <= usize::MAX {
        (a * b) as usize
    } else {
        usize::MAX
    }
}

/// The number of elements of a shape with dimensions `dims`: the product of
/// the sizes, multiplied from the first on and held at `usize::MAX` once it
/// would overflow; 1 for no dimension; `None` if any dimension is symbolic.
pub open spec fn element_count(dims: Seq<SymbolicDim>) -> Option<usize>
    decreases dims.len(),
{
    if dims.len() == 0 {
        Some(1)
    } else {
        match (element_count(dims.drop_last()), dims.last()) {
            (Some(t), SymbolicDim::Int(v)) => Some(saturating_product(t, v as usize)),
            _ => None,
        }
    }
}

/// The sizes of all dimensions, if none is symbolic.
pub open spec fn concrete_dims(dims: Seq<SymbolicDim>) -> Option<Seq<i64>> {
    if forall|i: int| 0 <= i < dims.len() ==> (#[trigger] dims[i]) is Int {
        Some(dims.map_values(|d: SymbolicDim| d->Int_0))
    } else {
        None
    }
}

/// Once a prefix has a symbolic dimension, so has every longer prefix.
proof fn lemma_count_stays_none(dims: Seq<SymbolicDim>, j: int)
    requires
        0 <= j <= dims.len(),
        element_count(dims.subrange(0, j)) is None,
    ensures
        element_count(dims.subrange(0, dims.len() as int)) is None,
    decreases dims.len() - j,
{
    if j < dims.len() {
        assert(dims.subrange(0, j + 1).drop_last() =~= dims.subrange(0, j));
        lemma_count_stays_none(dims, j + 1);
    }
}

/// A shape: an ordered list of dimensions, each with an optional
/// denotation, and a flag that freezes it.
#[derive(Debug, Clone, PartialEq, Eq)]
pub struct Shape {
    dims: Vec<SymbolicDim>,
    denotations: Vec<Option<String>>,
    frozen: bool,
}

impl View for Shape {
    type V = Seq<SymbolicDim>;

    closed spec fn view(&self) -> Seq<SymbolicDim> {
        self.dims@
    }
}

impl Shape {
    /// Every dimension has its denotation slot.
    pub closed spec fn wf(&self) -> bool {
        self.denotations@.len() == self.dims@.len()
    }

    /// The shape can no longer change.
    pub closed spec fn frozen(&self) -> bool {
        self.frozen
    }

    /// The denotations, one per dimension.
    pub closed spec fn denotations(&self) -> Seq<Option<String>> {
        self.denotations@
    }

    fn blank_denotations(n: usize) -> (r: Vec<Option<String>>)
        ensures
            r@.len() == n,
            forall|i: int| 0 <= i < n ==> (#[trigger] r@[i]) is None,
    {
        let mut r: Vec<Option<String>> = Vec::new();
        let mut i: usize = 0;
        while i < n
            invariant
                i <= n,
                r@.len() == i,
                forall|j: int| 0 <= j < i ==> (#[trigger] r@[j]) is None,
            decreases n - i,
        {
            r.push(None);
            i = i + 1;
        }
        r
    }

    /// Creates an unfrozen shape of concrete dimensions.
    pub fn new(dims: Vec<i64>) -> (r: Self)
        ensures
            r.wf(),
            r.denotations().len() == r@.len(),
            !r.frozen(),
            r@ == dims@.map_values(|v: i64| SymbolicDim::Int(v)),
            forall|i: int| 0 <= i < r@.len() ==> (#[trigger] r.denotations()[i]) is None,
    {
        let mut ds: Vec<SymbolicDim> = Vec::new();
        let mut i: usize = 0;
        while i < dims.len()
            invariant
                i <= dims@.len(),
                ds@ == dims@.subrange(0, i as int).map_values(|v: i64| SymbolicDim::Int(v)),
            decreases dims@.len() - i,
        {
            ds.push(SymbolicDim::Int(dims[i]));
            proof {
                assert(dims@.subrange(0, i + 1) =~= dims@.subrange(0, i as int).push(dims@[i as int]));
            }
            i = i + 1;
        }
        proof {
            assert(dims@.subrange(0, dims@.len() as int) =~= dims@);
        }
        let denotations = Shape::blank_denotations(ds.len());
        Shape { dims: ds, denotations, frozen: false }
    }

    /// Creates an unfrozen shape of the given dimensions.
    pub fn from_dims(dims: Vec<SymbolicDim>) -> (r: Self)
        ensures
            r.wf(),
            r.denotations().len() == r@.len(),
            !r.frozen(),
            r@ == dims@,
            forall|i: int| 0 <= i < r@.len() ==> (#[trigger] r.denotations()[i]) is None,
    {
        let denotations = Shape::blank_denotations(dims.len());
        Shape { dims, denotations, frozen: false }
    }

    /// Creates the shape of a scalar: no dimension.
    pub fn scalar() -> (r: Self)
        ensures
            r.wf(),
            r.denotations().len() == r@.len(),
            !r.frozen(),
            r@.len() == 0,
    {
        Shape { dims: Vec::new(), denotations: Vec::new(), frozen: false }
    }

    /// Returns the dimensions.
    pub fn dims(&self) -> (r: &[SymbolicDim])
        ensures
            r@ == self@,
    {
        self.dims.as_slice()
    }

    /// Returns the number of dimensions.
    pub fn rank(&self) -> (r: usize)
        ensures
            r == self@.len(),
    {
        self.dims.len()
    }

    /// Returns the number of elements; see `element_count`.
    pub fn size(&self) -> (r: Option<usize>)
        ensures
            r == element_count(self@),
    {
        let mut total: usize = 1;
        let mut i: usize = 0;
        while i < self.dims.len()
            invariant
                i <= self@.len(),
                element_count(self@.subrange(0, i as int)) == Some(total),
            decreases self@.len() - i,
        {
            proof {
                let s = self@.subrange(0, i + 1);
                assert(s.drop_last() =~= self@.subrange(0, i as int));
            }
            match &self.dims[i] {
                SymbolicDim::Int(v) => {
                    let d = *v as usize;
                    total = match total.checked_mul(d) {
                        Some(p) => p,
                        None => usize::MAX,
                    };
                },
                SymbolicDim::Symbol(_) => {
                    proof {
                        assert(element_count(self@.subrange(0, i + 1)) is None);
                        lemma_count_stays_none(self@, i + 1);
                        assert(self@.subrange(0, self@.len() as int) =~= self@);
                    }
                    return None;
                },
            }
            i = i + 1;
        }
        proof {
            assert(self@.subrange(0, self@.len() as int) =~= self@);
        }
        Some(total)
    }

    /// Returns true for the shape of a scalar.
    pub fn is_scalar(&self) -> (r: bool)
        ensures
            r == (self@.len() == 0),
    {
        self.dims.len() == 0
    }

    /// Freezes the shape for good.
    pub fn freeze(&mut self)
        ensures
            final(self).frozen(),
            final(self)@ == old(self)@,
            final(self).denotations() == old(self).denotations(),
            final(self).wf() == old(self).wf(),
    {
        self.frozen = true;
    }

    /// Returns true if the shape is frozen.
    pub fn is_frozen(&self) -> (r: bool)
        ensures
            r == self.frozen(),
    {
        self.frozen
    }

    /// Replaces the dimension at `index` of an unfrozen shape.
    pub fn set_dim(&mut self, index: usize, dim: SymbolicDim)
        requires
            !old(self).frozen(),
            index < old(self)@.len(),
        ensures
            final(self)@ == old(self)@.update(index as int, dim),
            final(self).denotations() == old(self).denotations(),
            final(self).wf() == old(self).wf(),
            !final(self).frozen(),
    {
        self.dims.set(index, dim);
    }

    /// Returns the denotation at `index`, if there is one.
    pub fn get_denotation(&self, index: usize) -> (r: Option<&str>)
        ensures
            index < self.denotations().len() && self.denotations()[index as int] is Some ==> r is Some
                && r->Some_0@ == self.denotations()[index as int]->Some_0@,
            !(index < self.denotations().len() && self.denotations()[index as int] is Some) ==> r is None,
    {
        if index >= self.denotations.len() {
            return None;
        }
        match &self.denotations[index] {
            Some(s) => Some(s.as_str()),
            None => None,
        }
    }

    /// Replaces the denotation at `index` of an unfrozen shape.
    pub fn set_denotation(&mut self, index: usize, denotation: Option<String>)
        requires
            old(self).wf(),
            !old(self).frozen(),
            index < old(self)@.len(),
        ensures
            final(self).wf(),
            final(self)@ == old(self)@,
            final(self).denotations() == old(self).denotations().update(index as int, denotation),
            final(self).denotations().len() == final(self)@.len(),
            !final(self).frozen(),
    {
        self.denotations.set(index, denotation);
    }

    /// Returns how the shape is written, as `[2,3,N,?]`.
    pub fn to_text(&self) -> (r: String)
        ensures
            r@ == shape_text(self@),
    {
        let mut s = String::from_str("[");
        let mut i: usize = 0;
        proof {
            reveal_strlit("[");
            reveal_strlit(",");
            reveal_strlit("]");
            assert(self@.subrange(0, 0) =~= Seq::<SymbolicDim>::empty());
            assert(s@ =~= seq!['['] + dims_text(self@.subrange(0, 0)));
        }
        while i < self.dims.len()
            invariant
                i <= self@.len(),
                s@ == seq!['['] + dims_text(self@.subrange(0, i as int)),
            decreases self@.len() - i,
        {
            let ghost before = s@;
            if i > 0 {
                s.append(",");
            }
            self.dims[i].push_text(&mut s);
            proof {
                let t = self@.subrange(0, i + 1);
                assert(t.drop_last() =~= self@.subrange(0, i as int));
                assert(t.last() == self@[i as int]);
                if i == 0 {
                    assert(s@ =~= seq!['['] + dims_text(t));
                } else {
                    reveal_strlit(",");
                    assert(",".view() =~= seq![',']);
                    assert(dims_text(t) == dims_text(self@.subrange(0, i as int)) + seq![','] + dim_text(self@[i as int]));
                    assert(s@ =~= seq!['['] + dims_text(t));
                }
            }
            i = i + 1;
        }
        s.append("]");
        proof {
            assert(self@.subrange(0, self@.len() as int) =~= self@);
            assert(s@ =~= shape_text(self@));
        }
        s
    }

    /// Returns the sizes of all dimensions, or `None` if one is symbolic.
    pub fn to_vec(&self) -> (r: Option<Vec<i64>>)
        ensures
            r is Some <==> concrete_dims(self@) is Some,
            r is Some ==> r->Some_0@ == concrete_dims(self@)->Some_0,
    {
        let mut out: Vec<i64> = Vec::new();
        let mut i: usize = 0;
        while i < self.dims.len()
            invariant
                i <= self@.len(),
                out@.len() == i,
                forall|j: int| 0 <= j < i ==> (#[trigger] self@[j]) is Int && out@[j] == self@[j]->Int_0,
            decreases self@.len() - i,
        {
            match &self.dims[i] {
                SymbolicDim::Int(v) => out.push(*v),
                SymbolicDim::Symbol(_) => {
                    assert(!(self@[i as int] is Int));
                    return None;
                },
            }
            i = i + 1;
        }
        proof {
            assert(out@ =~= self@.map_values(|d: SymbolicDim| d->Int_0));
        }
        Some(out)
    }
}

} // verus!
