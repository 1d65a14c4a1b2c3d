//! Type descriptors of values: tensors, sparse tensors, sequences, optionals.
use crate::enums::DataType;
use vstd::prelude::*;

verus! {

/// A type of a value.
pub trait Type {
    /// The element type, for a tensor-like type.
    spec fn elem_dtype(&self) -> Option<DataType>;

    /// Returns the denotation of the type.
    fn denotation(&self) -> Option<&str>;

    /// Returns the element type of a tensor-like type.
    fn dtype(&self) -> (r: Option<DataType>)
        ensures
            r == self.elem_dtype(),
    ;
}

fn str_of(s: &Option<String>) -> (r: Option<&str>)
    ensures
        r is Some == s is Some,
        r is Some ==> r->Some_0@ == s->Some_0@,
{
    match s {
        Some(x) => Some(x.as_str()),
        None => None,
    }
}

/// The type of a dense tensor.
#[derive(Debug, Clone, PartialEq)]
pub struct TensorType {
    pub elem_type: DataType,
    pub denotation: Option<String>,
}

impl TensorType {
    /// Creates a tensor type without denotation.
    pub fn new(elem_type: DataType) -> (r: Self)
        ensures
            r.elem_type == elem_type,
            r.denotation is None,
    {
        TensorType { elem_type, denotation: None }
    }
}

impl Type for TensorType {
    open spec fn elem_dtype(&self) -> Option<DataType> {
        Some(self.elem_type)
    }

    fn denotation(&self) -> (r: Option<&str>)
        ensures
            r is Some == self.denotation is Some,
            r is Some ==> r->Some_0@ == self.denotation->Some_0@,
    {
        str_of(&self.denotation)
    }

    fn dtype(&self) -> (r: Option<DataType>) {
        Some(self.elem_type)
    }
}

/// The type of a sparse tensor.
#[derive(Debug, Clone, PartialEq)]
pub struct SparseTensorType {
    pub elem_type: DataType,
    pub denotation: Option<String>,
}

impl SparseTensorType {
    /// Creates a sparse tensor type without denotation.
    pub fn new(elem_type: DataType) -> (r: Self)
        ensures
            r.elem_type == elem_type,
            r.denotation is None,
    {
        SparseTensorType { elem_type, denotation: None }
    }
}

impl Type for SparseTensorType {
    open spec fn elem_dtype(&self) -> Option<DataType> {
        Some(self.elem_type)
    }

    fn denotation(&self) -> (r: Option<&str>)
        ensures
            r is Some == self.denotation is Some,
            r is Some ==> r->Some_0@ == self.denotation->Some_0@,
    {
        str_of(&self.denotation)
    }

    fn dtype(&self) -> (r: Option<DataType>) {
        Some(self.elem_type)
    }
}

/// Any type of a value; sequences and optionals nest other types.
#[derive(Debug)]
pub enum IrType {
    Tensor(TensorType),
    SparseTensor(SparseTensorType),
    Sequence(Box<SequenceType>),
    Optional(Box<OptionalType>),
}

/// The type of a sequence of values of one type.
#[derive(Debug)]
pub struct SequenceType {
    pub elem_type: IrType,
    pub denotation: Option<String>,
}

/// The type of a value that may be absent.
#[derive(Debug)]
pub struct OptionalType {
    pub elem_type: IrType,
    pub denotation: Option<String>,
}

impl Type for SequenceType {
    open spec fn elem_dtype(&self) -> Option<DataType> {
        None
    }

    fn denotation(&self) -> (r: Option<&str>)
        ensures
            r is Some == self.denotation is Some,
            r is Some ==> r->Some_0@ == self.denotation->Some_0@,
    {
        str_of(&self.denotation)
    }

    fn dtype(&self) -> (r: Option<DataType>) {
        None
    }
}

impl Type for OptionalType {
    open spec fn elem_dtype(&self) -> Option<DataType> {
        None
    }

    fn denotation(&self) -> (r: Option<&str>)
        ensures
            r is Some == self.denotation is Some,
            r is Some ==> r->Some_0@ == self.denotation->Some_0@,
    {
        str_of(&self.denotation)
    }

    fn dtype(&self) -> (r: Option<DataType>) {
        None
    }
}

} // verus!
