//! Attributes of nodes: a name and a value of one of a closed set of kinds.
use crate::enums::{AttributeType, DataType};
use crate::tensor::Tensor;
use vstd::prelude::*;

verus! {

/// The value of an attribute. A 32-bit float is held as its IEEE-754 bits.
#[derive(Debug, Clone)]
pub enum AttrValue {
    Float(u32),
    Int(i64),
    String(String),
    Tensor(Box<Tensor>),
    Floats(Vec<u32>),
    Ints(Vec<i64>),
    Strings(Vec<String>),
    Tensors(Vec<Box<Tensor>>),
    DataType(DataType),
    DataTypes(Vec<DataType>),
}

/// The kind of each attribute value.
pub open spec fn kind_of(v: AttrValue) -> AttributeType {
    match v {
        AttrValue::Float(_) => AttributeType::Float,
        AttrValue::Int(_) => AttributeType::Int,
        AttrValue::String(_) => AttributeType::String,
        AttrValue::Tensor(_) => AttributeType::Tensor,
        AttrValue::Floats(_) => AttributeType::Floats,
        AttrValue::Ints(_) => AttributeType::Ints,
        AttrValue::Strings(_) => AttributeType::Strings,
        AttrValue::Tensors(_) => AttributeType::Tensors,
        AttrValue::DataType(_) => AttributeType::TypeProto,
        AttrValue::DataTypes(_) => AttributeType::TypeProtos,
    }
}

impl AttrValue {
    /// Returns the kind of the value.
    pub fn attr_type(&self) -> (r: AttributeType)
        ensures
            r == kind_of(*self),
    {
        match self {
            AttrValue::Float(_) => AttributeType::Float,
            AttrValue::Int(_) => AttributeType::Int,
            AttrValue::String(_) => AttributeType::String,
            AttrValue::Tensor(_) => AttributeType::Tensor,
            AttrValue::Floats(_) => AttributeType::Floats,
            AttrValue::Ints(_) => AttributeType::Ints,
            AttrValue::Strings(_) => AttributeType::Strings,
            AttrValue::Tensors(_) => AttributeType::Tensors,
            AttrValue::DataType(_) => AttributeType::TypeProto,
            AttrValue::DataTypes(_) => AttributeType::TypeProtos,
        }
    }
}

/// A named attribute.
#[derive(Debug, Clone)]
pub struct Attr {
    pub name: String,
    pub value: AttrValue,
    pub doc_string: Option<String>,
}

impl Attr {
    /// Creates an attribute without documentation.
    pub fn new(name: &str, value: AttrValue) -> (r: Self)
        ensures
            r.name@ == name@,
            r.value == value,
            r.doc_string is None,
    {
        Attr { name: name.to_owned(), value, doc_string: None }
    }

    /// Returns the kind of the attribute's value.
    pub fn attr_type(&self) -> (r: AttributeType)
        ensures
            r == kind_of(self.value),
    {
        self.value.attr_type()
    }

    /// Creates a float attribute from the IEEE-754 bits of the float.
    pub fn float(name: &str, bits: u32) -> (r: Self)
        ensures
            r.name@ == name@,
            r.value == AttrValue::Float(bits),
            r.doc_string is None,
    {
        Attr::new(name, AttrValue::Float(bits))
    }

    /// Creates an integer attribute.
    pub fn integer(name: &str, value: i64) -> (r: Self)
        ensures
            r.name@ == name@,
            r.value == AttrValue::Int(value),
            r.doc_string is None,
    {
        Attr::new(name, AttrValue::Int(value))
    }

    /// Creates a string attribute.
    pub fn string(name: &str, value: String) -> (r: Self)
        ensures
            r.name@ == name@,
            r.value == AttrValue::String(value),
            r.doc_string is None,
    {
        Attr::new(name, AttrValue::String(value))
    }

    /// Creates an attribute of floats, each given by its IEEE-754 bits.
    pub fn floats(name: &str, bits: Vec<u32>) -> (r: Self)
        ensures
            r.name@ == name@,
            r.value == AttrValue::Floats(bits),
            r.doc_string is None,
    {
        Attr::new(name, AttrValue::Floats(bits))
    }

    /// Creates an attribute of integers.
    pub fn ints(name: &str, values: Vec<i64>) -> (r: Self)
        ensures
            r.name@ == name@,
            r.value == AttrValue::Ints(values),
            r.doc_string is None,
    {
        Attr::new(name, AttrValue::Ints(values))
    }

    /// Creates an attribute of strings.
    pub fn strings(name: &str, values: Vec<String>) -> (r: Self)
        ensures
            r.name@ == name@,
            r.value == AttrValue::Strings(values),
            r.doc_string is None,
    {
        Attr::new(name, AttrValue::Strings(values))
    }
}

/// An attribute of a function body that refers to an attribute of the function.
#[derive(Debug, Clone)]
pub struct RefAttr {
    pub name: String,
    pub ref_attr_name: String,
    pub type_: AttributeType,
    pub doc_string: Option<String>,
}

impl RefAttr {
    /// Creates a reference attribute without documentation.
    pub fn new(name: &str, ref_attr_name: &str, type_: AttributeType) -> (r: Self)
        ensures
            r.name@ == name@,
            r.ref_attr_name@ == ref_attr_name@,
            r.type_ == type_,
            r.doc_string is None,
    {
        RefAttr { name: name.to_owned(), ref_attr_name: ref_attr_name.to_owned(), type_, doc_string: None }
    }
}

} // verus!
