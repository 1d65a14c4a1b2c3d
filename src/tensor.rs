//! Tensors: concrete in-memory data, data kept in an outside file, strings.
use crate::enums::{bitwidth_of, DataType};
use crate::metadata::MetadataStore;
use crate::shape::{element_count, Shape};
use std::collections::HashMap;
use vstd::prelude::*;

verus! {

/// The bytes taken by `count` elements of `bits` bits each, rounded up to a
/// whole byte and held at `usize::MAX`.
pub open spec fn packed_bytes(count: usize, bits: usize) -> usize {
    let b = (count * bits + 7) / 8;
    if b <= usize::MAX {
        b as usize
    } else {
        usize::MAX
    }
}

/// The element count of a shape, 0 where a dimension is symbolic.
pub open spec fn count_or_zero(s: Shape) -> usize {
    match element_count(s@) {
        Some(n) => n,
        None => 0,
    }
}

/// The bytes that the elements of `shape` take as `dtype`, if both are known.
pub open spec fn data_bytes(dtype: DataType, shape: Shape) -> Option<usize> {
    match (element_count(shape@), bitwidth_of(dtype)) {
        (Some(n), Some(b)) => Some(packed_bytes(n, b)),
        _ => None,
    }
}

fn packed_size(count: usize, bits: usize) -> (r: usize)
    requires
        bits <= 128,
    ensures
        r == packed_bytes(count, bits),
{
    proof {
        assert(count as u128 * bits as u128 <= 0xffff_ffff_ffff_ffffu128 * 128) by (nonlinear_arith)
            requires
                count <= 0xffff_ffff_ffff_ffffu128,
                bits <= 128,
        ;
    }
    let total: u128 = count as u128 * bits as u128 + 7;
    let b: u128 = total / 8;
    if b <= usize::MAX as u128 {
        b as usize
    } else {
        usize::MAX
    }
}

fn element_bytes(dtype: DataType, shape: &Shape) -> (r: Option<usize>)
    ensures
        r == data_bytes(dtype, *shape),
{
    match (shape.size(), dtype.bitwidth()) {
        (Some(n), Some(b)) => Some(packed_size(n, b)),
        _ => None,
    }
}

/// What every kind of tensor tells about itself.
pub trait TensorProtocol {
    /// The shape of the tensor.
    spec fn shape_of(&self) -> Shape;

    /// The bytes the tensor's data take.
    spec fn byte_count(&self) -> usize;

    /// The name of the tensor, if it has one.
    spec fn name_of(&self) -> Option<Seq<char>>;

    /// The element type of the tensor.
    spec fn dtype_of(&self) -> DataType;

    /// The documentation of the tensor, if any.
    spec fn doc_of(&self) -> Option<Seq<char>>;

    /// Returns the name of the tensor.
    fn name(&self) -> (r: Option<&str>)
        ensures
            r is Some == self.name_of() is Some,
            r is Some ==> r->Some_0@ == self.name_of()->Some_0,
    ;

    /// Returns the shape of the tensor.
    fn shape(&self) -> (r: &Shape)
        ensures
            *r == self.shape_of(),
    ;

    /// Returns the element type of the tensor.
    fn dtype(&self) -> (r: DataType)
        ensures
            r == self.dtype_of(),
    ;

    /// Returns the documentation string.
    fn doc_string(&self) -> (r: Option<&str>)
        ensures
            r is Some == self.doc_of() is Some,
            r is Some ==> r->Some_0@ == self.doc_of()->Some_0,
    ;

    /// Returns the number of elements; 0 where the shape is symbolic.
    fn size(&self) -> (r: usize)
        ensures
            r == count_or_zero(self.shape_of()),
    ;

    /// Returns the number of bytes of the data.
    fn nbytes(&self) -> (r: usize)
        ensures
            r == self.byte_count(),
    ;
}

fn str_of(s: &Option<String>) -> (r: Option<&str>)
    ensures
        r is Some == s is Some,
        r is Some ==> r->Some_0@ == s->Some_0@,
{
    match s {
        Some(x) => Some(x.as_str()),
        None => None,
    }
}

fn count_of(s: &Shape) -> (r: usize)
    ensures
        r == count_or_zero(*s),
{
    match s.size() {
        Some(n) => n,
        None => 0,
    }
}

/// A tensor whose data are held in memory as raw bytes.
#[derive(Debug, Clone)]
pub struct Tensor {
    pub name: Option<String>,
    pub dtype: DataType,
    pub shape: Shape,
    pub data: Vec<u8>,
    pub doc_string: Option<String>,
    pub metadata_props: HashMap<String, String>,
    pub meta: MetadataStore,
}

impl Tensor {
    /// Creates a tensor of zero bytes, as many as its shape and type take.
    /// The shape must be concrete and the type of a fixed width.
    pub fn new(dtype: DataType, shape: Shape) -> (r: Self)
        requires
            data_bytes(dtype, shape) is Some,
        ensures
            r.dtype == dtype,
            r.shape == shape,
            r.data@ == Seq::new(data_bytes(dtype, shape)->Some_0 as nat, |i: int| 0u8),
            r.name is None,
            r.doc_string is None,
            r.meta.wf(),
    {
        let nbytes = element_bytes(dtype, &shape).unwrap();
        let data = vec![0u8; nbytes];
        proof {
            assert(data@ =~= Seq::new(nbytes as nat, |i: int| 0u8));
        }
        Tensor {
            name: None,
            dtype,
            shape,
            data,
            doc_string: None,
            metadata_props: HashMap::new(),
            meta: MetadataStore::new(),
        }
    }

    /// Creates a tensor from raw bytes, which must be exactly as many as its
    /// shape and type take.
    pub fn from_bytes(dtype: DataType, shape: Shape, data: Vec<u8>) -> (r: Self)
        requires
            data_bytes(dtype, shape) == Some(data@.len() as usize),
        ensures
            r.dtype == dtype,
            r.shape == shape,
            r.data == data,
            r.name is None,
            r.doc_string is None,
            r.meta.wf(),
    {
        Tensor {
            name: None,
            dtype,
            shape,
            data,
            doc_string: None,
            metadata_props: HashMap::new(),
            meta: MetadataStore::new(),
        }
    }

    /// Returns the raw bytes.
    pub fn as_bytes(&self) -> (r: &[u8])
        ensures
            r@ == self.data@,
    {
        self.data.as_slice()
    }

    /// Returns the raw bytes for change in place.
    pub fn as_bytes_mut(&mut self) -> (r: &mut Vec<u8>)
        ensures
            *r == old(self).data,
            final(self).data == *final(r),
            final(self).shape == old(self).shape,
            final(self).dtype == old(self).dtype,
    {
        &mut self.data
    }
}

impl TensorProtocol for Tensor {
    open spec fn name_of(&self) -> Option<Seq<char>> {
        match self.name {
            Some(n) => Some(n@),
            None => None,
        }
    }

    open spec fn dtype_of(&self) -> DataType {
        self.dtype
    }

    open spec fn doc_of(&self) -> Option<Seq<char>> {
        match self.doc_string {
            Some(d) => Some(d@),
            None => None,
        }
    }

    open spec fn shape_of(&self) -> Shape {
        self.shape
    }

    open spec fn byte_count(&self) -> usize {
        self.data@.len() as usize
    }

    fn name(&self) -> (r: Option<&str>) {
        str_of(&self.name)
    }

    fn shape(&self) -> (r: &Shape) {
        &self.shape
    }

    fn dtype(&self) -> (r: DataType) {
        self.dtype
    }

    fn doc_string(&self) -> (r: Option<&str>) {
        str_of(&self.doc_string)
    }

    fn size(&self) -> (r: usize) {
        count_of(&self.shape)
    }

    fn nbytes(&self) -> (r: usize) {
        self.data.len()
    }
}

/// A tensor whose data lie in an outside file.
#[derive(Debug)]
pub struct ExternalTensor {
    pub name: String,
    pub dtype: DataType,
    pub shape: Shape,
    pub location: String,
    pub offset: Option<usize>,
    pub length: Option<usize>,
    pub base_dir: String,
    pub doc_string: Option<String>,
    pub metadata_props: HashMap<String, String>,
    pub meta: MetadataStore,
}

impl ExternalTensor {
    /// Creates an external tensor with no byte range set.
    pub fn new(name: &str, dtype: DataType, shape: Shape, location: &str, base_dir: &str) -> (r: Self)
        ensures
            r.name@ == name@,
            r.dtype == dtype,
            r.shape == shape,
            r.location@ == location@,
            r.base_dir@ == base_dir@,
            r.offset is None,
            r.length is None,
            r.doc_string is None,
            r.meta.wf(),
    {
        ExternalTensor {
            name: name.to_owned(),
            dtype,
            shape,
            location: location.to_owned(),
            offset: None,
            length: None,
            base_dir: base_dir.to_owned(),
            doc_string: None,
            metadata_props: HashMap::new(),
            meta: MetadataStore::new(),
        }
    }

    /// Sets where in the file the data start and how many bytes they take.
    pub fn set_range(&mut self, offset: usize, length: usize)
        ensures
            final(self).offset == Some(offset),
            final(self).length == Some(length),
            final(self).name == old(self).name,
            final(self).dtype == old(self).dtype,
            final(self).shape == old(self).shape,
    {
        self.offset = Some(offset);
        self.length = Some(length);
    }
}

impl TensorProtocol for ExternalTensor {
    open spec fn name_of(&self) -> Option<Seq<char>> {
        Some(self.name@)
    }

    open spec fn dtype_of(&self) -> DataType {
        self.dtype
    }

    open spec fn doc_of(&self) -> Option<Seq<char>> {
        match self.doc_string {
            Some(d) => Some(d@),
            None => None,
        }
    }

    open spec fn shape_of(&self) -> Shape {
        self.shape
    }

    /// The length of the byte range if set, else what the elements take.
    open spec fn byte_count(&self) -> usize {
        match self.length {
            Some(n) => n,
            None => match bitwidth_of(self.dtype) {
                Some(b) => packed_bytes(count_or_zero(self.shape), b),
                None => 0,
            },
        }
    }

    fn name(&self) -> (r: Option<&str>) {
        Some(self.name.as_str())
    }

    fn shape(&self) -> (r: &Shape) {
        &self.shape
    }

    fn dtype(&self) -> (r: DataType) {
        self.dtype
    }

    fn doc_string(&self) -> (r: Option<&str>) {
        str_of(&self.doc_string)
    }

    fn size(&self) -> (r: usize) {
        count_of(&self.shape)
    }

    fn nbytes(&self) -> (r: usize) {
        match self.length {
            Some(n) => n,
            None => match self.dtype.bitwidth() {
                Some(b) => packed_size(count_of(&self.shape), b),
                None => 0,
            },
        }
    }
}

/// The bytes the UTF-8 encodings of `s` take in all, held at `usize::MAX`.
pub open spec fn utf8_total(s: Seq<String>) -> usize
    decreases s.len(),
{
    if s.len() == 0 {
        0
    } else {
        let t = utf8_total(s.drop_last()) as int + (vstd::utf8::encode_utf8(s.last()@).len() as usize);
        if t <= usize::MAX {
            t as usize
        } else {
            usize::MAX
        }
    }
}

/// A tensor of strings.
#[derive(Debug)]
pub struct StringTensor {
    pub name: Option<String>,
    pub shape: Shape,
    pub data: Vec<String>,
    pub doc_string: Option<String>,
    pub metadata_props: HashMap<String, String>,
    pub meta: MetadataStore,
}

impl StringTensor {
    /// Creates a string tensor; the shape must be concrete and hold as many
    /// elements as there are strings.
    pub fn new(shape: Shape, data: Vec<String>) -> (r: Self)
        requires
            element_count(shape@) == Some(data@.len() as usize),
        ensures
            r.shape == shape,
            r.data == data,
            r.name is None,
            r.doc_string is None,
            r.meta.wf(),
    {
        StringTensor {
            name: None,
            shape,
            data,
            doc_string: None,
            metadata_props: HashMap::new(),
            meta: MetadataStore::new(),
        }
    }

    /// Returns the strings.
    pub fn as_strings(&self) -> (r: &[String])
        ensures
            r@ == self.data@,
    {
        self.data.as_slice()
    }
}

impl TensorProtocol for StringTensor {
    open spec fn name_of(&self) -> Option<Seq<char>> {
        match self.name {
            Some(n) => Some(n@),
            None => None,
        }
    }

    open spec fn dtype_of(&self) -> DataType {
        DataType::String
    }

    open spec fn doc_of(&self) -> Option<Seq<char>> {
        match self.doc_string {
            Some(d) => Some(d@),
            None => None,
        }
    }

    open spec fn shape_of(&self) -> Shape {
        self.shape
    }

    open spec fn byte_count(&self) -> usize {
        utf8_total(self.data@)
    }

    fn name(&self) -> (r: Option<&str>) {
        str_of(&self.name)
    }

    fn shape(&self) -> (r: &Shape) {
        &self.shape
    }

    fn dtype(&self) -> (r: DataType) {
        DataType::String
    }

    fn doc_string(&self) -> (r: Option<&str>) {
        str_of(&self.doc_string)
    }

    fn size(&self) -> (r: usize) {
        count_of(&self.shape)
    }

    fn nbytes(&self) -> (r: usize) {
        let mut total: usize = 0;
        let mut i: usize = 0;
        while i < self.data.len()
            invariant
                i <= self.data@.len(),
                total == utf8_total(self.data@.subrange(0, i as int)),
            decreases self.data@.len() - i,
        {
            proof {
                assert(self.data@.subrange(0, i + 1).drop_last() =~= self.data@.subrange(0, i as int));
            }
            let n = self.data[i].as_str().len();
            assert(n == (vstd::utf8::encode_utf8(self.data@[i as int]@).len() as usize));
            total = match total.checked_add(n) {
                Some(t) => t,
                None => usize::MAX,
            };
            i = i + 1;
        }
        proof {
            assert(self.data@.subrange(0, self.data@.len() as int) =~= self.data@);
        }
        total
    }
}

/// A tensor whose data are computed when first needed.
#[derive(Debug)]
pub struct LazyTensor {
    pub name: Option<String>,
    pub dtype: DataType,
    pub shape: Shape,
    pub doc_string: Option<String>,
    pub metadata_props: HashMap<String, String>,
    pub meta: MetadataStore,
}

/// A tensor of elements narrower than a byte, packed together.
#[derive(Debug)]
pub struct PackedTensor {
    pub name: Option<String>,
    pub dtype: DataType,
    pub shape: Shape,
    pub doc_string: Option<String>,
    pub metadata_props: HashMap<String, String>,
    pub meta: MetadataStore,
}

} // verus!
