//! Element types of tensors and kinds of node attributes.
use crate::text::str_eq;
use vstd::prelude::*;

verus! {

/// The kind of an attribute stored on a node.
#[derive(Debug, Clone, Copy, PartialEq, Eq, Hash, Structural)]
pub enum AttributeType {
    Undefined,
    Float,
    Int,
    String,
    Tensor,
    Graph,
    Floats,
    Ints,
    Strings,
    Tensors,
    Graphs,
    SparseTensor,
    SparseTensors,
    TypeProto,
    TypeProtos,
}

/// The element type of a tensor.
#[derive(Debug, Clone, Copy, PartialEq, Eq, Hash, Structural)]
pub enum DataType {
    Undefined,
    Float,
    Uint8,
    Int8,
    Uint16,
    Int16,
    Int32,
    Int64,
    String,
    Bool,
    Float16,
    Double,
    Uint32,
    Uint64,
    Complex64,
    Complex128,
    Bfloat16,
    Float8E4M3Fn,
    Float8E4M3Fnuz,
    Float8E5M2,
    Float8E5M2Fnuz,
    Uint4,
    Int4,
    Float4E2M1,
    Float8E8M0,
    Uint2,
    Int2,
}

/// Number of bits one element of `d` occupies, if the type has a fixed width.
pub open spec fn bitwidth_of(d: DataType) -> Option<usize> {
    match d {
        DataType::Float => Some(32),
        DataType::Uint8 => Some(8),
        DataType::Int8 => Some(8),
        DataType::Uint16 => Some(16),
        DataType::Int16 => Some(16),
        DataType::Int32 => Some(32),
        DataType::Int64 => Some(64),
        DataType::Bool => Some(8),
        DataType::Float16 => Some(16),
        DataType::Double => Some(64),
        DataType::Uint32 => Some(32),
        DataType::Uint64 => Some(64),
        DataType::Complex64 => Some(64),
        DataType::Complex128 => Some(128),
        DataType::Bfloat16 => Some(16),
        DataType::Float8E4M3Fn => Some(8),
        DataType::Float8E4M3Fnuz => Some(8),
        DataType::Float8E5M2 => Some(8),
        DataType::Float8E5M2Fnuz => Some(8),
        DataType::Uint4 => Some(4),
        DataType::Int4 => Some(4),
        DataType::Float4E2M1 => Some(4),
        DataType::Float8E8M0 => Some(8),
        DataType::Uint2 => Some(2),
        DataType::Int2 => Some(2),
        _ => None,
    }
}

/// The floating-point element types.
pub open spec fn is_floating_point_type(d: DataType) -> bool {
    d == DataType::Float
        || d == DataType::Float16
        || d == DataType::Double
        || d == DataType::Bfloat16
        || d == DataType::Float8E4M3Fn
        || d == DataType::Float8E4M3Fnuz
        || d == DataType::Float8E5M2
        || d == DataType::Float8E5M2Fnuz
        || d == DataType::Float4E2M1
        || d == DataType::Float8E8M0
}

/// The integer element types.
pub open spec fn is_integer_type(d: DataType) -> bool {
    d == DataType::Uint8
        || d == DataType::Int8
        || d == DataType::Uint16
        || d == DataType::Int16
        || d == DataType::Int32
        || d == DataType::Int64
        || d == DataType::Uint32
        || d == DataType::Uint64
        || d == DataType::Uint4
        || d == DataType::Int4
        || d == DataType::Int2
        || d == DataType::Uint2
}

/// The element types whose values carry a sign.
pub open spec fn is_signed_type(d: DataType) -> bool {
    d == DataType::Float
        || d == DataType::Int8
        || d == DataType::Int16
        || d == DataType::Int32
        || d == DataType::Int64
        || d == DataType::Float16
        || d == DataType::Double
        || d == DataType::Complex64
        || d == DataType::Complex128
        || d == DataType::Bfloat16
        || d == DataType::Float8E4M3Fn
        || d == DataType::Float8E4M3Fnuz
        || d == DataType::Float8E5M2
        || d == DataType::Float8E5M2Fnuz
        || d == DataType::Int4
        || d == DataType::Float4E2M1
        || d == DataType::Float8E8M0
        || d == DataType::Int2
}

/// The compact name of each element type.
pub open spec fn short_name_of(d: DataType) -> Seq<char> {
    match d {
        DataType::Undefined => "undefined"@,
        DataType::Float => "f32"@,
        DataType::Uint8 => "u8"@,
        DataType::Int8 => "i8"@,
        DataType::Uint16 => "u16"@,
        DataType::Int16 => "i16"@,
        DataType::Int32 => "i32"@,
        DataType::Int64 => "i64"@,
        DataType::String => "s"@,
        DataType::Bool => "b8"@,
        DataType::Float16 => "f16"@,
        DataType::Double => "f64"@,
        DataType::Uint32 => "u32"@,
        DataType::Uint64 => "u64"@,
        DataType::Complex64 => "c64"@,
        DataType::Complex128 => "c128"@,
        DataType::Bfloat16 => "bf16"@,
        DataType::Float8E4M3Fn => "f8e4m3fn"@,
        DataType::Float8E4M3Fnuz => "f8e4m3fnuz"@,
        DataType::Float8E5M2 => "f8e5m2"@,
        DataType::Float8E5M2Fnuz => "f8e5m2fnuz"@,
        DataType::Uint4 => "u4"@,
        DataType::Int4 => "i4"@,
        DataType::Float4E2M1 => "f4e2m1"@,
        DataType::Float8E8M0 => "f8e8m0"@,
        DataType::Uint2 => "u2"@,
        DataType::Int2 => "i2"@,
    }
}

/// The element type whose compact name is `s`, if any.
pub open spec fn data_type_named(s: Seq<char>) -> Option<DataType> {
    if s == "undefined"@ {
        Some(DataType::Undefined)
    } else if s == "f32"@ {
        Some(DataType::Float)
    } else if s == "u8"@ {
        Some(DataType::Uint8)
    } else if s == "i8"@ {
        Some(DataType::Int8)
    } else if s == "u16"@ {
        Some(DataType::Uint16)
    } else if s == "i16"@ {
        Some(DataType::Int16)
    } else if s == "i32"@ {
        Some(DataType::Int32)
    } else if s == "i64"@ {
        Some(DataType::Int64)
    } else if s == "s"@ {
        Some(DataType::String)
    } else if s == "b8"@ {
        Some(DataType::Bool)
    } else if s == "f16"@ {
        Some(DataType::Float16)
    } else if s == "f64"@ {
        Some(DataType::Double)
    } else if s == "u32"@ {
        Some(DataType::Uint32)
    } else if s == "u64"@ {
        Some(DataType::Uint64)
    } else if s == "c64"@ {
        Some(DataType::Complex64)
    } else if s == "c128"@ {
        Some(DataType::Complex128)
    } else if s == "bf16"@ {
        Some(DataType::Bfloat16)
    } else if s == "f8e4m3fn"@ {
        Some(DataType::Float8E4M3Fn)
    } else if s == "f8e4m3fnuz"@ {
        Some(DataType::Float8E4M3Fnuz)
    } else if s == "f8e5m2"@ {
        Some(DataType::Float8E5M2)
    } else if s == "f8e5m2fnuz"@ {
        Some(DataType::Float8E5M2Fnuz)
    } else if s == "u4"@ {
        Some(DataType::Uint4)
    } else if s == "i4"@ {
        Some(DataType::Int4)
    } else if s == "f4e2m1"@ {
        Some(DataType::Float4E2M1)
    } else if s == "f8e8m0"@ {
        Some(DataType::Float8E8M0)
    } else if s == "u2"@ {
        Some(DataType::Uint2)
    } else if s == "i2"@ {
        Some(DataType::Int2)
    } else {
        None
    }
}

impl DataType {
    /// Returns the bit width of one element, or `None` for types without a fixed width.
    pub fn bitwidth(&self) -> (r: Option<usize>)
        ensures
            r == bitwidth_of(*self),
    {
        match self {
            DataType::Undefined => None,
            DataType::Float => Some(32),
            DataType::Uint8 => Some(8),
            DataType::Int8 => Some(8),
            DataType::Uint16 => Some(16),
            DataType::Int16 => Some(16),
            DataType::Int32 => Some(32),
            DataType::Int64 => Some(64),
            DataType::String => None,
            DataType::Bool => Some(8),
            DataType::Float16 => Some(16),
            DataType::Double => Some(64),
            DataType::Uint32 => Some(32),
            DataType::Uint64 => Some(64),
            DataType::Complex64 => Some(64),
            DataType::Complex128 => Some(128),
            DataType::Bfloat16 => Some(16),
            DataType::Float8E4M3Fn => Some(8),
            DataType::Float8E4M3Fnuz => Some(8),
            DataType::Float8E5M2 => Some(8),
            DataType::Float8E5M2Fnuz => Some(8),
            DataType::Uint4 => Some(4),
            DataType::Int4 => Some(4),
            DataType::Float4E2M1 => Some(4),
            DataType::Float8E8M0 => Some(8),
            DataType::Uint2 => Some(2),
            DataType::Int2 => Some(2),
        }
    }

    /// Returns true if the type is a floating-point type.
    pub fn is_floating_point(&self) -> (r: bool)
        ensures
            r == is_floating_point_type(*self),
    {
        match self {
            DataType::Float => true,
            DataType::Float16 => true,
            DataType::Double => true,
            DataType::Bfloat16 => true,
            DataType::Float8E4M3Fn => true,
            DataType::Float8E4M3Fnuz => true,
            DataType::Float8E5M2 => true,
            DataType::Float8E5M2Fnuz => true,
            DataType::Float4E2M1 => true,
            DataType::Float8E8M0 => true,
            _ => false,
        }
    }

    /// Returns true if the type is an integer type.
    pub fn is_integer(&self) -> (r: bool)
        ensures
            r == is_integer_type(*self),
    {
        match self {
            DataType::Uint8 => true,
            DataType::Int8 => true,
            DataType::Uint16 => true,
            DataType::Int16 => true,
            DataType::Int32 => true,
            DataType::Int64 => true,
            DataType::Uint32 => true,
            DataType::Uint64 => true,
            DataType::Uint4 => true,
            DataType::Int4 => true,
            DataType::Int2 => true,
            DataType::Uint2 => true,
            _ => false,
        }
    }

    /// Returns true if values of the type carry a sign.
    pub fn is_signed(&self) -> (r: bool)
        ensures
            r == is_signed_type(*self),
    {
        match self {
            DataType::Float => true,
            DataType::Int8 => true,
            DataType::Int16 => true,
            DataType::Int32 => true,
            DataType::Int64 => true,
            DataType::Float16 => true,
            DataType::Double => true,
            DataType::Complex64 => true,
            DataType::Complex128 => true,
            DataType::Bfloat16 => true,
            DataType::Float8E4M3Fn => true,
            DataType::Float8E4M3Fnuz => true,
            DataType::Float8E5M2 => true,
            DataType::Float8E5M2Fnuz => true,
            DataType::Int4 => true,
            DataType::Float4E2M1 => true,
            DataType::Float8E8M0 => true,
            DataType::Int2 => true,
            _ => false,
        }
    }

    /// Returns true if the type is the string type.
    pub fn is_string(&self) -> (r: bool)
        ensures
            r == (*self == DataType::String),
    {
        match self {
            DataType::String => true,
            _ => false,
        }
    }

    /// Returns the compact name of the type (`f32` for `Float`, `i64` for `Int64`).
    pub fn short_name(&self) -> (r: &'static str)
        ensures
            r@ == short_name_of(*self),
    {
        match self {
            DataType::Undefined => "undefined",
            DataType::Float => "f32",
            DataType::Uint8 => "u8",
            DataType::Int8 => "i8",
            DataType::Uint16 => "u16",
            DataType::Int16 => "i16",
            DataType::Int32 => "i32",
            DataType::Int64 => "i64",
            DataType::String => "s",
            DataType::Bool => "b8",
            DataType::Float16 => "f16",
            DataType::Double => "f64",
            DataType::Uint32 => "u32",
            DataType::Uint64 => "u64",
            DataType::Complex64 => "c64",
            DataType::Complex128 => "c128",
            DataType::Bfloat16 => "bf16",
            DataType::Float8E4M3Fn => "f8e4m3fn",
            DataType::Float8E4M3Fnuz => "f8e4m3fnuz",
            DataType::Float8E5M2 => "f8e5m2",
            DataType::Float8E5M2Fnuz => "f8e5m2fnuz",
            DataType::Uint4 => "u4",
            DataType::Int4 => "i4",
            DataType::Float4E2M1 => "f4e2m1",
            DataType::Float8E8M0 => "f8e8m0",
            DataType::Uint2 => "u2",
            DataType::Int2 => "i2",
        }
    }

    /// Returns the element type whose compact name is `name`, or `None`.
    pub fn from_short_name(name: &str) -> (r: Option<DataType>)
        ensures
            r == data_type_named(name@),
    {
        if str_eq(name, "undefined") {
            Some(DataType::Undefined)
        } else if str_eq(name, "f32") {
            Some(DataType::Float)
        } else if str_eq(name, "u8") {
            Some(DataType::Uint8)
        } else if str_eq(name, "i8") {
            Some(DataType::Int8)
        } else if str_eq(name, "u16") {
            Some(DataType::Uint16)
        } else if str_eq(name, "i16") {
            Some(DataType::Int16)
        } else if str_eq(name, "i32") {
            Some(DataType::Int32)
        } else if str_eq(name, "i64") {
            Some(DataType::Int64)
        } else if str_eq(name, "s") {
            Some(DataType::String)
        } else if str_eq(name, "b8") {
            Some(DataType::Bool)
        } else if str_eq(name, "f16") {
            Some(DataType::Float16)
        } else if str_eq(name, "f64") {
            Some(DataType::Double)
        } else if str_eq(name, "u32") {
            Some(DataType::Uint32)
        } else if str_eq(name, "u64") {
            Some(DataType::Uint64)
        } else if str_eq(name, "c64") {
            Some(DataType::Complex64)
        } else if str_eq(name, "c128") {
            Some(DataType::Complex128)
        } else if str_eq(name, "bf16") {
            Some(DataType::Bfloat16)
        } else if str_eq(name, "f8e4m3fn") {
            Some(DataType::Float8E4M3Fn)
        } else if str_eq(name, "f8e4m3fnuz") {
            Some(DataType::Float8E4M3Fnuz)
        } else if str_eq(name, "f8e5m2") {
            Some(DataType::Float8E5M2)
        } else if str_eq(name, "f8e5m2fnuz") {
            Some(DataType::Float8E5M2Fnuz)
        } else if str_eq(name, "u4") {
            Some(DataType::Uint4)
        } else if str_eq(name, "i4") {
            Some(DataType::Int4)
        } else if str_eq(name, "f4e2m1") {
            Some(DataType::Float4E2M1)
        } else if str_eq(name, "f8e8m0") {
            Some(DataType::Float8E8M0)
        } else if str_eq(name, "u2") {
            Some(DataType::Uint2)
        } else if str_eq(name, "i2") {
            Some(DataType::Int2)
        } else {
            None
        }
    }
}

/// Reading back the compact name of any element type gives that type again.
pub proof fn lemma_short_name_round_trip(d: DataType)
    ensures
        data_type_named(short_name_of(d)) == Some(d),
{
    match d {
        DataType::Undefined => {
            reveal_strlit("undefined");
            assert(short_name_of(d) == "undefined"@);
        },
        DataType::Float => {
            reveal_strlit("f32");
            assert(short_name_of(d) == "f32"@);
            reveal_strlit("undefined");
            assert("f32"@ != "undefined"@);
        },
        DataType::Uint8 => {
            reveal_strlit("u8");
            assert(short_name_of(d) == "u8"@);
            reveal_strlit("undefined");
            assert("u8"@ != "undefined"@);
            reveal_strlit("f32");
            assert("u8"@ != "f32"@);
        },
        DataType::Int8 => {
            reveal_strlit("i8");
            assert(short_name_of(d) == "i8"@);
            reveal_strlit("undefined");
            assert("i8"@ != "undefined"@);
            reveal_strlit("f32");
            assert("i8"@ != "f32"@);
            reveal_strlit("u8");
            assert("i8"@[0] != "u8"@[0]);
            assert("i8"@ != "u8"@);
        },
        DataType::Uint16 => {
            reveal_strlit("u16");
            assert(short_name_of(d) == "u16"@);
            reveal_strlit("undefined");
            assert("u16"@ != "undefined"@);
            reveal_strlit("f32");
            assert("u16"@[0] != "f32"@[0]);
            assert("u16"@ != "f32"@);
            reveal_strlit("u8");
            assert("u16"@ != "u8"@);
            reveal_strlit("i8");
            assert("u16"@ != "i8"@);
        },
        DataType::Int16 => {
            reveal_strlit("i16");
            assert(short_name_of(d) == "i16"@);
            reveal_strlit("undefined");
            assert("i16"@ != "undefined"@);
            reveal_strlit("f32");
            assert("i16"@[0] != "f32"@[0]);
            assert("i16"@ != "f32"@);
            reveal_strlit("u8");
            assert("i16"@ != "u8"@);
            reveal_strlit("i8");
            assert("i16"@ != "i8"@);
            reveal_strlit("u16");
            assert("i16"@[0] != "u16"@[0]);
            assert("i16"@ != "u16"@);
        },
        DataType::Int32 => {
            reveal_strlit("i32");
            assert(short_name_of(d) == "i32"@);
            reveal_strlit("undefined");
            assert("i32"@ != "undefined"@);
            reveal_strlit("f32");
            assert("i32"@[0] != "f32"@[0]);
            assert("i32"@ != "f32"@);
            reveal_strlit("u8");
            assert("i32"@ != "u8"@);
            reveal_strlit("i8");
            assert("i32"@ != "i8"@);
            reveal_strlit("u16");
            assert("i32"@[0] != "u16"@[0]);
            assert("i32"@ != "u16"@);
            reveal_strlit("i16");
            assert("i32"@[1] != "i16"@[1]);
            assert("i32"@ != "i16"@);
        },
        DataType::Int64 => {
            reveal_strlit("i64");
            assert(short_name_of(d) == "i64"@);
            reveal_strlit("undefined");
            assert("i64"@ != "undefined"@);
            reveal_strlit("f32");
            assert("i64"@[0] != "f32"@[0]);
            assert("i64"@ != "f32"@);
            reveal_strlit("u8");
            assert("i64"@ != "u8"@);
            reveal_strlit("i8");
            assert("i64"@ != "i8"@);
            reveal_strlit("u16");
            assert("i64"@[0] != "u16"@[0]);
            assert("i64"@ != "u16"@);
            reveal_strlit("i16");
            assert("i64"@[1] != "i16"@[1]);
            assert("i64"@ != "i16"@);
            reveal_strlit("i32");
            assert("i64"@[1] != "i32"@[1]);
            assert("i64"@ != "i32"@);
        },
        DataType::String => {
            reveal_strlit("s");
            assert(short_name_of(d) == "s"@);
            reveal_strlit("undefined");
            assert("s"@ != "undefined"@);
            reveal_strlit("f32");
            assert("s"@ != "f32"@);
            reveal_strlit("u8");
            assert("s"@ != "u8"@);
            reveal_strlit("i8");
            assert("s"@ != "i8"@);
            reveal_strlit("u16");
            assert("s"@ != "u16"@);
            reveal_strlit("i16");
            assert("s"@ != "i16"@);
            reveal_strlit("i32");
            assert("s"@ != "i32"@);
            reveal_strlit("i64");
            assert("s"@ != "i64"@);
        },
        DataType::Bool => {
            reveal_strlit("b8");
            assert(short_name_of(d) == "b8"@);
            reveal_strlit("undefined");
            assert("b8"@ != "undefined"@);
            reveal_strlit("f32");
            assert("b8"@ != "f32"@);
            reveal_strlit("u8");
            assert("b8"@[0] != "u8"@[0]);
            assert("b8"@ != "u8"@);
            reveal_strlit("i8");
            assert("b8"@[0] != "i8"@[0]);
            assert("b8"@ != "i8"@);
            reveal_strlit("u16");
            assert("b8"@ != "u16"@);
            reveal_strlit("i16");
            assert("b8"@ != "i16"@);
            reveal_strlit("i32");
            assert("b8"@ != "i32"@);
            reveal_strlit("i64");
            assert("b8"@ != "i64"@);
            reveal_strlit("s");
            assert("b8"@ != "s"@);
        },
        DataType::Float16 => {
            reveal_strlit("f16");
            assert(short_name_of(d) == "f16"@);
            reveal_strlit("undefined");
            assert("f16"@ != "undefined"@);
            reveal_strlit("f32");
            assert("f16"@[1] != "f32"@[1]);
            assert("f16"@ != "f32"@);
            reveal_strlit("u8");
            assert("f16"@ != "u8"@);
            reveal_strlit("i8");
            assert("f16"@ != "i8"@);
            reveal_strlit("u16");
            assert("f16"@[0] != "u16"@[0]);
            assert("f16"@ != "u16"@);
            reveal_strlit("i16");
            assert("f16"@[0] != "i16"@[0]);
            assert("f16"@ != "i16"@);
            reveal_strlit("i32");
            assert("f16"@[0] != "i32"@[0]);
            assert("f16"@ != "i32"@);
            reveal_strlit("i64");
            assert("f16"@[0] != "i64"@[0]);
            assert("f16"@ != "i64"@);
            reveal_strlit("s");
            assert("f16"@ != "s"@);
            reveal_strlit("b8");
            assert("f16"@ != "b8"@);
        },
        DataType::Double => {
            reveal_strlit("f64");
            assert(short_name_of(d) == "f64"@);
            reveal_strlit("undefined");
            assert("f64"@ != "undefined"@);
            reveal_strlit("f32");
            assert("f64"@[1] != "f32"@[1]);
            assert("f64"@ != "f32"@);
            reveal_strlit("u8");
            assert("f64"@ != "u8"@);
            reveal_strlit("i8");
            assert("f64"@ != "i8"@);
            reveal_strlit("u16");
            assert("f64"@[0] != "u16"@[0]);
            assert("f64"@ != "u16"@);
            reveal_strlit("i16");
            assert("f64"@[0] != "i16"@[0]);
            assert("f64"@ != "i16"@);
            reveal_strlit("i32");
            assert("f64"@[0] != "i32"@[0]);
            assert("f64"@ != "i32"@);
            reveal_strlit("i64");
            assert("f64"@[0] != "i64"@[0]);
            assert("f64"@ != "i64"@);
            reveal_strlit("s");
            assert("f64"@ != "s"@);
            reveal_strlit("b8");
            assert("f64"@ != "b8"@);
            reveal_strlit("f16");
            assert("f64"@[1] != "f16"@[1]);
            assert("f64"@ != "f16"@);
        },
        DataType::Uint32 => {
            reveal_strlit("u32");
            assert(short_name_of(d) == "u32"@);
            reveal_strlit("undefined");
            assert("u32"@ != "undefined"@);
            reveal_strlit("f32");
            assert("u32"@[0] != "f32"@[0]);
            assert("u32"@ != "f32"@);
            reveal_strlit("u8");
            assert("u32"@ != "u8"@);
            reveal_strlit("i8");
            assert("u32"@ != "i8"@);
            reveal_strlit("u16");
            assert("u32"@[1] != "u16"@[1]);
            assert("u32"@ != "u16"@);
            reveal_strlit("i16");
            assert("u32"@[0] != "i16"@[0]);
            assert("u32"@ != "i16"@);
            reveal_strlit("i32");
            assert("u32"@[0] != "i32"@[0]);
            assert("u32"@ != "i32"@);
            reveal_strlit("i64");
            assert("u32"@[0] != "i64"@[0]);
            assert("u32"@ != "i64"@);
            reveal_strlit("s");
            assert("u32"@ != "s"@);
            reveal_strlit("b8");
            assert("u32"@ != "b8"@);
            reveal_strlit("f16");
            assert("u32"@[0] != "f16"@[0]);
            assert("u32"@ != "f16"@);
            reveal_strlit("f64");
            assert("u32"@[0] != "f64"@[0]);
            assert("u32"@ != "f64"@);
        },
        DataType::Uint64 => {
            reveal_strlit("u64");
            assert(short_name_of(d) == "u64"@);
            reveal_strlit("undefined");
            assert("u64"@ != "undefined"@);
            reveal_strlit("f32");
            assert("u64"@[0] != "f32"@[0]);
            assert("u64"@ != "f32"@);
            reveal_strlit("u8");
            assert("u64"@ != "u8"@);
            reveal_strlit("i8");
            assert("u64"@ != "i8"@);
            reveal_strlit("u16");
            assert("u64"@[1] != "u16"@[1]);
            assert("u64"@ != "u16"@);
            reveal_strlit("i16");
            assert("u64"@[0] != "i16"@[0]);
            assert("u64"@ != "i16"@);
            reveal_strlit("i32");
            assert("u64"@[0] != "i32"@[0]);
            assert("u64"@ != "i32"@);
            reveal_strlit("i64");
            assert("u64"@[0] != "i64"@[0]);
            assert("u64"@ != "i64"@);
            reveal_strlit("s");
            assert("u64"@ != "s"@);
            reveal_strlit("b8");
            assert("u64"@ != "b8"@);
            reveal_strlit("f16");
            assert("u64"@[0] != "f16"@[0]);
            assert("u64"@ != "f16"@);
            reveal_strlit("f64");
            assert("u64"@[0] != "f64"@[0]);
            assert("u64"@ != "f64"@);
            reveal_strlit("u32");
            assert("u64"@[1] != "u32"@[1]);
            assert("u64"@ != "u32"@);
        },
        DataType::Complex64 => {
            reveal_strlit("c64");
            assert(short_name_of(d) == "c64"@);
            reveal_strlit("undefined");
            assert("c64"@ != "undefined"@);
            reveal_strlit("f32");
            assert("c64"@[0] != "f32"@[0]);
            assert("c64"@ != "f32"@);
            reveal_strlit("u8");
            assert("c64"@ != "u8"@);
            reveal_strlit("i8");
            assert("c64"@ != "i8"@);
            reveal_strlit("u16");
            assert("c64"@[0] != "u16"@[0]);
            assert("c64"@ != "u16"@);
            reveal_strlit("i16");
            assert("c64"@[0] != "i16"@[0]);
            assert("c64"@ != "i16"@);
            reveal_strlit("i32");
            assert("c64"@[0] != "i32"@[0]);
            assert("c64"@ != "i32"@);
            reveal_strlit("i64");
            assert("c64"@[0] != "i64"@[0]);
            assert("c64"@ != "i64"@);
            reveal_strlit("s");
            assert("c64"@ != "s"@);
            reveal_strlit("b8");
            assert("c64"@ != "b8"@);
            reveal_strlit("f16");
            assert("c64"@[0] != "f16"@[0]);
            assert("c64"@ != "f16"@);
            reveal_strlit("f64");
            assert("c64"@[0] != "f64"@[0]);
            assert("c64"@ != "f64"@);
            reveal_strlit("u32");
            assert("c64"@[0] != "u32"@[0]);
            assert("c64"@ != "u32"@);
            reveal_strlit("u64");
            assert("c64"@[0] != "u64"@[0]);
            assert("c64"@ != "u64"@);
        },
        DataType::Complex128 => {
            reveal_strlit("c128");
            assert(short_name_of(d) == "c128"@);
            reveal_strlit("undefined");
            assert("c128"@ != "undefined"@);
            reveal_strlit("f32");
            assert("c128"@ != "f32"@);
            reveal_strlit("u8");
            assert("c128"@ != "u8"@);
            reveal_strlit("i8");
            assert("c128"@ != "i8"@);
            reveal_strlit("u16");
            assert("c128"@ != "u16"@);
            reveal_strlit("i16");
            assert("c128"@ != "i16"@);
            reveal_strlit("i32");
            assert("c128"@ != "i32"@);
            reveal_strlit("i64");
            assert("c128"@ != "i64"@);
            reveal_strlit("s");
            assert("c128"@ != "s"@);
            reveal_strlit("b8");
            assert("c128"@ != "b8"@);
            reveal_strlit("f16");
            assert("c128"@ != "f16"@);
            reveal_strlit("f64");
            assert("c128"@ != "f64"@);
            reveal_strlit("u32");
            assert("c128"@ != "u32"@);
            reveal_strlit("u64");
            assert("c128"@ != "u64"@);
            reveal_strlit("c64");
            assert("c128"@ != "c64"@);
        },
        DataType::Bfloat16 => {
            reveal_strlit("bf16");
            assert(short_name_of(d) == "bf16"@);
            reveal_strlit("undefined");
            assert("bf16"@ != "undefined"@);
            reveal_strlit("f32");
            assert("bf16"@ != "f32"@);
            reveal_strlit("u8");
            assert("bf16"@ != "u8"@);
            reveal_strlit("i8");
            assert("bf16"@ != "i8"@);
            reveal_strlit("u16");
            assert("bf16"@ != "u16"@);
            reveal_strlit("i16");
            assert("bf16"@ != "i16"@);
            reveal_strlit("i32");
            assert("bf16"@ != "i32"@);
            reveal_strlit("i64");
            assert("bf16"@ != "i64"@);
            reveal_strlit("s");
            assert("bf16"@ != "s"@);
            reveal_strlit("b8");
            assert("bf16"@ != "b8"@);
            reveal_strlit("f16");
            assert("bf16"@ != "f16"@);
            reveal_strlit("f64");
            assert("bf16"@ != "f64"@);
            reveal_strlit("u32");
            assert("bf16"@ != "u32"@);
            reveal_strlit("u64");
            assert("bf16"@ != "u64"@);
            reveal_strlit("c64");
            assert("bf16"@ != "c64"@);
            reveal_strlit("c128");
            assert("bf16"@[0] != "c128"@[0]);
            assert("bf16"@ != "c128"@);
        },
        DataType::Float8E4M3Fn => {
            reveal_strlit("f8e4m3fn");
            assert(short_name_of(d) == "f8e4m3fn"@);
            reveal_strlit("undefined");
            assert("f8e4m3fn"@ != "undefined"@);
            reveal_strlit("f32");
            assert("f8e4m3fn"@ != "f32"@);
            reveal_strlit("u8");
            assert("f8e4m3fn"@ != "u8"@);
            reveal_strlit("i8");
            assert("f8e4m3fn"@ != "i8"@);
            reveal_strlit("u16");
            assert("f8e4m3fn"@ != "u16"@);
            reveal_strlit("i16");
            assert("f8e4m3fn"@ != "i16"@);
            reveal_strlit("i32");
            assert("f8e4m3fn"@ != "i32"@);
            reveal_strlit("i64");
            assert("f8e4m3fn"@ != "i64"@);
            reveal_strlit("s");
            assert("f8e4m3fn"@ != "s"@);
            reveal_strlit("b8");
            assert("f8e4m3fn"@ != "b8"@);
            reveal_strlit("f16");
            assert("f8e4m3fn"@ != "f16"@);
            reveal_strlit("f64");
            assert("f8e4m3fn"@ != "f64"@);
            reveal_strlit("u32");
            assert("f8e4m3fn"@ != "u32"@);
            reveal_strlit("u64");
            assert("f8e4m3fn"@ != "u64"@);
            reveal_strlit("c64");
            assert("f8e4m3fn"@ != "c64"@);
            reveal_strlit("c128");
            assert("f8e4m3fn"@ != "c128"@);
            reveal_strlit("bf16");
            assert("f8e4m3fn"@ != "bf16"@);
        },
        DataType::Float8E4M3Fnuz => {
            reveal_strlit("f8e4m3fnuz");
            assert(short_name_of(d) == "f8e4m3fnuz"@);
            reveal_strlit("undefined");
            assert("f8e4m3fnuz"@ != "undefined"@);
            reveal_strlit("f32");
            assert("f8e4m3fnuz"@ != "f32"@);
            reveal_strlit("u8");
            assert("f8e4m3fnuz"@ != "u8"@);
            reveal_strlit("i8");
            assert("f8e4m3fnuz"@ != "i8"@);
            reveal_strlit("u16");
            assert("f8e4m3fnuz"@ != "u16"@);
            reveal_strlit("i16");
            assert("f8e4m3fnuz"@ != "i16"@);
            reveal_strlit("i32");
            assert("f8e4m3fnuz"@ != "i32"@);
            reveal_strlit("i64");
            assert("f8e4m3fnuz"@ != "i64"@);
            reveal_strlit("s");
            assert("f8e4m3fnuz"@ != "s"@);
            reveal_strlit("b8");
            assert("f8e4m3fnuz"@ != "b8"@);
            reveal_strlit("f16");
            assert("f8e4m3fnuz"@ != "f16"@);
            reveal_strlit("f64");
            assert("f8e4m3fnuz"@ != "f64"@);
            reveal_strlit("u32");
            assert("f8e4m3fnuz"@ != "u32"@);
            reveal_strlit("u64");
            assert("f8e4m3fnuz"@ != "u64"@);
            reveal_strlit("c64");
            assert("f8e4m3fnuz"@ != "c64"@);
            reveal_strlit("c128");
            assert("f8e4m3fnuz"@ != "c128"@);
            reveal_strlit("bf16");
            assert("f8e4m3fnuz"@ != "bf16"@);
            reveal_strlit("f8e4m3fn");
            assert("f8e4m3fnuz"@ != "f8e4m3fn"@);
        },
        DataType::Float8E5M2 => {
            reveal_strlit("f8e5m2");
            assert(short_name_of(d) == "f8e5m2"@);
            reveal_strlit("undefined");
            assert("f8e5m2"@ != "undefined"@);
            reveal_strlit("f32");
            assert("f8e5m2"@ != "f32"@);
            reveal_strlit("u8");
            assert("f8e5m2"@ != "u8"@);
            reveal_strlit("i8");
            assert("f8e5m2"@ != "i8"@);
            reveal_strlit("u16");
            assert("f8e5m2"@ != "u16"@);
            reveal_strlit("i16");
            assert("f8e5m2"@ != "i16"@);
            reveal_strlit("i32");
            assert("f8e5m2"@ != "i32"@);
            reveal_strlit("i64");
            assert("f8e5m2"@ != "i64"@);
            reveal_strlit("s");
            assert("f8e5m2"@ != "s"@);
            reveal_strlit("b8");
            assert("f8e5m2"@ != "b8"@);
            reveal_strlit("f16");
            assert("f8e5m2"@ != "f16"@);
            reveal_strlit("f64");
            assert("f8e5m2"@ != "f64"@);
            reveal_strlit("u32");
            assert("f8e5m2"@ != "u32"@);
            reveal_strlit("u64");
            assert("f8e5m2"@ != "u64"@);
            reveal_strlit("c64");
            assert("f8e5m2"@ != "c64"@);
            reveal_strlit("c128");
            assert("f8e5m2"@ != "c128"@);
            reveal_strlit("bf16");
            assert("f8e5m2"@ != "bf16"@);
            reveal_strlit("f8e4m3fn");
            assert("f8e5m2"@ != "f8e4m3fn"@);
            reveal_strlit("f8e4m3fnuz");
            assert("f8e5m2"@ != "f8e4m3fnuz"@);
        },
        DataType::Float8E5M2Fnuz => {
            reveal_strlit("f8e5m2fnuz");
            assert(short_name_of(d) == "f8e5m2fnuz"@);
            reveal_strlit("undefined");
            assert("f8e5m2fnuz"@ != "undefined"@);
            reveal_strlit("f32");
            assert("f8e5m2fnuz"@ != "f32"@);
            reveal_strlit("u8");
            assert("f8e5m2fnuz"@ != "u8"@);
            reveal_strlit("i8");
            assert("f8e5m2fnuz"@ != "i8"@);
            reveal_strlit("u16");
            assert("f8e5m2fnuz"@ != "u16"@);
            reveal_strlit("i16");
            assert("f8e5m2fnuz"@ != "i16"@);
            reveal_strlit("i32");
            assert("f8e5m2fnuz"@ != "i32"@);
            reveal_strlit("i64");
            assert("f8e5m2fnuz"@ != "i64"@);
            reveal_strlit("s");
            assert("f8e5m2fnuz"@ != "s"@);
            reveal_strlit("b8");
            assert("f8e5m2fnuz"@ != "b8"@);
            reveal_strlit("f16");
            assert("f8e5m2fnuz"@ != "f16"@);
            reveal_strlit("f64");
            assert("f8e5m2fnuz"@ != "f64"@);
            reveal_strlit("u32");
            assert("f8e5m2fnuz"@ != "u32"@);
            reveal_strlit("u64");
            assert("f8e5m2fnuz"@ != "u64"@);
            reveal_strlit("c64");
            assert("f8e5m2fnuz"@ != "c64"@);
            reveal_strlit("c128");
            assert("f8e5m2fnuz"@ != "c128"@);
            reveal_strlit("bf16");
            assert("f8e5m2fnuz"@ != "bf16"@);
            reveal_strlit("f8e4m3fn");
            assert("f8e5m2fnuz"@ != "f8e4m3fn"@);
            reveal_strlit("f8e4m3fnuz");
            assert("f8e5m2fnuz"@[3] != "f8e4m3fnuz"@[3]);
            assert("f8e5m2fnuz"@ != "f8e4m3fnuz"@);
            reveal_strlit("f8e5m2");
            assert("f8e5m2fnuz"@ != "f8e5m2"@);
        },
        DataType::Uint4 => {
            reveal_strlit("u4");
            assert(short_name_of(d) == "u4"@);
            reveal_strlit("undefined");
            assert("u4"@ != "undefined"@);
            reveal_strlit("f32");
            assert("u4"@ != "f32"@);
            reveal_strlit("u8");
            assert("u4"@[1] != "u8"@[1]);
            assert("u4"@ != "u8"@);
            reveal_strlit("i8");
            assert("u4"@[0] != "i8"@[0]);
            assert("u4"@ != "i8"@);
            reveal_strlit("u16");
            assert("u4"@ != "u16"@);
            reveal_strlit("i16");
            assert("u4"@ != "i16"@);
            reveal_strlit("i32");
            assert("u4"@ != "i32"@);
            reveal_strlit("i64");
            assert("u4"@ != "i64"@);
            reveal_strlit("s");
            assert("u4"@ != "s"@);
            reveal_strlit("b8");
            assert("u4"@[0] != "b8"@[0]);
            assert("u4"@ != "b8"@);
            reveal_strlit("f16");
            assert("u4"@ != "f16"@);
            reveal_strlit("f64");
            assert("u4"@ != "f64"@);
            reveal_strlit("u32");
            assert("u4"@ != "u32"@);
            reveal_strlit("u64");
            assert("u4"@ != "u64"@);
            reveal_strlit("c64");
            assert("u4"@ != "c64"@);
            reveal_strlit("c128");
            assert("u4"@ != "c128"@);
            reveal_strlit("bf16");
            assert("u4"@ != "bf16"@);
            reveal_strlit("f8e4m3fn");
            assert("u4"@ != "f8e4m3fn"@);
            reveal_strlit("f8e4m3fnuz");
            assert("u4"@ != "f8e4m3fnuz"@);
            reveal_strlit("f8e5m2");
            assert("u4"@ != "f8e5m2"@);
            reveal_strlit("f8e5m2fnuz");
            assert("u4"@ != "f8e5m2fnuz"@);
        },
        DataType::Int4 => {
            reveal_strlit("i4");
            assert(short_name_of(d) == "i4"@);
            reveal_strlit("undefined");
            assert("i4"@ != "undefined"@);
            reveal_strlit("f32");
            assert("i4"@ != "f32"@);
            reveal_strlit("u8");
            assert("i4"@[0] != "u8"@[0]);
            assert("i4"@ != "u8"@);
            reveal_strlit("i8");
            assert("i4"@[1] != "i8"@[1]);
            assert("i4"@ != "i8"@);
            reveal_strlit("u16");
            assert("i4"@ != "u16"@);
            reveal_strlit("i16");
            assert("i4"@ != "i16"@);
            reveal_strlit("i32");
            assert("i4"@ != "i32"@);
            reveal_strlit("i64");
            assert("i4"@ != "i64"@);
            reveal_strlit("s");
            assert("i4"@ != "s"@);
            reveal_strlit("b8");
            assert("i4"@[0] != "b8"@[0]);
            assert("i4"@ != "b8"@);
            reveal_strlit("f16");
            assert("i4"@ != "f16"@);
            reveal_strlit("f64");
            assert("i4"@ != "f64"@);
            reveal_strlit("u32");
            assert("i4"@ != "u32"@);
            reveal_strlit("u64");
            assert("i4"@ != "u64"@);
            reveal_strlit("c64");
            assert("i4"@ != "c64"@);
            reveal_strlit("c128");
            assert("i4"@ != "c128"@);
            reveal_strlit("bf16");
            assert("i4"@ != "bf16"@);
            reveal_strlit("f8e4m3fn");
            assert("i4"@ != "f8e4m3fn"@);
            reveal_strlit("f8e4m3fnuz");
            assert("i4"@ != "f8e4m3fnuz"@);
            reveal_strlit("f8e5m2");
            assert("i4"@ != "f8e5m2"@);
            reveal_strlit("f8e5m2fnuz");
            assert("i4"@ != "f8e5m2fnuz"@);
            reveal_strlit("u4");
            assert("i4"@[0] != "u4"@[0]);
            assert("i4"@ != "u4"@);
        },
        DataType::Float4E2M1 => {
            reveal_strlit("f4e2m1");
            assert(short_name_of(d) == "f4e2m1"@);
            reveal_strlit("undefined");
            assert("f4e2m1"@ != "undefined"@);
            reveal_strlit("f32");
            assert("f4e2m1"@ != "f32"@);
            reveal_strlit("u8");
            assert("f4e2m1"@ != "u8"@);
            reveal_strlit("i8");
            assert("f4e2m1"@ != "i8"@);
            reveal_strlit("u16");
            assert("f4e2m1"@ != "u16"@);
            reveal_strlit("i16");
            assert("f4e2m1"@ != "i16"@);
            reveal_strlit("i32");
            assert("f4e2m1"@ != "i32"@);
            reveal_strlit("i64");
            assert("f4e2m1"@ != "i64"@);
            reveal_strlit("s");
            assert("f4e2m1"@ != "s"@);
            reveal_strlit("b8");
            assert("f4e2m1"@ != "b8"@);
            reveal_strlit("f16");
            assert("f4e2m1"@ != "f16"@);
            reveal_strlit("f64");
            assert("f4e2m1"@ != "f64"@);
            reveal_strlit("u32");
            assert("f4e2m1"@ != "u32"@);
            reveal_strlit("u64");
            assert("f4e2m1"@ != "u64"@);
            reveal_strlit("c64");
            assert("f4e2m1"@ != "c64"@);
            reveal_strlit("c128");
            assert("f4e2m1"@ != "c128"@);
            reveal_strlit("bf16");
            assert("f4e2m1"@ != "bf16"@);
            reveal_strlit("f8e4m3fn");
            assert("f4e2m1"@ != "f8e4m3fn"@);
            reveal_strlit("f8e4m3fnuz");
            assert("f4e2m1"@ != "f8e4m3fnuz"@);
            reveal_strlit("f8e5m2");
            assert("f4e2m1"@[1] != "f8e5m2"@[1]);
            assert("f4e2m1"@ != "f8e5m2"@);
            reveal_strlit("f8e5m2fnuz");
            assert("f4e2m1"@ != "f8e5m2fnuz"@);
            reveal_strlit("u4");
            assert("f4e2m1"@ != "u4"@);
            reveal_strlit("i4");
            assert("f4e2m1"@ != "i4"@);
        },
        DataType::Float8E8M0 => {
            reveal_strlit("f8e8m0");
            assert(short_name_of(d) == "f8e8m0"@);
            reveal_strlit("undefined");
            assert("f8e8m0"@ != "undefined"@);
            reveal_strlit("f32");
            assert("f8e8m0"@ != "f32"@);
            reveal_strlit("u8");
            assert("f8e8m0"@ != "u8"@);
            reveal_strlit("i8");
            assert("f8e8m0"@ != "i8"@);
            reveal_strlit("u16");
            assert("f8e8m0"@ != "u16"@);
            reveal_strlit("i16");
            assert("f8e8m0"@ != "i16"@);
            reveal_strlit("i32");
            assert("f8e8m0"@ != "i32"@);
            reveal_strlit("i64");
            assert("f8e8m0"@ != "i64"@);
            reveal_strlit("s");
            assert("f8e8m0"@ != "s"@);
            reveal_strlit("b8");
            assert("f8e8m0"@ != "b8"@);
            reveal_strlit("f16");
            assert("f8e8m0"@ != "f16"@);
            reveal_strlit("f64");
            assert("f8e8m0"@ != "f64"@);
            reveal_strlit("u32");
            assert("f8e8m0"@ != "u32"@);
            reveal_strlit("u64");
            assert("f8e8m0"@ != "u64"@);
            reveal_strlit("c64");
            assert("f8e8m0"@ != "c64"@);
            reveal_strlit("c128");
            assert("f8e8m0"@ != "c128"@);
            reveal_strlit("bf16");
            assert("f8e8m0"@ != "bf16"@);
            reveal_strlit("f8e4m3fn");
            assert("f8e8m0"@ != "f8e4m3fn"@);
            reveal_strlit("f8e4m3fnuz");
            assert("f8e8m0"@ != "f8e4m3fnuz"@);
            reveal_strlit("f8e5m2");
            assert("f8e8m0"@[3] != "f8e5m2"@[3]);
            assert("f8e8m0"@ != "f8e5m2"@);
            reveal_strlit("f8e5m2fnuz");
            assert("f8e8m0"@ != "f8e5m2fnuz"@);
            reveal_strlit("u4");
            assert("f8e8m0"@ != "u4"@);
            reveal_strlit("i4");
            assert("f8e8m0"@ != "i4"@);
            reveal_strlit("f4e2m1");
            assert("f8e8m0"@[1] != "f4e2m1"@[1]);
            assert("f8e8m0"@ != "f4e2m1"@);
        },
        DataType::Uint2 => {
            reveal_strlit("u2");
            assert(short_name_of(d) == "u2"@);
            reveal_strlit("undefined");
            assert("u2"@ != "undefined"@);
            reveal_strlit("f32");
            assert("u2"@ != "f32"@);
            reveal_strlit("u8");
            assert("u2"@[1] != "u8"@[1]);
            assert("u2"@ != "u8"@);
            reveal_strlit("i8");
            assert("u2"@[0] != "i8"@[0]);
            assert("u2"@ != "i8"@);
            reveal_strlit("u16");
            assert("u2"@ != "u16"@);
            reveal_strlit("i16");
            assert("u2"@ != "i16"@);
            reveal_strlit("i32");
            assert("u2"@ != "i32"@);
            reveal_strlit("i64");
            assert("u2"@ != "i64"@);
            reveal_strlit("s");
            assert("u2"@ != "s"@);
            reveal_strlit("b8");
            assert("u2"@[0] != "b8"@[0]);
            assert("u2"@ != "b8"@);
            reveal_strlit("f16");
            assert("u2"@ != "f16"@);
            reveal_strlit("f64");
            assert("u2"@ != "f64"@);
            reveal_strlit("u32");
            assert("u2"@ != "u32"@);
            reveal_strlit("u64");
            assert("u2"@ != "u64"@);
            reveal_strlit("c64");
            assert("u2"@ != "c64"@);
            reveal_strlit("c128");
            assert("u2"@ != "c128"@);
            reveal_strlit("bf16");
            assert("u2"@ != "bf16"@);
            reveal_strlit("f8e4m3fn");
            assert("u2"@ != "f8e4m3fn"@);
            reveal_strlit("f8e4m3fnuz");
            assert("u2"@ != "f8e4m3fnuz"@);
            reveal_strlit("f8e5m2");
            assert("u2"@ != "f8e5m2"@);
            reveal_strlit("f8e5m2fnuz");
            assert("u2"@ != "f8e5m2fnuz"@);
            reveal_strlit("u4");
            assert("u2"@[1] != "u4"@[1]);
            assert("u2"@ != "u4"@);
            reveal_strlit("i4");
            assert("u2"@[0] != "i4"@[0]);
            assert("u2"@ != "i4"@);
            reveal_strlit("f4e2m1");
            assert("u2"@ != "f4e2m1"@);
            reveal_strlit("f8e8m0");
            assert("u2"@ != "f8e8m0"@);
        },
        DataType::Int2 => {
            reveal_strlit("i2");
            assert(short_name_of(d) == "i2"@);
            reveal_strlit("undefined");
            assert("i2"@ != "undefined"@);
            reveal_strlit("f32");
            assert("i2"@ != "f32"@);
            reveal_strlit("u8");
            assert("i2"@[0] != "u8"@[0]);
            assert("i2"@ != "u8"@);
            reveal_strlit("i8");
            assert("i2"@[1] != "i8"@[1]);
            assert("i2"@ != "i8"@);
            reveal_strlit("u16");
            assert("i2"@ != "u16"@);
            reveal_strlit("i16");
            assert("i2"@ != "i16"@);
            reveal_strlit("i32");
            assert("i2"@ != "i32"@);
            reveal_strlit("i64");
            assert("i2"@ != "i64"@);
            reveal_strlit("s");
            assert("i2"@ != "s"@);
            reveal_strlit("b8");
            assert("i2"@[0] != "b8"@[0]);
            assert("i2"@ != "b8"@);
            reveal_strlit("f16");
            assert("i2"@ != "f16"@);
            reveal_strlit("f64");
            assert("i2"@ != "f64"@);
            reveal_strlit("u32");
            assert("i2"@ != "u32"@);
            reveal_strlit("u64");
            assert("i2"@ != "u64"@);
            reveal_strlit("c64");
            assert("i2"@ != "c64"@);
            reveal_strlit("c128");
            assert("i2"@ != "c128"@);
            reveal_strlit("bf16");
            assert("i2"@ != "bf16"@);
            reveal_strlit("f8e4m3fn");
            assert("i2"@ != "f8e4m3fn"@);
            reveal_strlit("f8e4m3fnuz");
            assert("i2"@ != "f8e4m3fnuz"@);
            reveal_strlit("f8e5m2");
            assert("i2"@ != "f8e5m2"@);
            reveal_strlit("f8e5m2fnuz");
            assert("i2"@ != "f8e5m2fnuz"@);
            reveal_strlit("u4");
            assert("i2"@[0] != "u4"@[0]);
            assert("i2"@ != "u4"@);
            reveal_strlit("i4");
            assert("i2"@[1] != "i4"@[1]);
            assert("i2"@ != "i4"@);
            reveal_strlit("f4e2m1");
            assert("i2"@ != "f4e2m1"@);
            reveal_strlit("f8e8m0");
            assert("i2"@ != "f8e8m0"@);
            reveal_strlit("u2");
            assert("i2"@[0] != "u2"@[0]);
            assert("i2"@ != "u2"@);
        },
    }
}

} // verus!
