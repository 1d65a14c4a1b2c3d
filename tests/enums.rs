use onnx_ir_core::enums::{AttributeType, DataType};

#[test]
fn test_datatype_bitwidth() {
    assert_eq!(DataType::Float.bitwidth(), Some(32));
    assert_eq!(DataType::Int64.bitwidth(), Some(64));
    assert_eq!(DataType::Int4.bitwidth(), Some(4));
    assert_eq!(DataType::Int2.bitwidth(), Some(2));
    assert_eq!(DataType::String.bitwidth(), None);
}

#[test]
fn test_datatype_predicates() {
    assert!(DataType::Float.is_floating_point());
    assert!(!DataType::Int32.is_floating_point());

    assert!(DataType::Int32.is_integer());
    assert!(!DataType::Float.is_integer());

    assert!(DataType::Int32.is_signed());
    assert!(!DataType::Uint32.is_signed());

    assert!(DataType::String.is_string());
    assert!(!DataType::Float.is_string());
}

#[test]
fn test_short_name_roundtrip() {
    let types = vec![DataType::Float, DataType::Int64, DataType::Bfloat16, DataType::Int4];
    for dtype in types {
        let short = dtype.short_name();
        assert_eq!(DataType::from_short_name(short), Some(dtype));
    }
}

#[test]
fn short_names_of_common_types() {
    assert_eq!(DataType::Float.short_name(), "f32");
    assert_eq!(DataType::Int64.short_name(), "i64");
    assert_eq!(DataType::Bfloat16.short_name(), "bf16");
    assert_eq!(DataType::Undefined.short_name(), "undefined");
    assert_eq!(DataType::from_short_name("f32"), Some(DataType::Float));
    assert_eq!(DataType::from_short_name("i64"), Some(DataType::Int64));
    assert_eq!(DataType::from_short_name("f8e4m3fnuz"), Some(DataType::Float8E4M3Fnuz));
    assert_eq!(DataType::from_short_name("invalid"), None);
    assert_eq!(DataType::from_short_name(""), None);
    assert_eq!(DataType::from_short_name("f3"), None);
}

#[test]
fn every_short_name_round_trips() {
    let all = vec![
        DataType::Undefined, DataType::Float, DataType::Uint8, DataType::Int8, DataType::Uint16,
        DataType::Int16, DataType::Int32, DataType::Int64, DataType::String, DataType::Bool,
        DataType::Float16, DataType::Double, DataType::Uint32, DataType::Uint64, DataType::Complex64,
        DataType::Complex128, DataType::Bfloat16, DataType::Float8E4M3Fn, DataType::Float8E4M3Fnuz,
        DataType::Float8E5M2, DataType::Float8E5M2Fnuz, DataType::Uint4, DataType::Int4,
        DataType::Float4E2M1, DataType::Float8E8M0, DataType::Uint2, DataType::Int2,
    ];
    for d in all {
        assert_eq!(DataType::from_short_name(d.short_name()), Some(d));
    }
}

#[test]
fn bitwidths_and_signs_of_other_types() {
    assert_eq!(DataType::Complex128.bitwidth(), Some(128));
    assert_eq!(DataType::Bool.bitwidth(), Some(8));
    assert_eq!(DataType::Undefined.bitwidth(), None);
    assert!(DataType::Float.is_signed());
    assert!(DataType::Complex64.is_signed());
    assert!(!DataType::Bool.is_signed());
    assert!(!DataType::Bool.is_integer());
    assert!(DataType::Float8E8M0.is_floating_point());
    assert_ne!(AttributeType::Float, AttributeType::Floats);
}
