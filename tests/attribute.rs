use onnx_ir_core::attribute::{Attr, AttrValue, RefAttr};
use onnx_ir_core::enums::AttributeType;

#[test]
fn test_attr_float() {
    let attr = Attr::float("alpha", 0.5f32.to_bits());
    assert_eq!(attr.name, "alpha");
    assert_eq!(attr.attr_type(), AttributeType::Float);
    match attr.value {
        AttrValue::Float(v) => assert_eq!(f32::from_bits(v), 0.5),
        _ => panic!("Expected float value"),
    }
}

#[test]
fn test_attr_int() {
    let attr = Attr::integer("axis", 1);
    assert_eq!(attr.name, "axis");
    assert_eq!(attr.attr_type(), AttributeType::Int);
}

#[test]
fn test_attr_string() {
    let attr = Attr::string("name", "test".to_string());
    assert_eq!(attr.name, "name");
    assert_eq!(attr.attr_type(), AttributeType::String);
}

#[test]
fn test_attr_ints() {
    let attr = Attr::ints("shape", vec![1, 2, 3]);
    assert_eq!(attr.name, "shape");
    assert_eq!(attr.attr_type(), AttributeType::Ints);
}

#[test]
fn test_attribute_values() {
    let float_attr = Attr::float("alpha", 0.5f32.to_bits());
    assert!(matches!(float_attr.value, AttrValue::Float(v) if f32::from_bits(v) == 0.5));

    let int_attr = Attr::integer("axis", 1);
    assert!(matches!(int_attr.value, AttrValue::Int(1)));

    let string_attr = Attr::string("mode", "NOTSET".to_string());
    assert!(matches!(string_attr.value, AttrValue::String(ref s) if s == "NOTSET"));

    let ints_attr = Attr::ints("shape", vec![1, 2, 3]);
    assert!(matches!(ints_attr.value, AttrValue::Ints(ref v) if v == &vec![1, 2, 3]));
}

#[test]
fn kinds_of_list_and_type_attributes() {
    assert_eq!(Attr::floats("scales", vec![1.0f32.to_bits()]).attr_type(), AttributeType::Floats);
    assert_eq!(Attr::strings("names", vec!["a".to_string()]).attr_type(), AttributeType::Strings);
    assert_eq!(Attr::new("to", AttrValue::DataType(onnx_ir_core::enums::DataType::Float)).attr_type(), AttributeType::TypeProto);
    let r = RefAttr::new("alpha", "outer_alpha", AttributeType::Float);
    assert_eq!(r.ref_attr_name, "outer_alpha");
    assert_eq!(r.type_, AttributeType::Float);
}
