use onnx_ir_core::attribute::{Attr, AttrValue};
use onnx_ir_core::node::Node;

#[test]
fn test_node_new() {
    let node = Node::new("Add");
    assert_eq!(node.op_type, "Add");
    assert_eq!(node.num_inputs(), 0);
    assert_eq!(node.num_outputs(), 0);
}

#[test]
fn test_node_add_inputs_outputs() {
    let mut node = Node::new("Add");
    node.add_input(0);
    node.add_input(1);
    node.add_output(2);

    assert_eq!(node.num_inputs(), 2);
    assert_eq!(node.num_outputs(), 1);
}

#[test]
fn test_node_attributes() {
    let mut node = Node::new("Conv");

    assert!(!node.has_attributes());

    node.set_attribute(Attr::integer("axis", 0));
    node.set_attribute(Attr::float("alpha", 0.5f32.to_bits()));

    assert!(node.has_attributes());
    assert_eq!(node.attributes.len(), 2);

    let attr = node.get_attribute("axis");
    assert!(attr.is_some());

    let removed = node.remove_attribute("axis");
    assert!(removed.is_some());
    assert_eq!(node.attributes.len(), 1);
}

#[test]
fn attributes_keep_their_order_and_are_replaced_in_place() {
    let mut node = Node::new("Conv");
    node.set_attribute(Attr::ints("kernel_shape", vec![3, 3]));
    node.set_attribute(Attr::ints("pads", vec![1, 1, 1, 1]));
    node.set_attribute(Attr::ints("strides", vec![1, 1]));
    node.set_attribute(Attr::ints("pads", vec![0, 0, 0, 0]));
    let names: Vec<&String> = node.attributes.keys().collect();
    assert_eq!(names, vec!["kernel_shape", "pads", "strides"]);
    assert!(node.remove_attribute("missing").is_none());
    node.remove_attribute("kernel_shape");
    let names: Vec<&String> = node.attributes.keys().collect();
    assert_eq!(names, vec!["pads", "strides"]);
}

#[test]
fn looked_up_attributes_carry_their_values() {
    let mut node = Node::new("Pad");
    node.set_attribute(Attr::ints("pads", vec![1, 1]));
    node.set_attribute(Attr::string("mode", "reflect".to_string()));
    node.set_attribute(Attr::ints("pads", vec![2, 2]));
    match &node.get_attribute("pads").unwrap().value {
        AttrValue::Ints(v) => assert_eq!(v, &vec![2, 2]),
        _ => panic!("pads should hold integers"),
    }
    assert!(node.get_attribute("axes").is_none());
    let removed = node.remove_attribute("mode").unwrap();
    assert_eq!(removed.name, "mode");
    assert!(node.has_attributes());
    node.remove_attribute("pads");
    assert!(!node.has_attributes());
}
