use onnx_ir_core::function::Function;
use onnx_ir_core::graph::Graph;
use onnx_ir_core::model::Model;
use onnx_ir_core::node::Node;
use onnx_ir_core::attribute::Attr;
use onnx_ir_core::value::Value;

#[test]
fn test_model_new() {
    let graph = Graph::new();
    let model = Model::new(graph);

    assert_eq!(model.ir_version, 9);
    assert!(model.functions.is_empty());
}

#[test]
fn test_model_opset_imports() {
    let graph = Graph::new();
    let mut model = Model::new(graph);

    model.set_opset_import("", 18);
    model.set_opset_import("com.example", 1);

    assert_eq!(model.get_opset_version(""), Some(18));
    assert_eq!(model.get_opset_version("com.example"), Some(1));
    assert_eq!(model.get_opset_version("unknown"), None);
}

#[test]
fn test_model_functions() {
    let graph = Graph::new();
    let mut model = Model::new(graph);

    let func = Function::new("MyFunc", "com.example");
    model.add_function(func);

    assert!(model.get_function("com.example", "MyFunc").is_some());
    assert!(model.get_function("com.example", "Unknown").is_none());
}

#[test]
fn test_function_new() {
    let func = Function::new("MyFunc", "com.example");
    assert_eq!(func.name, "MyFunc");
    assert_eq!(func.domain, "com.example");
    assert_eq!(func.num_inputs(), 0);
    assert_eq!(func.num_outputs(), 0);
}

#[test]
fn test_function_inputs_outputs() {
    let mut func = Function::new("MyFunc", "com.example");
    func.add_input(Value::new("x"));
    func.add_input(Value::new("y"));
    func.add_output(Value::new("z"));

    assert_eq!(func.num_inputs(), 2);
    assert_eq!(func.num_outputs(), 1);
}

#[test]
fn test_function_opset_imports() {
    let mut func = Function::new("MyFunc", "com.example");
    func.set_opset_import("", 18);

    assert_eq!(func.opset_imports.get(""), Some(18));
}

#[test]
fn test_build_simple_model() {
    let mut graph = Graph::new();
    graph.name = Some("test_graph".to_string());

    let input_x = graph.add_value(Value::new("x"));
    let input_y = graph.add_value(Value::new("y"));
    let output_z = graph.add_value(Value::new("z"));

    let mut node = Node::new("Add");
    node.name = Some("add_node".to_string());
    node.add_input(input_x);
    node.add_input(input_y);
    node.add_output(output_z);

    graph.append(node);

    let mut model = Model::new(graph);
    model.producer_name = Some("test_producer".to_string());
    model.set_opset_import("", 18);

    assert_eq!(model.producer_name, Some("test_producer".to_string()));
    assert_eq!(model.get_opset_version(""), Some(18));
    assert_eq!(model.graph.num_nodes(), 1);
}

#[test]
fn test_build_conv_model() {
    let mut graph = Graph::new();

    let input = graph.add_value(Value::new("input"));
    let weights = graph.add_value(Value::new("weights"));
    let output = graph.add_value(Value::new("output"));

    let mut conv_node = Node::new("Conv");
    conv_node.add_input(input);
    conv_node.add_input(weights);
    conv_node.add_output(output);

    conv_node.set_attribute(Attr::ints("kernel_shape", vec![3, 3]));
    conv_node.set_attribute(Attr::ints("pads", vec![1, 1, 1, 1]));
    conv_node.set_attribute(Attr::ints("strides", vec![1, 1]));

    assert_eq!(conv_node.num_inputs(), 2);
    assert_eq!(conv_node.num_outputs(), 1);
    assert!(conv_node.has_attributes());
    assert!(conv_node.get_attribute("kernel_shape").is_some());

    graph.append(conv_node);
    assert_eq!(graph.num_nodes(), 1);
}

#[test]
fn test_model_with_function() {
    let graph = Graph::new();
    let mut model = Model::new(graph);

    let mut func = Function::new("MyCustomOp", "com.example");
    func.add_input(Value::new("x"));
    func.add_output(Value::new("y"));

    model.add_function(func);

    assert!(model.get_function("com.example", "MyCustomOp").is_some());
}

#[test]
fn a_function_with_the_same_name_replaces_the_old_one() {
    let mut model = Model::new(Graph::new());
    model.add_function(Function::new("F", "d"));
    let mut g = Function::new("F", "d");
    g.add_input(Value::new("x"));
    model.add_function(g);
    model.add_function(Function::new("F", "e"));
    assert_eq!(model.functions.len(), 2);
    assert_eq!(model.get_function("d", "F").unwrap().num_inputs(), 1);
    model.set_opset_import("", 17);
    model.set_opset_import("", 18);
    assert_eq!(model.get_opset_version(""), Some(18));
    assert_eq!(model.opset_imports.len(), 1);
}
