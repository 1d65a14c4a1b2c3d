use onnx_ir_core::enums::DataType;
use onnx_ir_core::shape::Shape;
use onnx_ir_core::tensor::{Tensor, TensorProtocol};

#[test]
fn test_tensor_creation() {
    let shape = Shape::new(vec![2, 3]);
    let tensor = Tensor::new(DataType::Float, shape.clone());

    assert_eq!(tensor.size(), 6);
    assert_eq!(tensor.nbytes(), 24);
    assert_eq!(tensor.shape(), &shape);
}

use onnx_ir_core::graph::Graph;
use onnx_ir_core::node::Node;
use onnx_ir_core::value::Value;

#[test]
fn test_value_usage_tracking_integration() {
    let mut graph = Graph::new();

    let input = graph.add_value(Value::new("input"));
    let intermediate1 = graph.add_value(Value::new("intermediate1"));
    let intermediate2 = graph.add_value(Value::new("intermediate2"));
    let output = graph.add_value(Value::new("output"));

    // Relu(input) -> intermediate1
    let relu = graph.append(Node::new("Relu"));
    graph.node_add_input(relu, input);
    graph.node_add_output(relu, intermediate1);

    // Add(intermediate1, intermediate1) -> intermediate2
    let add = graph.append(Node::new("Add"));
    graph.node_add_input(add, intermediate1);
    graph.node_add_input(add, intermediate1);
    graph.node_add_output(add, intermediate2);

    // Mul(intermediate2, input) -> output
    let mul = graph.append(Node::new("Mul"));
    graph.node_add_input(mul, intermediate2);
    graph.node_add_input(mul, input);
    graph.node_add_output(mul, output);

    assert!(graph.producer(input).is_none());
    assert_eq!(graph.num_uses(input), 2);

    assert!(graph.producer(intermediate1).is_some());
    assert_eq!(graph.num_uses(intermediate1), 2);

    assert!(graph.producer(intermediate2).is_some());
    assert_eq!(graph.num_uses(intermediate2), 1);

    let constant_value = graph.add_value(Value::new("constant"));
    graph.replace_all_uses_with(intermediate1, constant_value);

    assert_eq!(graph.num_uses(intermediate1), 0);
    assert_eq!(graph.num_uses(constant_value), 2);

    {
        let add_node = graph.node(add).unwrap();
        assert_eq!(graph.value(add_node.inputs[0]).name, "constant");
        assert_eq!(graph.value(add_node.inputs[1]).name, "constant");
    }

    // the Add node leaves the graph and is dropped
    drop(graph.nodes.remove(add));

    let removed = graph.values[constant_value].prune_dead_consumers(&graph.nodes);
    assert_eq!(removed, 2);
    assert_eq!(graph.num_uses(constant_value), 0);
}

#[test]
fn test_graph_with_value_tracking() {
    let mut graph = Graph::new();
    graph.name = Some("value_tracking_test".to_string());

    let x = graph.add_value(Value::new("x"));
    let y = graph.add_value(Value::new("y"));
    let sum = graph.add_value(Value::new("sum"));

    graph.add_input(x);
    graph.add_input(y);

    let add = graph.append(Node::new("Add"));
    graph.node_add_input(add, x);
    graph.node_add_input(add, y);
    graph.node_add_output(add, sum);

    graph.add_output(sum);

    assert_eq!(graph.inputs.len(), 2);
    assert_eq!(graph.outputs.len(), 1);
    assert_eq!(graph.value(graph.inputs[0]).name, "x");
    assert_eq!(graph.value(graph.outputs[0]).name, "sum");

    assert_eq!(graph.num_uses(x), 1);
    assert_eq!(graph.num_uses(y), 1);
    assert!(graph.producer(sum).is_some());
}

#[test]
fn test_initializer_usage_tracking() {
    let mut graph = Graph::new();

    let weights = graph.add_value(Value::new("weights"));
    graph.add_initializer(weights);

    let input = graph.add_value(Value::new("input"));
    graph.add_input(input);

    let output = graph.add_value(Value::new("output"));

    let matmul = graph.append(Node::new("MatMul"));
    graph.node_add_input(matmul, input);
    graph.node_add_input(matmul, weights);
    graph.node_add_output(matmul, output);

    assert!(graph.get_initializer("weights").is_some());
    assert_eq!(graph.num_uses(weights), 1);

    let removed = graph.remove_initializer("weights");
    assert!(removed.is_some());
    assert!(graph.get_initializer("weights").is_none());

    assert_eq!(graph.num_uses(weights), 1);
}
