use onnx_ir_core::graph::Graph;
use onnx_ir_core::node::Node;
use onnx_ir_core::value::Value;

#[test]
fn test_value_new() {
    let graph = Graph::new();
    let value = Value::new("test_value");
    assert_eq!(value.name, "test_value");
    assert!(value.shape.is_none());
    assert!(value.type_.is_none());
    assert_eq!(value.num_uses(&graph.nodes), 0);
    assert!(value.producer(&graph.nodes).is_none());
}

#[test]
fn test_value_producer() {
    let mut graph = Graph::new();
    let value = graph.add_value(Value::new("output"));
    let mut node = Node::new("Add");
    node.outputs.push(value);
    let node_id = graph.append(node);

    graph.values[value].set_producer(Some(node_id));

    let producer = graph.producer(value);
    assert!(producer.is_some());
    assert_eq!(graph.node(producer.unwrap()).unwrap().op_type, "Add");

    graph.values[value].set_producer(None);
    assert!(graph.producer(value).is_none());
}

#[test]
fn test_value_consumers() {
    let mut graph = Graph::new();
    let value = graph.add_value(Value::new("input"));

    let mut node1 = Node::new("Add");
    node1.inputs.push(value);
    let node1_id = graph.append(node1);

    graph.values[value].add_consumer(node1_id, 0);

    assert_eq!(graph.num_uses(value), 1);

    let mut node2 = Node::new("Mul");
    node2.inputs.push(value);
    let node2_id = graph.append(node2);

    graph.values[value].add_consumer(node2_id, 0);

    assert_eq!(graph.num_uses(value), 2);

    let consumers = graph.consumers(value);
    assert_eq!(consumers.len(), 2);
}

#[test]
fn test_value_remove_consumer() {
    let mut graph = Graph::new();
    let value = graph.add_value(Value::new("x"));

    let mut node1 = Node::new("Add");
    node1.inputs.push(value);
    let weak1 = graph.append(node1);

    let mut node2 = Node::new("Mul");
    node2.inputs.push(value);
    let weak2 = graph.append(node2);

    graph.values[value].add_consumer(weak1, 0);
    graph.values[value].add_consumer(weak2, 0);

    assert_eq!(graph.num_uses(value), 2);

    graph.values[value].remove_consumer(weak1);
    assert_eq!(graph.num_uses(value), 1);

    graph.values[value].remove_consumer(weak2);
    assert_eq!(graph.num_uses(value), 0);
}

#[test]
fn test_value_clear_consumers() {
    let mut graph = Graph::new();
    let value = graph.add_value(Value::new("x"));

    let node1 = graph.append(Node::new("Add"));
    let node2 = graph.append(Node::new("Mul"));
    graph.node_add_input(node1, value);
    graph.node_add_input(node2, value);

    assert_eq!(graph.num_uses(value), 2);

    graph.values[value].clear_consumers();
    assert_eq!(graph.num_uses(value), 0);
}

#[test]
fn test_value_prune_dead_consumers() {
    let mut graph = Graph::new();
    let value = graph.add_value(Value::new("x"));

    let node_id = graph.append(Node::new("Add"));
    graph.node_add_input(node_id, value);
    assert_eq!(graph.num_uses(value), 1);

    // the node leaves the graph and is dropped
    drop(graph.nodes.remove(node_id));

    assert_eq!(graph.num_uses(value), 0);

    // the stale record is still there until pruned
    let removed = graph.values[value].prune_dead_consumers(&graph.nodes);
    assert_eq!(removed, 1);
    assert_eq!(graph.values[value].prune_dead_consumers(&graph.nodes), 0);
}

#[test]
fn test_value_replace_all_uses_with() {
    let mut graph = Graph::new();
    let original = graph.add_value(Value::new("original"));
    let replacement = graph.add_value(Value::new("replacement"));

    let node_id = graph.append(Node::new("Add"));
    graph.node_add_input(node_id, original);
    graph.node_add_input(node_id, original);

    assert_eq!(graph.num_uses(original), 2);
    assert_eq!(graph.num_uses(replacement), 0);

    graph.replace_all_uses_with(original, replacement);

    assert_eq!(graph.num_uses(original), 0);
    assert_eq!(graph.num_uses(replacement), 2);

    let node = graph.node(node_id).unwrap();
    assert_eq!(node.inputs.len(), 2);
    assert_eq!(graph.value(node.inputs[0]).name, "replacement");
    assert_eq!(graph.value(node.inputs[1]).name, "replacement");
}

#[test]
fn test_value_weak_reference_cleanup() {
    let mut graph = Graph::new();
    let value = graph.add_value(Value::new("x"));
    let node1 = graph.append(Node::new("Add"));
    graph.node_add_input(node1, value);
    assert_eq!(graph.num_uses(value), 1);

    graph.pop_last();

    assert_eq!(graph.num_uses(value), 0);
    let consumers = graph.consumers(value);
    assert_eq!(consumers.len(), 0);
}

#[test]
fn replacing_uses_over_two_nodes() {
    let mut graph = Graph::new();
    let v = graph.add_value(Value::new("v"));
    let v2 = graph.add_value(Value::new("v2"));
    let n1 = graph.append(Node::new("Add"));
    let n2 = graph.append(Node::new("Neg"));
    graph.node_add_input(n1, v);
    graph.node_add_input(n1, v);
    graph.node_add_input(n2, v);
    assert_eq!(graph.consumers(v), vec![(n1, 0), (n1, 1), (n2, 0)]);

    graph.replace_all_uses_with(v, v2);

    assert_eq!(graph.num_uses(v), 0);
    assert_eq!(graph.num_uses(v2), 3);
    assert_eq!(graph.node(n1).unwrap().inputs, vec![v2, v2]);
    assert_eq!(graph.node(n2).unwrap().inputs, vec![v2]);
    assert_eq!(graph.consumers(v2), vec![(n1, 0), (n1, 1), (n2, 0)]);
}

#[test]
fn add_consumer_counts_once_and_a_dropped_node_counts_no_more() {
    let mut graph = Graph::new();
    let v = graph.add_value(Value::new("v"));
    let n1 = graph.append(Node::new("A"));
    let n2 = graph.append(Node::new("B"));
    graph.values[v].add_consumer(n1, 0);
    let before = graph.num_uses(v);
    graph.values[v].add_consumer(n2, 3);
    assert_eq!(graph.num_uses(v), before + 1);
    assert!(graph.consumers(v).contains(&(n2, 3)));
    graph.nodes.remove(n2);
    assert_eq!(graph.num_uses(v), before);
}

#[test]
fn a_stale_producer_reads_as_none() {
    let mut graph = Graph::new();
    let v = graph.add_value(Value::new("y"));
    let n = graph.append(Node::new("Relu"));
    graph.node_add_output(n, v);
    assert_eq!(graph.producer(v), Some(n));
    assert_eq!(graph.node(n).unwrap().outputs, vec![v]);
    graph.pop_first();
    assert_eq!(graph.producer(v), None);
}

#[test]
fn replacing_skips_uses_past_the_inputs() {
    let mut graph = Graph::new();
    let v = graph.add_value(Value::new("v"));
    let w = graph.add_value(Value::new("w"));
    let n = graph.append(Node::new("A"));
    graph.node_add_input(n, v);
    graph.values[v].add_consumer(n, 7);
    graph.replace_all_uses_with(v, w);
    assert_eq!(graph.consumers(w), vec![(n, 0)]);
    assert_eq!(graph.num_uses(v), 0);
}

#[test]
fn value_level_replacement_between_separate_values() {
    let mut graph = Graph::new();
    let n = graph.append(Node::new("A"));
    let mut v = Value::new("v");
    let mut w = Value::new("w");
    graph.nodes.get_mut(n).inputs.push(0);
    v.add_consumer(n, 0);
    v.replace_all_uses_with(1, &mut w, &mut graph.nodes);
    assert_eq!(graph.nodes.get(n).unwrap().inputs, vec![1]);
    assert_eq!(v.num_uses(&graph.nodes), 0);
    assert_eq!(w.consumers(&graph.nodes), vec![(n, 0)]);
}
