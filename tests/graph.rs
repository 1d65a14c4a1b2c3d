use onnx_ir_core::graph::Graph;
use onnx_ir_core::node::Node;
use onnx_ir_core::value::Value;

fn op_types(graph: &Graph) -> Vec<String> {
    let mut out = Vec::new();
    let mut it = graph.iter_nodes();
    while let Some(n) = it.next(&graph.nodes) {
        out.push(n.op_type.clone());
    }
    out
}

#[test]
fn test_graph_new() {
    let graph = Graph::new();
    assert!(graph.is_empty());
    assert_eq!(graph.num_nodes(), 0);
}

#[test]
fn test_graph_append() {
    let mut graph = Graph::new();
    let node1 = Node::new("Add");
    let node2 = Node::new("Mul");

    graph.append(node1);
    graph.append(node2);

    assert_eq!(graph.num_nodes(), 2);
    assert!(!graph.is_empty());
}

#[test]
fn test_graph_prepend() {
    let mut graph = Graph::new();
    let node1 = Node::new("Add");
    let node2 = Node::new("Mul");

    graph.prepend(node1);
    graph.prepend(node2);

    assert_eq!(graph.num_nodes(), 2);
    assert_eq!(op_types(&graph), vec!["Mul", "Add"]);
}

#[test]
fn test_graph_pop() {
    let mut graph = Graph::new();
    graph.append(Node::new("Add"));
    graph.append(Node::new("Mul"));

    let last = graph.pop_last();
    assert!(last.is_some());
    assert_eq!(last.unwrap().op_type, "Mul");
    assert_eq!(graph.num_nodes(), 1);

    let first = graph.pop_first();
    assert!(first.is_some());
    assert_eq!(first.unwrap().op_type, "Add");
    assert_eq!(graph.num_nodes(), 0);
}

#[test]
fn test_graph_clear() {
    let mut graph = Graph::new();
    graph.append(Node::new("Add"));
    graph.append(Node::new("Mul"));
    graph.append(Node::new("Sub"));

    assert_eq!(graph.num_nodes(), 3);

    graph.clear_nodes();

    assert_eq!(graph.num_nodes(), 0);
    assert!(graph.is_empty());
}

#[test]
fn test_graph_iter() {
    let mut graph = Graph::new();
    graph.append(Node::new("Add"));
    graph.append(Node::new("Mul"));
    graph.append(Node::new("Sub"));

    assert_eq!(op_types(&graph), vec!["Add", "Mul", "Sub"]);
}

#[test]
fn test_graph_inputs_outputs() {
    let mut graph = Graph::new();

    let input = graph.add_value(Value::new("input"));
    let output = graph.add_value(Value::new("output"));

    graph.add_input(input);
    graph.add_output(output);

    assert_eq!(graph.inputs.len(), 1);
    assert_eq!(graph.outputs.len(), 1);
    assert_eq!(graph.value(graph.inputs[0]).name, "input");
    assert_eq!(graph.value(graph.outputs[0]).name, "output");
}

#[test]
fn test_graph_initializers() {
    let mut graph = Graph::new();

    let init = graph.add_value(Value::new("weights"));
    graph.add_initializer(init);

    assert_eq!(graph.initializers.len(), 1);
    assert!(graph.get_initializer("weights").is_some());

    let removed = graph.remove_initializer("weights");
    assert!(removed.is_some());
    assert_eq!(graph.initializers.len(), 0);
}

#[test]
fn test_graph_mutation() {
    let mut graph = Graph::new();

    graph.append(Node::new("Add"));
    graph.append(Node::new("Mul"));
    graph.prepend(Node::new("Sub"));

    assert_eq!(graph.num_nodes(), 3);

    assert_eq!(op_types(&graph), vec!["Sub", "Add", "Mul"]);

    let first = graph.pop_first();
    assert!(first.is_some());
    assert_eq!(first.unwrap().op_type, "Sub");
    assert_eq!(graph.num_nodes(), 2);

    graph.clear_nodes();
    assert!(graph.is_empty());
}

#[test]
fn initializer_with_the_same_name_replaces_the_old_one() {
    let mut graph = Graph::new();
    let a = graph.add_value(Value::new("w"));
    let b = graph.add_value(Value::new("w"));
    let c = graph.add_value(Value::new("bias"));
    graph.add_initializer(a);
    graph.add_initializer(c);
    graph.add_initializer(b);
    assert_eq!(graph.initializers, vec![b, c]);
    assert_eq!(graph.get_initializer("w"), Some(b));
    assert_eq!(graph.get_initializer("none"), None);
    assert_eq!(graph.remove_initializer("none"), None);
}

#[test]
fn passes_may_add_nodes_while_walking() {
    let mut graph = Graph::new();
    graph.append(Node::new("A"));
    graph.append(Node::new("B"));
    let mut seen = Vec::new();
    let mut it = graph.iter_nodes();
    while let Some(n) = it.next(&graph.nodes) {
        let op = n.op_type.clone();
        seen.push(op.clone());
        if op == "A" {
            let here = it.link();
            graph.nodes.insert_after(here, Node::new("A2"));
            graph.prepend(Node::new("Z"));
        }
    }
    assert_eq!(seen, vec!["A", "A2", "B"]);
    assert_eq!(op_types(&graph), vec!["Z", "A", "A2", "B"]);
}
