use onnx_ir_core::shape::{Shape, SymbolicDim};

#[test]
fn test_symbolic_dim() {
    let dim1 = SymbolicDim::from_int(10);
    assert!(dim1.is_int());
    assert_eq!(dim1.as_int(), Some(10));

    let dim2 = SymbolicDim::from_symbol(Some("N".to_string()));
    assert!(dim2.is_symbol());
    assert_eq!(dim2.as_int(), None);
}

#[test]
fn test_shape() {
    let shape = Shape::new(vec![1, 2, 3]);
    assert_eq!(shape.rank(), 3);
    assert_eq!(shape.to_vec(), Some(vec![1, 2, 3]));

    let scalar = Shape::scalar();
    assert!(scalar.is_scalar());
    assert_eq!(scalar.rank(), 0);
}

#[test]
fn test_shape_mutation() {
    let mut shape = Shape::new(vec![1, 2, 3]);
    shape.set_dim(1, SymbolicDim::from(5));
    assert_eq!(shape.to_vec(), Some(vec![1, 5, 3]));

    shape.freeze();
    assert!(shape.is_frozen());
}

#[test]
fn test_shape_size() {
    let shape = Shape::new(vec![2, 3, 4]);
    assert_eq!(shape.size(), Some(24));

    let scalar = Shape::scalar();
    assert_eq!(scalar.size(), Some(1));
}

#[test]
fn test_symbolic_shape_size() {
    let mut shape = Shape::new(vec![2, 3]);
    assert_eq!(shape.size(), Some(6));

    shape.set_dim(1, SymbolicDim::Symbol(Some("N".to_string())));
    assert_eq!(shape.size(), None);
}

#[test]
fn sizes_of_edge_shapes() {
    assert_eq!(Shape::new(vec![]).size(), Some(1));
    assert_eq!(Shape::new(vec![4, 0, 7]).size(), Some(0));
    let unnamed = Shape::from_dims(vec![SymbolicDim::from_int(3), SymbolicDim::from_symbol(None)]);
    assert_eq!(unnamed.size(), None);
    assert_eq!(unnamed.to_vec(), None);
    let huge = Shape::new(vec![i64::MAX, 4]);
    assert_eq!(huge.size(), Some(usize::MAX));
}

#[test]
fn denotations_start_empty_and_can_be_set() {
    let mut shape = Shape::new(vec![1, 3]);
    assert_eq!(shape.get_denotation(0), None);
    shape.set_denotation(1, Some("CHANNEL".to_string()));
    assert_eq!(shape.get_denotation(1), Some("CHANNEL"));
    assert_eq!(shape.get_denotation(5), None);
    assert_eq!(shape.dims(), &[SymbolicDim::Int(1), SymbolicDim::Int(3)]);
}

#[test]
fn shapes_and_dimensions_are_written_out() {
    let shape = Shape::from_dims(vec![
        SymbolicDim::from_int(2),
        SymbolicDim::from_int(-5),
        SymbolicDim::from_symbol(Some("N".to_string())),
        SymbolicDim::from_symbol(None),
    ]);
    assert_eq!(shape.to_text(), "[2,-5,N,?]");
    assert_eq!(Shape::scalar().to_text(), "[]");
    assert_eq!(Shape::new(vec![1234567]).to_text(), "[1234567]");
    assert_eq!(SymbolicDim::from_int(i64::MIN).to_text(), "-9223372036854775808");
    assert_eq!(SymbolicDim::from_int(0).to_text(), "0");
}
