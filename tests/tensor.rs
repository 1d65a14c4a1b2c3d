use onnx_ir_core::enums::DataType;
use onnx_ir_core::shape::Shape;
use onnx_ir_core::tensor::{ExternalTensor, StringTensor, Tensor, TensorProtocol};

#[test]
fn test_tensor_new() {
    let shape = Shape::new(vec![2, 3]);
    let tensor = Tensor::new(DataType::Float, shape.clone());

    assert_eq!(tensor.dtype, DataType::Float);
    assert_eq!(tensor.shape, shape);
    assert_eq!(tensor.size(), 6);
    assert_eq!(tensor.nbytes(), 6 * 4);
}

#[test]
fn test_tensor_from_bytes() {
    let shape = Shape::new(vec![2, 2]);
    let data = vec![0u8; 16];
    let tensor = Tensor::from_bytes(DataType::Float, shape.clone(), data);

    assert_eq!(tensor.dtype, DataType::Float);
    assert_eq!(tensor.shape, shape);
    assert_eq!(tensor.as_bytes().len(), 16);
}

#[test]
fn test_tensor_protocol() {
    let shape = Shape::new(vec![3, 4]);
    let mut tensor = Tensor::new(DataType::Int32, shape);
    tensor.name = Some("test_tensor".to_string());
    tensor.doc_string = Some("A test tensor".to_string());

    assert_eq!(tensor.name(), Some("test_tensor"));
    assert_eq!(tensor.dtype(), DataType::Int32);
    assert_eq!(tensor.size(), 12);
    assert_eq!(tensor.nbytes(), 12 * 4);
    assert_eq!(tensor.doc_string(), Some("A test tensor"));
}

#[test]
fn test_tensor_scalar() {
    let shape = Shape::scalar();
    let tensor = Tensor::new(DataType::Float, shape);

    assert_eq!(tensor.size(), 1);
    assert_eq!(tensor.nbytes(), 4);
}

#[test]
fn test_external_tensor() {
    let shape = Shape::new(vec![10, 20]);
    let mut ext_tensor = ExternalTensor::new("weights", DataType::Float, shape, "weights.bin", "/models");

    assert_eq!(ext_tensor.name(), Some("weights"));
    assert_eq!(ext_tensor.dtype(), DataType::Float);
    assert_eq!(ext_tensor.size(), 200);

    ext_tensor.set_range(0, 800);
    assert_eq!(ext_tensor.offset, Some(0));
    assert_eq!(ext_tensor.length, Some(800));
    assert_eq!(ext_tensor.nbytes(), 800);
}

#[test]
fn test_string_tensor() {
    let shape = Shape::new(vec![2, 2]);
    let data = vec!["hello".to_string(), "world".to_string(), "foo".to_string(), "bar".to_string()];
    let tensor = StringTensor::new(shape, data);

    assert_eq!(tensor.dtype(), DataType::String);
    assert_eq!(tensor.size(), 4);
    assert_eq!(tensor.as_strings().len(), 4);
    assert_eq!(tensor.nbytes(), 16);
}

#[test]
fn sub_byte_elements_round_up_to_whole_bytes() {
    let tensor = Tensor::new(DataType::Int4, Shape::new(vec![3]));
    assert_eq!(tensor.nbytes(), 2);
    let tensor = Tensor::new(DataType::Int2, Shape::new(vec![5]));
    assert_eq!(tensor.nbytes(), 2);
    let ext = ExternalTensor::new("w", DataType::Uint4, Shape::new(vec![7]), "w.bin", ".");
    assert_eq!(ext.nbytes(), 4);
    let ext = ExternalTensor::new("s", DataType::String, Shape::new(vec![7]), "s.bin", ".");
    assert_eq!(ext.nbytes(), 0);
}

#[test]
fn string_tensor_counts_utf8_bytes() {
    let tensor = StringTensor::new(Shape::new(vec![2]), vec!["é".to_string(), "ab".to_string()]);
    assert_eq!(tensor.nbytes(), 4);
}
