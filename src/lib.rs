//! An in-memory intermediate representation for computational graphs.
//!
//! The library keeps nodes in an ordered container that tolerates edits while
//! it is being walked, and tracks for every value which node produces it and
//! which nodes consume it, so that passes can rewrite the graph safely.
pub mod text;
pub mod enums;
pub mod linked_list;
pub mod shape;
pub mod metadata;
pub mod types;
pub mod tensor;
pub mod attribute;
pub mod node;
pub mod value;
pub mod opset;
pub mod graph;
pub mod function;
pub mod model;
pub mod name_authority;

pub use attribute::{Attr, AttrValue, RefAttr};
pub use enums::{AttributeType, DataType};
pub use function::Function;
pub use graph::{Graph, GraphView};
pub use linked_list::{DoublyLinkedList, Iter};
pub use metadata::{MetaType, MetaValue, MetadataStore};
pub use model::Model;
pub use name_authority::NameAuthority;
pub use node::Node;
pub use opset::OpsetImports;
pub use shape::{Shape, SymbolicDim};
pub use tensor::{ExternalTensor, LazyTensor, PackedTensor, StringTensor, Tensor, TensorProtocol};
pub use types::{IrType, OptionalType, SequenceType, SparseTensorType, TensorType, Type};
pub use value::Value;
