//! Functions: named, reusable bodies of operators with their own signature.
use crate::metadata::MetadataStore;
use crate::opset::OpsetImports;
use crate::value::Value;
use std::collections::HashMap;
use vstd::prelude::*;

verus! {

/// A function definition, named by its domain and name.
pub struct Function {
    pub name: String,
    pub domain: String,
    pub overload: String,
    pub inputs: Vec<Value>,
    pub outputs: Vec<Value>,
    pub doc_string: String,
    pub opset_imports: OpsetImports,
    pub metadata_props: HashMap<String, String>,
    pub meta: MetadataStore,
}

impl Function {
    /// The opset map is well formed.
    pub open spec fn wf(&self) -> bool {
        self.opset_imports.wf()
    }

    /// Creates a function with no inputs, outputs or imports.
    pub fn new(name: &str, domain: &str) -> (r: Self)
        ensures
            r.wf(),
            r.name@ == name@,
            r.domain@ == domain@,
            r.inputs@.len() == 0,
            r.outputs@.len() == 0,
            r.opset_imports.versions() == Map::<Seq<char>, i32>::empty(),
    {
        Function {
            name: name.to_owned(),
            domain: domain.to_owned(),
            overload: String::new(),
            inputs: Vec::new(),
            outputs: Vec::new(),
            doc_string: String::new(),
            opset_imports: OpsetImports::new(),
            metadata_props: HashMap::new(),
            meta: MetadataStore::new(),
        }
    }

    /// Appends an input value.
    pub fn add_input(&mut self, value: Value)
        ensures
            final(self).inputs@ == old(self).inputs@.push(value),
            final(self).outputs == old(self).outputs,
            final(self).opset_imports == old(self).opset_imports,
    {
        self.inputs.push(value);
    }

    /// Appends an output value.
    pub fn add_output(&mut self, value: Value)
        ensures
            final(self).outputs@ == old(self).outputs@.push(value),
            final(self).inputs == old(self).inputs,
            final(self).opset_imports == old(self).opset_imports,
    {
        self.outputs.push(value);
    }

    /// Sets the version of an imported domain.
    pub fn set_opset_import(&mut self, domain: &str, version: i32)
        requires
            old(self).wf(),
        ensures
            final(self).wf(),
            final(self).opset_imports.versions() == old(self).opset_imports.versions().insert(domain@, version),
    {
        self.opset_imports.set(domain, version);
    }

    /// Returns the number of inputs.
    pub fn num_inputs(&self) -> (r: usize)
        ensures
            r == self.inputs@.len(),
    {
        self.inputs.len()
    }

    /// Returns the number of outputs.
    pub fn num_outputs(&self) -> (r: usize)
        ensures
            r == self.outputs@.len(),
    {
        self.outputs.len()
    }
}

} // verus!
