//! Models: a main graph with the functions and imports it relies on.
use crate::function::Function;
use crate::graph::Graph;
use crate::metadata::MetadataStore;
use crate::opset::OpsetImports;
use crate::text::str_eq;
use std::collections::HashMap;
use vstd::prelude::*;

verus! {

/// The IR version a new model declares.
pub const DEFAULT_IR_VERSION: i64 = 9;

/// A model.
pub struct Model {
    pub graph: Graph,
    pub ir_version: i64,
    pub producer_name: Option<String>,
    pub producer_version: Option<String>,
    pub domain: Option<String>,
    pub model_version: Option<i64>,
    pub doc_string: Option<String>,
    /// The functions, at most one per domain and name.
    pub functions: Vec<Function>,
    pub opset_imports: OpsetImports,
    pub metadata_props: HashMap<String, String>,
    pub meta: MetadataStore,
}

/// Function `f` has domain `d` and name `n`.
pub open spec fn named(f: Function, d: Seq<char>, n: Seq<char>) -> bool {
    f.domain@ == d && f.name@ == n
}

impl Model {
    /// The opset map is well formed.
    pub open spec fn wf(&self) -> bool {
        self.opset_imports.wf()
    }

    /// Creates a model around `graph` with the default IR version and nothing else.
    pub fn new(graph: Graph) -> (r: Self)
        ensures
            r.wf(),
            r.graph == graph,
            r.ir_version == DEFAULT_IR_VERSION,
            r.functions@.len() == 0,
            r.opset_imports.versions() == Map::<Seq<char>, i32>::empty(),
            r.producer_name is None,
    {
        Model {
            graph,
            ir_version: DEFAULT_IR_VERSION,
            producer_name: None,
            producer_version: None,
            domain: None,
            model_version: None,
            doc_string: None,
            functions: Vec::new(),
            opset_imports: OpsetImports::new(),
            metadata_props: HashMap::new(),
            meta: MetadataStore::new(),
        }
    }

    fn find_function(&self, domain: &str, name: &str) -> (r: Option<usize>)
        ensures
            match r {
                Some(i) => i < self.functions@.len() && named(self.functions@[i as int], domain@, name@),
                None => forall|i: int| 0 <= i < self.functions@.len() ==> !named(#[trigger] self.functions@[i], domain@, name@),
            },
    {
        let mut i: usize = 0;
        while i < self.functions.len()
            invariant
                i <= self.functions@.len(),
                forall|j: int| 0 <= j < i ==> !named(#[trigger] self.functions@[j], domain@, name@),
            decreases self.functions@.len() - i,
        {
            if str_eq(self.functions[i].domain.as_str(), domain) && str_eq(self.functions[i].name.as_str(), name) {
                return Some(i);
            }
            i = i + 1;
        }
        None
    }

    /// Adds a function, in place of one with the same domain and name.
    pub fn add_function(&mut self, function: Function)
        ensures
            (exists|i: int| 0 <= i < old(self).functions@.len() && named(old(self).functions@[i], function.domain@, function.name@))
                ==> exists|i: int| 0 <= i < old(self).functions@.len() && named(old(self).functions@[i], function.domain@, function.name@)
                && final(self).functions@ == old(self).functions@.update(i, function),
            (forall|i: int| 0 <= i < old(self).functions@.len() ==> !named(#[trigger] old(self).functions@[i], function.domain@, function.name@))
                ==> final(self).functions@ == old(self).functions@.push(function),
            final(self).opset_imports == old(self).opset_imports,
    {
        match self.find_function(function.domain.as_str(), function.name.as_str()) {
            Some(i) => {
                self.functions.set(i, function);
            },
            None => {
                self.functions.push(function);
            },
        }
    }

    /// Returns the function with domain `domain` and name `name`, if any.
    pub fn get_function(&self, domain: &str, name: &str) -> (r: Option<&Function>)
        ensures
            r is Some == exists|i: int| 0 <= i < self.functions@.len() && named(self.functions@[i], domain@, name@),
            r is Some ==> named(*r->Some_0, domain@, name@) && self.functions@.contains(*r->Some_0),
    {
        match self.find_function(domain, name) {
            Some(i) => {
                proof {
                    assert(self.functions@.contains(self.functions@[i as int]));
                }
                Some(&self.functions[i])
            },
            None => None,
        }
    }

    /// Sets the version of an imported domain.
    pub fn set_opset_import(&mut self, domain: &str, version: i32)
        requires
            old(self).wf(),
        ensures
            final(self).wf(),
            final(self).opset_imports.versions() == old(self).opset_imports.versions().insert(domain@, version),
    {
        self.opset_imports.set(domain, version);
    }

    /// Returns the version of an imported domain, if any.
    pub fn get_opset_version(&self, domain: &str) -> (r: Option<i32>)
        requires
            self.wf(),
        ensures
            r is Some == self.opset_imports.versions().contains_key(domain@),
            r is Some ==> r->Some_0 == self.opset_imports.versions()[domain@],
    {
        self.opset_imports.get(domain)
    }
}

} // verus!
