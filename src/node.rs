//! Nodes: invocations of an operator on input values, giving output values.
//!
//! A node refers to values by their number in the owning graph; the graph
//! keeps the values' records of producer and consumers in step with it.
use crate::attribute::Attr;
use crate::metadata::MetadataStore;
use indexmap::IndexMap;
use std::collections::HashMap;
use vstd::prelude::*;

verus! {

/// `indexmap::IndexMap`, the insertion-ordered hash map that holds a node's
/// attributes; opaque here, its contents are named by `attr_entries`.
#[verifier::external_type_specification]
#[verifier::external_body]
#[verifier::reject_recursive_types(K)]
#[verifier::reject_recursive_types(V)]
#[verifier::reject_recursive_types(S)]
pub struct ExIndexMap<K, V, S>(IndexMap<K, V, S>);

/// The entries of an attribute map, in their order.
pub uninterp spec fn attr_entries(m: IndexMap<String, Attr>) -> Seq<(Seq<char>, Attr)>;

/// Some entry of `s` has key `k`.
pub open spec fn has_key(s: Seq<(Seq<char>, Attr)>, k: Seq<char>) -> bool {
    exists|i: int| 0 <= i < s.len() && s[i].0 == k
}

/// No two entries of `s` share a key.
pub open spec fn keys_unique(s: Seq<(Seq<char>, Attr)>) -> bool {
    forall|i: int, j: int| 0 <= i < s.len() && 0 <= j < s.len() && i != j ==> #[trigger] s[i].0 != #[trigger] s[j].0
}

/// Relies on `IndexMap::new`: the map is empty.
#[verifier::external_body]
fn attrs_new() -> (r: IndexMap<String, Attr>)
    ensures
        attr_entries(r) == Seq::<(Seq<char>, Attr)>::empty(),
{
    IndexMap::new()
}

/// Relies on `IndexMap::insert`: an entry with an equal key keeps its place
/// and takes the new value, its old value is returned; otherwise the entry
/// goes last and `None` is returned.
#[verifier::external_body]
fn attrs_insert(m: &mut IndexMap<String, Attr>, key: String, value: Attr) -> (r: Option<Attr>)
    ensures
        forall|i: int| #![trigger attr_entries(*old(m))[i]] 0 <= i < attr_entries(*old(m)).len() && attr_entries(*old(m))[i].0 == key@
            ==> attr_entries(*final(m)) == attr_entries(*old(m)).update(i, (key@, value))
                && r == Some(attr_entries(*old(m))[i].1),
        !has_key(attr_entries(*old(m)), key@) ==> attr_entries(*final(m)) == attr_entries(*old(m)).push((key@, value))
            && r is None,
{
    m.insert(key, value)
}

/// Relies on `IndexMap::get`: the value of the entry with an equal key, if any.
#[verifier::external_body]
fn attrs_get<'a>(m: &'a IndexMap<String, Attr>, key: &str) -> (r: Option<&'a Attr>)
    ensures
        r is Some == has_key(attr_entries(*m), key@),
        forall|i: int| #![trigger attr_entries(*m)[i]] 0 <= i < attr_entries(*m).len() && attr_entries(*m)[i].0 == key@
            && keys_unique(attr_entries(*m)) ==> r == Some(&attr_entries(*m)[i].1),
{
    m.get(key)
}

/// Relies on `IndexMap::shift_remove`: the entry with an equal key goes and
/// the entries after it move up one place; its value is returned.
#[verifier::external_body]
fn attrs_shift_remove(m: &mut IndexMap<String, Attr>, key: &str) -> (r: Option<Attr>)
    ensures
        forall|i: int| #![trigger attr_entries(*old(m))[i]] 0 <= i < attr_entries(*old(m)).len() && attr_entries(*old(m))[i].0 == key@
            && keys_unique(attr_entries(*old(m))) ==> attr_entries(*final(m)) == attr_entries(*old(m)).remove(i)
                && r == Some(attr_entries(*old(m))[i].1),
        !has_key(attr_entries(*old(m)), key@) ==> attr_entries(*final(m)) == attr_entries(*old(m)) && r is None,
{
    m.shift_remove(key)
}

/// Relies on `IndexMap::len`: the number of entries.
#[verifier::external_body]
fn attrs_len(m: &IndexMap<String, Attr>) -> (r: usize)
    ensures
        r == attr_entries(*m).len(),
{
    m.len()
}

/// One invocation of an operator.
#[derive(Debug)]
pub struct Node {
    pub name: Option<String>,
    pub domain: String,
    pub op_type: String,
    pub overload: String,
    /// The numbers, in the owning graph, of the input values.
    pub inputs: Vec<usize>,
    /// The numbers, in the owning graph, of the output values.
    pub outputs: Vec<usize>,
    pub attributes: IndexMap<String, Attr>,
    pub version: Option<i32>,
    pub doc_string: Option<String>,
    pub metadata_props: HashMap<String, String>,
    pub meta: MetadataStore,
}

impl Node {
    /// The attributes, in the order they were first set.
    pub open spec fn attrs(&self) -> Seq<(Seq<char>, Attr)> {
        attr_entries(self.attributes)
    }

    /// Attribute names are unique and the metadata store is well formed.
    pub open spec fn wf(&self) -> bool {
        keys_unique(self.attrs()) && self.meta.wf()
    }

    /// Creates a node of operator `op_type` with no inputs, outputs or attributes.
    pub fn new(op_type: &str) -> (r: Self)
        ensures
            r.wf(),
            r.op_type@ == op_type@,
            r.domain@ == Seq::<char>::empty(),
            r.overload@ == Seq::<char>::empty(),
            r.name is None,
            r.inputs@.len() == 0,
            r.outputs@.len() == 0,
            r.attrs().len() == 0,
            r.version is None,
            r.doc_string is None,
    {
        Node {
            name: None,
            domain: String::new(),
            op_type: op_type.to_owned(),
            overload: String::new(),
            inputs: Vec::new(),
            outputs: Vec::new(),
            attributes: attrs_new(),
            version: None,
            doc_string: None,
            metadata_props: HashMap::new(),
            meta: MetadataStore::new(),
        }
    }

    /// Appends an input value to the list alone; the value's record of its
    /// consumers is left as it is (see the graph's paired form).
    pub fn add_input(&mut self, value: usize)
        ensures
            final(self).inputs@ == old(self).inputs@.push(value),
            final(self).outputs == old(self).outputs,
            final(self).attributes == old(self).attributes,
            final(self).op_type == old(self).op_type,
            final(self).meta == old(self).meta,
    {
        self.inputs.push(value);
    }

    /// Appends an output value to the list alone; the value's record of its
    /// producer is left as it is (see the graph's paired form).
    pub fn add_output(&mut self, value: usize)
        ensures
            final(self).outputs@ == old(self).outputs@.push(value),
            final(self).inputs == old(self).inputs,
            final(self).attributes == old(self).attributes,
            final(self).op_type == old(self).op_type,
            final(self).meta == old(self).meta,
    {
        self.outputs.push(value);
    }

    /// Sets an attribute under its name; one already there is replaced in place.
    pub fn set_attribute(&mut self, attr: Attr)
        requires
            old(self).wf(),
        ensures
            final(self).wf(),
            has_key(old(self).attrs(), attr.name@) ==> exists|i: int| 0 <= i < old(self).attrs().len()
                && old(self).attrs()[i].0 == attr.name@ && final(self).attrs() == old(self).attrs().update(i, (attr.name@, attr)),
            !has_key(old(self).attrs(), attr.name@) ==> final(self).attrs() == old(self).attrs().push((attr.name@, attr)),
            final(self).inputs == old(self).inputs,
            final(self).outputs == old(self).outputs,
    {
        let key = attr.name.clone();
        let ghost a = attr;
        let ghost s = self.attrs();
        attrs_insert(&mut self.attributes, key, attr);
        proof {
            if has_key(s, a.name@) {
                let i = choose|i: int| 0 <= i < s.len() && s[i].0 == a.name@;
                assert(attr_entries(old(self).attributes)[i].0 == a.name@);
                let t = self.attrs();
                assert forall|x: int, y: int| 0 <= x < t.len() && 0 <= y < t.len() && x != y implies #[trigger] t[x].0 != #[trigger] t[y].0 by {
                    assert(x != i ==> t[x] == s[x]);
                    assert(y != i ==> t[y] == s[y]);
                }
            } else {
                let t = self.attrs();
                assert forall|x: int, y: int| 0 <= x < t.len() && 0 <= y < t.len() && x != y implies #[trigger] t[x].0 != #[trigger] t[y].0 by {
                    if x < s.len() && y < s.len() {
                        assert(t[x] == s[x] && t[y] == s[y]);
                    } else if x < s.len() {
                        assert(t[x] == s[x]);
                    } else {
                        assert(t[y] == s[y]);
                    }
                }
            }
        }
    }

    /// Returns the attribute named `name`, if any.
    pub fn get_attribute(&self, name: &str) -> (r: Option<&Attr>)
        requires
            self.wf(),
        ensures
            r is Some == has_key(self.attrs(), name@),
            forall|i: int| 0 <= i < self.attrs().len() && #[trigger] self.attrs()[i].0 == name@ ==> r == Some(&self.attrs()[i].1),
    {
        attrs_get(&self.attributes, name)
    }

    /// Removes the attribute named `name`, keeping the order of the others,
    /// and returns it.
    pub fn remove_attribute(&mut self, name: &str) -> (r: Option<Attr>)
        requires
            old(self).wf(),
        ensures
            final(self).wf(),
            !has_key(old(self).attrs(), name@) ==> r is None && final(self).attrs() == old(self).attrs(),
            forall|i: int| 0 <= i < old(self).attrs().len() && #[trigger] old(self).attrs()[i].0 == name@
                ==> r == Some(old(self).attrs()[i].1) && final(self).attrs() == old(self).attrs().remove(i),
            final(self).inputs == old(self).inputs,
            final(self).outputs == old(self).outputs,
    {
        let ghost s = self.attrs();
        let r = attrs_shift_remove(&mut self.attributes, name);
        proof {
            if has_key(s, name@) {
                let i = choose|i: int| 0 <= i < s.len() && s[i].0 == name@;
                assert(attr_entries(old(self).attributes)[i].0 == name@);
                let t = self.attrs();
                assert forall|x: int, y: int| 0 <= x < t.len() && 0 <= y < t.len() && x != y implies #[trigger] t[x].0 != #[trigger] t[y].0 by {
                    let x0 = if x < i { x } else { x + 1 };
                    let y0 = if y < i { y } else { y + 1 };
                    assert(t[x] == s[x0]);
                    assert(t[y] == s[y0]);
                }
            }
        }
        r
    }

    /// Returns the number of inputs.
    pub fn num_inputs(&self) -> (r: usize)
        ensures
            r == self.inputs@.len(),
    {
        self.inputs.len()
    }

    /// Returns the number of outputs.
    pub fn num_outputs(&self) -> (r: usize)
        ensures
            r == self.outputs@.len(),
    {
        self.outputs.len()
    }

    /// Returns true if the node has an attribute.
    pub fn has_attributes(&self) -> (r: bool)
        ensures
            r == (self.attrs().len() > 0),
    {
        attrs_len(&self.attributes) > 0
    }
}

} // verus!
