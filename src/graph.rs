//! Graphs: a node container together with the values the nodes share.
//!
//! The graph owns every value; nodes and the graph's input, output and
//! initializer lists refer to values by their number. Nodes are named by
//! their link in the node container.
use crate::linked_list::{DoublyLinkedList, Iter};
use crate::metadata::MetadataStore;
use crate::node::Node;
use crate::opset::OpsetImports;
use crate::text::str_eq;
use crate::value::{lemma_filter_agree, live_uses, redirect_uses, redirectable, uses_redirected, Value};
use std::collections::HashMap;
use vstd::prelude::*;

verus! {

/// A computational graph.
pub struct Graph {
    pub name: Option<String>,
    /// Numbers of the graph's input values.
    pub inputs: Vec<usize>,
    /// Numbers of the graph's output values.
    pub outputs: Vec<usize>,
    /// Numbers of the graph's constant values, at most one per name.
    pub initializers: Vec<usize>,
    pub nodes: DoublyLinkedList<Node>,
    /// Every value of the graph, by number.
    pub values: Vec<Value>,
    pub doc_string: String,
    pub opset_imports: OpsetImports,
    pub metadata_props: HashMap<String, String>,
    pub meta: MetadataStore,
}

/// The name and documentation of a graph, apart from its contents.
#[derive(Debug, Clone)]
pub struct GraphView {
    pub name: Option<String>,
    pub doc_string: String,
}

/// The values of a graph, but the one numbered `v`, are as they were.
pub open spec fn others_kept(before: Seq<Value>, after: Seq<Value>, v: int) -> bool {
    &&& after.len() == before.len()
    &&& forall|j: int| 0 <= j < before.len() && j != v ==> #[trigger] after[j] == before[j]
}

/// No two of the initializers `inits` name values with the same name.
pub open spec fn initializer_names_unique(inits: Seq<usize>, values: Seq<Value>) -> bool {
    forall|i: int, j: int| 0 <= i < inits.len() && 0 <= j < inits.len() && i != j
        ==> #[trigger] values[inits[i] as int].label() != #[trigger] values[inits[j] as int].label()
}

/// Two lists of values agree on the names of the first `n`.
pub open spec fn labels_kept(before: Seq<Value>, after: Seq<Value>) -> bool {
    &&& before.len() <= after.len()
    &&& forall|j: int| 0 <= j < before.len() ==> (#[trigger] after[j]).label() == before[j].label()
}

/// Initializer names stay unique when the values they name keep their names.
proof fn lemma_unique_kept(inits: Seq<usize>, before: Seq<Value>, after: Seq<Value>)
    requires
        forall|i: int| 0 <= i < inits.len() ==> #[trigger] inits[i] < before.len(),
        initializer_names_unique(inits, before),
        labels_kept(before, after),
    ensures
        initializer_names_unique(inits, after),
{
    assert forall|i: int, j: int| 0 <= i < inits.len() && 0 <= j < inits.len() && i != j
        implies #[trigger] after[inits[i] as int].label() != #[trigger] after[inits[j] as int].label() by {
        assert(after[inits[i] as int].label() == before[inits[i] as int].label());
        assert(after[inits[j] as int].label() == before[inits[j] as int].label());
    }
}

impl Graph {
    /// The node container is well formed, every initializer names a value,
    /// and no two initializers share a name.
    pub open spec fn wf(&self) -> bool {
        &&& self.nodes.wf()
        &&& forall|i: int| 0 <= i < self.initializers@.len() ==> #[trigger] self.initializers@[i] < self.values@.len()
        &&& initializer_names_unique(self.initializers@, self.values@)
    }

    /// Creates an empty graph.
    pub fn new() -> (r: Self)
        ensures
            r.wf(),
            r.nodes@.len() == 0,
            r.values@.len() == 0,
            r.inputs@.len() == 0,
            r.outputs@.len() == 0,
            r.initializers@.len() == 0,
            r.name is None,
    {
        Graph {
            name: None,
            inputs: Vec::new(),
            outputs: Vec::new(),
            initializers: Vec::new(),
            nodes: DoublyLinkedList::new(),
            values: Vec::new(),
            doc_string: String::new(),
            opset_imports: OpsetImports::new(),
            metadata_props: HashMap::new(),
            meta: MetadataStore::new(),
        }
    }

    /// Appends a node at the end and returns its link.
    pub fn append(&mut self, node: Node) -> (l: usize)
        requires
            old(self).wf(),
        ensures
            final(self).wf(),
            final(self).nodes@ == old(self).nodes@.push(node),
            final(self).nodes.is_live(l as int),
            final(self).nodes.element(l as int) == node,
            final(self).nodes.links_kept(&old(self).nodes),
            final(self).nodes.elements_kept(&old(self).nodes),
            final(self).nodes.starts_after_insert(&old(self).nodes, old(self).nodes@.len() as int),
            final(self).values == old(self).values,
    {
        proof {
            self.nodes.lemma_sentinel_index();
        }
        let l = self.nodes.insert_before(0, node);
        proof {
            assert(old(self).nodes@.insert(old(self).nodes@.len() as int, node) =~= old(self).nodes@.push(node));
        }
        l
    }

    /// Puts a node at the front and returns its link.
    pub fn prepend(&mut self, node: Node) -> (l: usize)
        requires
            old(self).wf(),
        ensures
            final(self).wf(),
            final(self).nodes@ == old(self).nodes@.insert(0, node),
            final(self).nodes.is_live(l as int),
            final(self).nodes.element(l as int) == node,
            final(self).nodes.links_kept(&old(self).nodes),
            final(self).nodes.elements_kept(&old(self).nodes),
            final(self).nodes.starts_after_insert(&old(self).nodes, 0),
            final(self).values == old(self).values,
    {
        proof {
            self.nodes.lemma_front_start();
        }
        self.nodes.insert_after(0, node)
    }

    /// Removes and returns the last node, if any.
    pub fn pop_last(&mut self) -> (r: Option<Node>)
        requires
            old(self).wf(),
        ensures
            final(self).wf(),
            final(self).nodes.links_kept(&old(self).nodes),
            old(self).nodes@.len() == 0 ==> r is None && final(self).nodes@ == old(self).nodes@,
            old(self).nodes@.len() > 0 ==> r == Some(old(self).nodes@.last()) && final(self).nodes@ == old(self).nodes@.drop_last(),
            forall|l: int| #![trigger final(self).nodes.is_live(l)] final(self).nodes.is_live(l)
                ==> old(self).nodes.is_live(l) && final(self).nodes.element(l) == old(self).nodes.element(l),
            final(self).values == old(self).values,
    {
        self.nodes.pop_back()
    }

    /// Removes and returns the first node, if any.
    pub fn pop_first(&mut self) -> (r: Option<Node>)
        requires
            old(self).wf(),
        ensures
            final(self).wf(),
            final(self).nodes.links_kept(&old(self).nodes),
            old(self).nodes@.len() == 0 ==> r is None && final(self).nodes@ == old(self).nodes@,
            old(self).nodes@.len() > 0 ==> r == Some(old(self).nodes@[0]) && final(self).nodes@ == old(self).nodes@.drop_first(),
            forall|l: int| #![trigger final(self).nodes.is_live(l)] final(self).nodes.is_live(l)
                ==> old(self).nodes.is_live(l) && final(self).nodes.element(l) == old(self).nodes.element(l),
            final(self).values == old(self).values,
    {
        self.nodes.pop_front()
    }

    /// Returns the number of nodes.
    pub fn num_nodes(&self) -> (r: usize)
        requires
            self.wf(),
        ensures
            r == self.nodes@.len(),
    {
        self.nodes.len()
    }

    /// Returns true if the graph has no node.
    pub fn is_empty(&self) -> (r: bool)
        requires
            self.wf(),
        ensures
            r == (self.nodes@.len() == 0),
    {
        self.nodes.is_empty()
    }

    /// Starts a traversal of the nodes; advance it with `Iter::next` on `self.nodes`.
    pub fn iter_nodes(&self) -> (r: Iter)
        requires
            self.wf(),
        ensures
            r.at() == 0,
            r.at() < self.nodes.slots(),
            self.nodes.start(0) == 0,
    {
        self.nodes.iter()
    }

    /// Removes every node.
    pub fn clear_nodes(&mut self)
        requires
            old(self).wf(),
        ensures
            final(self).wf(),
            final(self).nodes@.len() == 0,
            final(self).nodes.links_kept(&old(self).nodes),
            final(self).values == old(self).values,
    {
        self.nodes.clear();
    }

    /// Returns the node at link `l`, if it is still in the graph.
    pub fn node(&self, l: usize) -> (r: Option<&Node>)
        requires
            self.wf(),
        ensures
            self.nodes.is_live(l as int) ==> r is Some && *r->Some_0 == self.nodes.element(l as int),
            !self.nodes.is_live(l as int) ==> r is None,
    {
        self.nodes.get(l)
    }

    /// Adds a value to the graph and returns its number.
    pub fn add_value(&mut self, value: Value) -> (v: usize)
        requires
            old(self).wf(),
        ensures
            final(self).wf(),
            v == old(self).values@.len(),
            final(self).values@ == old(self).values@.push(value),
            final(self).nodes == old(self).nodes,
    {
        let v = self.values.len();
        self.values.push(value);
        proof {
            lemma_unique_kept(self.initializers@, old(self).values@, self.values@);
        }
        v
    }

    /// Returns the value numbered `v`.
    pub fn value(&self, v: usize) -> (r: &Value)
        requires
            v < self.values@.len(),
        ensures
            *r == self.values@[v as int],
    {
        &self.values[v]
    }

    /// Lists value `v` among the graph's inputs.
    pub fn add_input(&mut self, v: usize)
        requires
            old(self).wf(),
        ensures
            final(self).wf(),
            final(self).inputs@ == old(self).inputs@.push(v),
            final(self).values == old(self).values,
            final(self).nodes == old(self).nodes,
    {
        self.inputs.push(v);
    }

    /// Lists value `v` among the graph's outputs.
    pub fn add_output(&mut self, v: usize)
        requires
            old(self).wf(),
        ensures
            final(self).wf(),
            final(self).outputs@ == old(self).outputs@.push(v),
            final(self).values == old(self).values,
            final(self).nodes == old(self).nodes,
    {
        self.outputs.push(v);
    }

    fn find_initializer(&self, name: &str) -> (r: Option<usize>)
        requires
            self.wf(),
        ensures
            match r {
                Some(i) => i < self.initializers@.len() && self.values@[self.initializers@[i as int] as int].label() == name@,
                None => forall|i: int| 0 <= i < self.initializers@.len()
                    ==> #[trigger] self.values@[self.initializers@[i] as int].label() != name@,
            },
    {
        let mut i: usize = 0;
        while i < self.initializers.len()
            invariant
                self.wf(),
                i <= self.initializers@.len(),
                forall|j: int| 0 <= j < i ==> #[trigger] self.values@[self.initializers@[j] as int].label() != name@,
            decreases self.initializers@.len() - i,
        {
            let v = self.initializers[i];
            if str_eq(self.values[v].name_str(), name) {
                return Some(i);
            }
            i = i + 1;
        }
        None
    }

    /// Lists value `v` among the initializers, in place of one with the same name.
    pub fn add_initializer(&mut self, v: usize)
        requires
            old(self).wf(),
            v < old(self).values@.len(),
        ensures
            final(self).wf(),
            forall|i: int| 0 <= i < old(self).initializers@.len()
                && #[trigger] old(self).values@[old(self).initializers@[i] as int].label() == old(self).values@[v as int].label()
                ==> exists|j: int| 0 <= j < old(self).initializers@.len() && final(self).initializers@ == old(self).initializers@.update(j, v),
            (forall|i: int| 0 <= i < old(self).initializers@.len()
                ==> #[trigger] old(self).values@[old(self).initializers@[i] as int].label() != old(self).values@[v as int].label())
                ==> final(self).initializers@ == old(self).initializers@.push(v),
            final(self).values == old(self).values,
            final(self).nodes == old(self).nodes,
    {
        match self.find_initializer(self.values[v].name_str()) {
            Some(i) => {
                self.initializers.set(i, v);
            },
            None => {
                self.initializers.push(v);
            },
        }
    }

    /// Returns the number of the initializer named `name`, if any.
    pub fn get_initializer(&self, name: &str) -> (r: Option<usize>)
        requires
            self.wf(),
        ensures
            match r {
                Some(v) => self.initializers@.contains(v) && v < self.values@.len() && self.values@[v as int].label() == name@,
                None => forall|i: int| 0 <= i < self.initializers@.len()
                    ==> #[trigger] self.values@[self.initializers@[i] as int].label() != name@,
            },
    {
        match self.find_initializer(name) {
            Some(i) => {
                proof {
                    assert(self.initializers@.contains(self.initializers@[i as int]));
                }
                Some(self.initializers[i])
            },
            None => None,
        }
    }

    /// Takes the initializer named `name` off the list and returns its number;
    /// the value itself stays in the graph.
    pub fn remove_initializer(&mut self, name: &str) -> (r: Option<usize>)
        requires
            old(self).wf(),
        ensures
            final(self).wf(),
            match r {
                Some(v) => exists|i: int| 0 <= i < old(self).initializers@.len() && old(self).initializers@[i] == v
                    && old(self).values@[v as int].label() == name@
                    && final(self).initializers@ == old(self).initializers@.remove(i),
                None => final(self).initializers@ == old(self).initializers@
                    && forall|i: int| 0 <= i < old(self).initializers@.len()
                    ==> #[trigger] old(self).values@[old(self).initializers@[i] as int].label() != name@,
            },
            final(self).values == old(self).values,
            final(self).nodes == old(self).nodes,
    {
        match self.find_initializer(name) {
            Some(i) => {
                let v = self.initializers.remove(i);
                Some(v)
            },
            None => None,
        }
    }

    /// Appends value `v` to the inputs of the node at link `l` and records
    /// the node as a consumer of `v` at that input.
    pub fn node_add_input(&mut self, l: usize, v: usize)
        requires
            old(self).wf(),
            old(self).nodes.is_live(l as int),
            v < old(self).values@.len(),
        ensures
            final(self).wf(),
            final(self).nodes.element(l as int).inputs@ == old(self).nodes.element(l as int).inputs@.push(v),
            final(self).nodes.element(l as int).outputs == old(self).nodes.element(l as int).outputs,
            forall|k: int| #![trigger final(self).nodes.element(k)] old(self).nodes.is_live(k) && k != l
                ==> final(self).nodes.element(k) == old(self).nodes.element(k),
            forall|k: int| #[trigger] final(self).nodes.is_live(k) == old(self).nodes.is_live(k),
            final(self).nodes.links_kept(&old(self).nodes),
            final(self).values@[v as int].uses() == old(self).values@[v as int].uses().push(
                (l, old(self).nodes.element(l as int).inputs@.len() as usize)),
            final(self).values@[v as int].producer_link() == old(self).values@[v as int].producer_link(),
            final(self).values@[v as int].details_kept(&old(self).values@[v as int]),
            others_kept(old(self).values@, final(self).values@, v as int),
    {
        let node = self.nodes.get_mut(l);
        let pos = node.inputs.len();
        node.inputs.push(v);
        self.values[v].add_consumer(l, pos);
        proof {
            lemma_unique_kept(self.initializers@, old(self).values@, self.values@);
        }
    }

    /// Appends value `v` to the outputs of the node at link `l` and records
    /// the node as the producer of `v`.
    pub fn node_add_output(&mut self, l: usize, v: usize)
        requires
            old(self).wf(),
            old(self).nodes.is_live(l as int),
            v < old(self).values@.len(),
        ensures
            final(self).wf(),
            final(self).nodes.element(l as int).outputs@ == old(self).nodes.element(l as int).outputs@.push(v),
            final(self).nodes.element(l as int).inputs == old(self).nodes.element(l as int).inputs,
            forall|k: int| #![trigger final(self).nodes.element(k)] old(self).nodes.is_live(k) && k != l
                ==> final(self).nodes.element(k) == old(self).nodes.element(k),
            forall|k: int| #[trigger] final(self).nodes.is_live(k) == old(self).nodes.is_live(k),
            final(self).nodes.links_kept(&old(self).nodes),
            final(self).values@[v as int].producer_link() == Some(l),
            final(self).values@[v as int].uses() == old(self).values@[v as int].uses(),
            final(self).values@[v as int].details_kept(&old(self).values@[v as int]),
            others_kept(old(self).values@, final(self).values@, v as int),
    {
        let node = self.nodes.get_mut(l);
        node.outputs.push(v);
        self.values[v].set_producer(Some(l));
        proof {
            lemma_unique_kept(self.initializers@, old(self).values@, self.values@);
        }
    }

    /// Returns the number of uses of value `v` by nodes still in the graph.
    pub fn num_uses(&self, v: usize) -> (r: usize)
        requires
            self.wf(),
            v < self.values@.len(),
        ensures
            r == live_uses(self.values@[v as int].uses(), self.nodes).len(),
    {
        self.values[v].num_uses(&self.nodes)
    }

    /// Returns the uses of value `v` by nodes still in the graph.
    pub fn consumers(&self, v: usize) -> (r: Vec<(usize, usize)>)
        requires
            self.wf(),
            v < self.values@.len(),
        ensures
            r@ == live_uses(self.values@[v as int].uses(), self.nodes),
    {
        self.values[v].consumers(&self.nodes)
    }

    /// Returns the node producing value `v`, if it is still in the graph.
    pub fn producer(&self, v: usize) -> (r: Option<usize>)
        requires
            self.wf(),
            v < self.values@.len(),
        ensures
            r == (match self.values@[v as int].producer_link() {
                Some(p) => if self.nodes.is_live(p as int) { Some(p) } else { None },
                None => None,
            }),
    {
        self.values[v].producer(&self.nodes)
    }

    /// Points every use of value `v` by a node still in the graph at value
    /// `w` instead, records those uses on `w`, and forgets every use of `v`.
    /// Producers, names and the nodes' outputs stay as they are.
    pub fn replace_all_uses_with(&mut self, v: usize, w: usize)
        requires
            old(self).wf(),
            v < old(self).values@.len(),
            w < old(self).values@.len(),
        ensures
            final(self).wf(),
            uses_redirected(old(self).nodes, final(self).nodes, old(self).values@[v as int].uses(), w),
            final(self).nodes.links_kept(&old(self).nodes),
            final(self).values@[v as int].uses().len() == 0,
            v != w ==> final(self).values@[w as int].uses() == old(self).values@[w as int].uses()
                + redirectable(old(self).values@[v as int].uses(), old(self).nodes),
            final(self).values@.len() == old(self).values@.len(),
            forall|j: int| 0 <= j < old(self).values@.len() && j != v && j != w
                ==> #[trigger] final(self).values@[j] == old(self).values@[j],
            forall|j: int| 0 <= j < old(self).values@.len() ==> (#[trigger] final(self).values@[j]).producer_link()
                == old(self).values@[j].producer_link() && final(self).values@[j].details_kept(&old(self).values@[j]),
            final(self).initializers == old(self).initializers,
            final(self).inputs == old(self).inputs,
            final(self).outputs == old(self).outputs,
    {
        let uses = self.values[v].take_consumers();
        let added = redirect_uses(&uses, w, &mut self.nodes);
        if v != w {
            self.values[w].append_consumers(added);
        }
        proof {
            lemma_unique_kept(self.initializers@, old(self).values@, self.values@);
        }
    }
}

/// Every recorded use of `uses` by a node of `nodes` names an input the node has.
pub open spec fn uses_in_range(uses: Seq<(usize, usize)>, nodes: DoublyLinkedList<Node>) -> bool {
    forall|k: int| 0 <= k < uses.len() && nodes.is_live(#[trigger] uses[k].0 as int)
        ==> (uses[k].1 as int) < nodes.element(uses[k].0 as int).inputs@.len()
}

/// Replacing every use of `v` by `w` moves the live uses: `v` has none left
/// and `w` has its own plus those `v` had.
pub proof fn lemma_replacement_moves_uses(before: Graph, after: Graph, v: usize, w: usize)
    requires
        before.wf(),
        v != w,
        v < before.values@.len(),
        w < before.values@.len(),
        uses_in_range(before.values@[v as int].uses(), before.nodes),
        uses_redirected(before.nodes, after.nodes, before.values@[v as int].uses(), w),
        after.values@[v as int].uses().len() == 0,
        after.values@[w as int].uses() == before.values@[w as int].uses()
            + redirectable(before.values@[v as int].uses(), before.nodes),
    ensures
        live_uses(after.values@[v as int].uses(), after.nodes).len() == 0,
        live_uses(after.values@[w as int].uses(), after.nodes).len()
            == live_uses(before.values@[w as int].uses(), before.nodes).len()
            + live_uses(before.values@[v as int].uses(), before.nodes).len(),
{
    let uv = before.values@[v as int].uses();
    let uw = before.values@[w as int].uses();
    let live_before = |e: (usize, usize)| before.nodes.is_live(e.0 as int);
    let live_after = |e: (usize, usize)| after.nodes.is_live(e.0 as int);
    let usable = |e: (usize, usize)| before.nodes.is_live(e.0 as int)
        && (e.1 as int) < before.nodes.element(e.0 as int).inputs@.len();
    reveal(Seq::filter);
    assert(live_uses(after.values@[v as int].uses(), after.nodes).len() == 0);
    assert forall|i: int| 0 <= i < uv.len() implies usable(#[trigger] uv[i]) == live_before(uv[i]) by {}
    lemma_filter_agree(uv, usable, live_before);
    let moved = redirectable(uv, before.nodes);
    let all = uw + moved;
    assert forall|i: int| 0 <= i < all.len() implies live_after(#[trigger] all[i]) == live_before(all[i]) by {
        assert(after.nodes.is_live(all[i].0 as int) == before.nodes.is_live(all[i].0 as int));
    }
    lemma_filter_agree(all, live_after, live_before);
    Seq::filter_distributes_over_add(uw, moved, live_before);
    assert forall|i: int| 0 <= i < moved.len() implies live_before(#[trigger] moved[i]) by {
        uv.lemma_filter_pred(usable, i);
    }
    assert(moved.filter(live_before) =~= moved) by {
        lemma_filter_all(moved, live_before);
    }
}

/// A filter that every element passes keeps them all.
proof fn lemma_filter_all<A>(s: Seq<A>, p: spec_fn(A) -> bool)
    requires
        forall|i: int| 0 <= i < s.len() ==> p(#[trigger] s[i]),
    ensures
        s.filter(p) == s,
    decreases s.len(),
{
    reveal(Seq::filter);
    if s.len() > 0 {
        let t = s.drop_last();
        assert forall|i: int| 0 <= i < t.len() implies p(#[trigger] t[i]) by {
            assert(t[i] == s[i]);
        }
        lemma_filter_all(t, p);
        assert(p(s[s.len() - 1]));
        assert(s.drop_last().push(s.last()) =~= s);
    }
}

impl Default for Graph {
    fn default() -> (r: Self)
        ensures
            r.wf(),
            r.nodes@.len() == 0,
            r.values@.len() == 0,
    {
        Graph::new()
    }
}

} // verus!
