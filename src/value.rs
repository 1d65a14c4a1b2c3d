//! Values: named quantities that nodes produce and consume.
//!
//! A value remembers which node produces it and which nodes consume it, and
//! at which input. Nodes are named by their link in the graph's node
//! container; a link that no longer holds a node is a stale reference, and
//! every read passes over it as if it were not there.
use crate::linked_list::DoublyLinkedList;
use crate::metadata::MetadataStore;
use crate::node::Node;
use crate::shape::Shape;
use crate::types::TensorType;
use std::collections::HashMap;
use vstd::prelude::*;

verus! {

/// A filter applied to a sequence with one more element.
pub proof fn lemma_filter_push<A>(s: Seq<A>, x: A, p: spec_fn(A) -> bool)
    ensures
        s.push(x).filter(p) == (if p(x) { s.filter(p).push(x) } else { s.filter(p) }),
{
    reveal(Seq::filter);
    assert(s.push(x).drop_last() =~= s);
}

/// A filter keeps at most the elements it is given.
pub proof fn lemma_filter_shorter<A>(s: Seq<A>, p: spec_fn(A) -> bool)
    ensures
        s.filter(p).len() <= s.len(),
    decreases s.len(),
{
    reveal(Seq::filter);
    if s.len() > 0 {
        lemma_filter_shorter(s.drop_last(), p);
    }
}

/// Filters that agree on every element of `s` keep the same elements.
pub proof fn lemma_filter_agree<A>(s: Seq<A>, p: spec_fn(A) -> bool, q: spec_fn(A) -> bool)
    requires
        forall|i: int| 0 <= i < s.len() ==> p(#[trigger] s[i]) == q(s[i]),
    ensures
        s.filter(p) == s.filter(q),
    decreases s.len(),
{
    reveal(Seq::filter);
    if s.len() > 0 {
        let t = s.drop_last();
        assert forall|i: int| 0 <= i < t.len() implies p(#[trigger] t[i]) == q(t[i]) by {
            assert(t[i] == s[i]);
        }
        lemma_filter_agree(t, p, q);
        assert(p(s[s.len() - 1]) == q(s[s.len() - 1]));
    }
}

/// The recorded uses `(node, input)` whose node is still in `nodes`.
pub open spec fn live_uses(uses: Seq<(usize, usize)>, nodes: DoublyLinkedList<Node>) -> Seq<(usize, usize)> {
    uses.filter(|e: (usize, usize)| nodes.is_live(e.0 as int))
}

/// The recorded uses that a rewrite can redirect: the node is still in
/// `nodes` and has an input at that place.
pub open spec fn redirectable(uses: Seq<(usize, usize)>, nodes: DoublyLinkedList<Node>) -> Seq<(usize, usize)> {
    uses.filter(|e: (usize, usize)| nodes.is_live(e.0 as int) && (e.1 as int) < nodes.element(e.0 as int).inputs@.len())
}

/// Some use in `uses` is by the node at link `l` at input `p`.
pub open spec fn is_used_at(uses: Seq<(usize, usize)>, l: int, p: int) -> bool {
    exists|k: int| 0 <= k < uses.len() && uses[k].0 == l && uses[k].1 == p
}

/// The inputs of the node at link `l` after the uses `uses` were redirected to value `to`.
pub open spec fn redirected_inputs(inputs: Seq<usize>, l: int, uses: Seq<(usize, usize)>, to: usize) -> Seq<usize> {
    Seq::new(inputs.len(), |p: int| if is_used_at(uses, l, p) { to } else { inputs[p] })
}

/// Two nodes agree in everything but their inputs, whose number is the same.
pub open spec fn same_but_inputs(a: Node, b: Node) -> bool {
    &&& a.inputs@.len() == b.inputs@.len()
    &&& a.outputs == b.outputs
    &&& a.name == b.name
    &&& a.domain == b.domain
    &&& a.op_type == b.op_type
    &&& a.overload == b.overload
    &&& a.attributes == b.attributes
    &&& a.version == b.version
    &&& a.doc_string == b.doc_string
    &&& a.meta == b.meta
}

/// `after` is `before` with every use in `uses` of a node still there
/// pointed at value `to`.
pub open spec fn uses_redirected(
    before: DoublyLinkedList<Node>,
    after: DoublyLinkedList<Node>,
    uses: Seq<(usize, usize)>,
    to: usize,
) -> bool {
    &&& after.wf()
    &&& after.slots() == before.slots()
    &&& after@.len() == before@.len()
    &&& forall|l: int| #[trigger] after.is_live(l) == before.is_live(l)
    &&& forall|l: int| #![trigger after.element(l)] before.is_live(l) ==> same_but_inputs(after.element(l), before.element(l))
        && after.element(l).inputs@ == redirected_inputs(before.element(l).inputs@, l, uses, to)
}

/// Points every use in `uses` of a node still in `nodes` at value `to` and
/// returns those uses, in order.
pub fn redirect_uses(uses: &Vec<(usize, usize)>, to: usize, nodes: &mut DoublyLinkedList<Node>) -> (r: Vec<(usize, usize)>)
    requires
        old(nodes).wf(),
    ensures
        uses_redirected(*old(nodes), *final(nodes), uses@, to),
        r@ == redirectable(uses@, *old(nodes)),
        final(nodes).links_kept(old(nodes)),
{
    let ghost pred = |e: (usize, usize)| old(nodes).is_live(e.0 as int) && (e.1 as int) < old(nodes).element(e.0 as int).inputs@.len();
    let mut added: Vec<(usize, usize)> = Vec::new();
    let mut i: usize = 0;
    proof {
        assert(uses@.subrange(0, 0) =~= Seq::<(usize, usize)>::empty());
        reveal(Seq::filter);
        assert forall|l: int| #![trigger nodes.element(l)] old(nodes).is_live(l) implies nodes.element(l).inputs@
            == redirected_inputs(old(nodes).element(l).inputs@, l, uses@.subrange(0, 0), to) by {
            assert(nodes.element(l).inputs@ =~= redirected_inputs(old(nodes).element(l).inputs@, l, uses@.subrange(0, 0), to));
        }
    }
    while i < uses.len()
        invariant
            i <= uses@.len(),
            nodes.wf(),
            nodes.slots() == old(nodes).slots(),
            nodes@.len() == old(nodes)@.len(),
            nodes.links_kept(old(nodes)),
            forall|l: int| #[trigger] nodes.is_live(l) == old(nodes).is_live(l),
            forall|l: int| #![trigger nodes.element(l)] old(nodes).is_live(l) ==> same_but_inputs(nodes.element(l), old(nodes).element(l))
                && nodes.element(l).inputs@ == redirected_inputs(old(nodes).element(l).inputs@, l, uses@.subrange(0, i as int), to),
            added@ == uses@.subrange(0, i as int).filter(pred),
            pred == (|e: (usize, usize)| old(nodes).is_live(e.0 as int) && (e.1 as int) < old(nodes).element(e.0 as int).inputs@.len()),
        decreases uses@.len() - i,
    {
        let (n, pos) = uses[i];
        let ghost before = *nodes;
        let ghost pre = uses@.subrange(0, i as int);
        proof {
            assert(uses@.subrange(0, i + 1) =~= pre.push((n, pos)));
            lemma_filter_push(pre, (n, pos), pred);
        }
        let live = nodes.is_linked(n);
        let mut changed = false;
        if live {
            let node = nodes.get_mut(n);
            if pos < node.inputs.len() {
                node.inputs.set(pos, to);
                added.push((n, pos));
                changed = true;
            }
        }
        proof {
            let post = uses@.subrange(0, i + 1);
            assert(changed ==> nodes.is_live(n as int) && nodes.element(n as int).inputs@ == before.element(n as int).inputs@.update(pos as int, to)
                && (pos as int) < before.element(n as int).inputs@.len());
            assert(!changed ==> forall|l: int| before.is_live(l) ==> #[trigger] nodes.element(l) == before.element(l));
            assert(changed ==> forall|l: int| before.is_live(l) && l != n ==> #[trigger] nodes.element(l) == before.element(l));
            assert forall|l: int| #![trigger nodes.element(l)] old(nodes).is_live(l) implies same_but_inputs(nodes.element(l), old(nodes).element(l))
                && nodes.element(l).inputs@ == redirected_inputs(old(nodes).element(l).inputs@, l, post, to) by {
                let o = old(nodes).element(l).inputs@;
                let b = before.element(l).inputs@;
                assert(b == redirected_inputs(o, l, pre, to));
                assert forall|p: int| 0 <= p < o.len() implies #[trigger] nodes.element(l).inputs@[p]
                    == redirected_inputs(o, l, post, to)[p] by {
                    if is_used_at(pre, l, p) {
                        let k = choose|k: int| 0 <= k < pre.len() && pre[k].0 == l && pre[k].1 == p;
                        assert(post[k] == pre[k]);
                    }
                    if is_used_at(post, l, p) && !is_used_at(pre, l, p) {
                        let k = choose|k: int| 0 <= k < post.len() && post[k].0 == l && post[k].1 == p;
                        if k < i {
                            assert(pre[k] == post[k]);
                        }
                        assert(post[i as int] == (n, pos));
                    }
                    if changed && l == n && p == pos {
                        assert(post[i as int] == (n, pos));
                    }
                }
                assert(nodes.element(l).inputs@ =~= redirected_inputs(o, l, post, to));
            }
        }
        i = i + 1;
    }
    proof {
        assert(uses@.subrange(0, uses@.len() as int) =~= uses@);
    }
    added
}

/// A named quantity flowing between nodes.
#[derive(Debug)]
pub struct Value {
    pub name: String,
    pub shape: Option<Shape>,
    pub type_: Option<TensorType>,
    pub doc_string: Option<String>,
    pub metadata_props: HashMap<String, String>,
    pub meta: MetadataStore,
    producer: Option<usize>,
    consumers: Vec<(usize, usize)>,
}

impl Value {
    /// The link of the node recorded as producer, live or not.
    pub closed spec fn producer_link(&self) -> Option<usize> {
        self.producer
    }

    /// The name of the value.
    pub closed spec fn label(&self) -> Seq<char> {
        self.name@
    }

    /// The shape, if known.
    pub closed spec fn shape_of(&self) -> Option<Shape> {
        self.shape
    }

    /// The type, if known.
    pub closed spec fn type_of(&self) -> Option<TensorType> {
        self.type_
    }

    /// The documentation, if any.
    pub closed spec fn doc_of(&self) -> Option<String> {
        self.doc_string
    }

    /// Name, shape, type and documentation are those of `prior`.
    pub open spec fn details_kept(&self, prior: &Value) -> bool {
        &&& self.label() == prior.label()
        &&& self.shape_of() == prior.shape_of()
        &&& self.type_of() == prior.type_of()
        &&& self.doc_of() == prior.doc_of()
    }

    /// The metadata store is well formed.
    pub closed spec fn wf(&self) -> bool {
        self.meta.wf()
    }

    /// The recorded uses `(node link, input index)`, live or not, in the order they were added.
    pub closed spec fn uses(&self) -> Seq<(usize, usize)> {
        self.consumers@
    }

    /// Creates a value with no producer, no consumer and nothing else known.
    pub fn new(name: &str) -> (r: Self)
        ensures
            r.label() == name@,
            r.shape_of() is None,
            r.type_of() is None,
            r.doc_of() is None,
            r.producer_link() is None,
            r.uses().len() == 0,
            r.wf(),
    {
        Value {
            name: name.to_owned(),
            shape: None,
            type_: None,
            doc_string: None,
            metadata_props: HashMap::new(),
            meta: MetadataStore::new(),
            producer: None,
            consumers: Vec::new(),
        }
    }

    /// Returns the name.
    pub fn name_str(&self) -> (r: &str)
        ensures
            r@ == self.label(),
    {
        self.name.as_str()
    }

    /// Returns the producing node, unless there is none or it has left `nodes`.
    pub fn producer(&self, nodes: &DoublyLinkedList<Node>) -> (r: Option<usize>)
        requires
            nodes.wf(),
        ensures
            r == (match self.producer_link() {
                Some(p) => if nodes.is_live(p as int) { Some(p) } else { None },
                None => None,
            }),
    {
        match self.producer {
            Some(p) => if nodes.is_linked(p) { Some(p) } else { None },
            None => None,
        }
    }

    /// Records the producing node (or none); the node's outputs are not touched.
    pub fn set_producer(&mut self, producer: Option<usize>)
        ensures
            final(self).producer_link() == producer,
            final(self).uses() == old(self).uses(),
            final(self).details_kept(old(self)),
    {
        self.producer = producer;
    }

    /// Returns the uses whose node is still in `nodes`.
    pub fn consumers(&self, nodes: &DoublyLinkedList<Node>) -> (r: Vec<(usize, usize)>)
        requires
            nodes.wf(),
        ensures
            r@ == live_uses(self.uses(), *nodes),
    {
        let ghost pred = |e: (usize, usize)| nodes.is_live(e.0 as int);
        let mut out: Vec<(usize, usize)> = Vec::new();
        let mut i: usize = 0;
        proof {
            reveal(Seq::filter);
            assert(self.consumers@.subrange(0, 0) =~= Seq::<(usize, usize)>::empty());
        }
        while i < self.consumers.len()
            invariant
                i <= self.consumers@.len(),
                out@ == self.consumers@.subrange(0, i as int).filter(pred),
                pred == (|e: (usize, usize)| nodes.is_live(e.0 as int)),
                nodes.wf(),
            decreases self.consumers@.len() - i,
        {
            let e = self.consumers[i];
            proof {
                assert(self.consumers@.subrange(0, i + 1) =~= self.consumers@.subrange(0, i as int).push(e));
                lemma_filter_push(self.consumers@.subrange(0, i as int), e, pred);
            }
            if nodes.is_linked(e.0) {
                out.push(e);
            }
            i = i + 1;
        }
        proof {
            assert(self.consumers@.subrange(0, self.consumers@.len() as int) =~= self.consumers@);
        }
        out
    }

    /// Records a use by `consumer` at input `input_index`; repeats are kept.
    pub fn add_consumer(&mut self, consumer: usize, input_index: usize)
        ensures
            final(self).uses() == old(self).uses().push((consumer, input_index)),
            final(self).producer_link() == old(self).producer_link(),
            final(self).details_kept(old(self)),
    {
        self.consumers.push((consumer, input_index));
    }

    /// Forgets every use by `consumer`.
    pub fn remove_consumer(&mut self, consumer: usize)
        ensures
            final(self).uses() == old(self).uses().filter(|e: (usize, usize)| e.0 != consumer),
            final(self).producer_link() == old(self).producer_link(),
            final(self).details_kept(old(self)),
    {
        let ghost pred = |e: (usize, usize)| e.0 != consumer;
        let mut kept: Vec<(usize, usize)> = Vec::new();
        let mut i: usize = 0;
        proof {
            reveal(Seq::filter);
            assert(self.consumers@.subrange(0, 0) =~= Seq::<(usize, usize)>::empty());
        }
        while i < self.consumers.len()
            invariant
                i <= self.consumers@.len(),
                kept@ == self.consumers@.subrange(0, i as int).filter(pred),
                pred == (|e: (usize, usize)| e.0 != consumer),
            decreases self.consumers@.len() - i,
        {
            let e = self.consumers[i];
            proof {
                assert(self.consumers@.subrange(0, i + 1) =~= self.consumers@.subrange(0, i as int).push(e));
                lemma_filter_push(self.consumers@.subrange(0, i as int), e, pred);
            }
            if e.0 != consumer {
                kept.push(e);
            }
            i = i + 1;
        }
        proof {
            assert(self.consumers@.subrange(0, self.consumers@.len() as int) =~= self.consumers@);
        }
        self.consumers = kept;
    }

    /// Forgets every use.
    pub fn clear_consumers(&mut self)
        ensures
            final(self).uses().len() == 0,
            final(self).producer_link() == old(self).producer_link(),
            final(self).details_kept(old(self)),
    {
        self.consumers = Vec::new();
    }

    /// Returns the number of uses whose node is still in `nodes`.
    pub fn num_uses(&self, nodes: &DoublyLinkedList<Node>) -> (r: usize)
        requires
            nodes.wf(),
        ensures
            r == live_uses(self.uses(), *nodes).len(),
    {
        let ghost pred = |e: (usize, usize)| nodes.is_live(e.0 as int);
        let mut count: usize = 0;
        let mut i: usize = 0;
        proof {
            reveal(Seq::filter);
            assert(self.consumers@.subrange(0, 0) =~= Seq::<(usize, usize)>::empty());
        }
        while i < self.consumers.len()
            invariant
                i <= self.consumers@.len(),
                count == self.consumers@.subrange(0, i as int).filter(pred).len(),
                count <= i,
                pred == (|e: (usize, usize)| nodes.is_live(e.0 as int)),
                nodes.wf(),
            decreases self.consumers@.len() - i,
        {
            let e = self.consumers[i];
            proof {
                assert(self.consumers@.subrange(0, i + 1) =~= self.consumers@.subrange(0, i as int).push(e));
                lemma_filter_push(self.consumers@.subrange(0, i as int), e, pred);
            }
            if nodes.is_linked(e.0) {
                count = count + 1;
            }
            i = i + 1;
        }
        proof {
            assert(self.consumers@.subrange(0, self.consumers@.len() as int) =~= self.consumers@);
        }
        count
    }

    /// Forgets the uses whose node has left `nodes` and returns how many went.
    pub fn prune_dead_consumers(&mut self, nodes: &DoublyLinkedList<Node>) -> (r: usize)
        requires
            nodes.wf(),
        ensures
            final(self).uses() == live_uses(old(self).uses(), *nodes),
            r == old(self).uses().len() - live_uses(old(self).uses(), *nodes).len(),
            final(self).producer_link() == old(self).producer_link(),
            final(self).details_kept(old(self)),
    {
        let live = self.consumers(nodes);
        proof {
            lemma_filter_shorter(old(self).consumers@, |e: (usize, usize)| nodes.is_live(e.0 as int));
        }
        let removed = self.consumers.len() - live.len();
        self.consumers = live;
        removed
    }

    /// Takes the recorded uses out, leaving none.
    pub fn take_consumers(&mut self) -> (r: Vec<(usize, usize)>)
        ensures
            r@ == old(self).uses(),
            final(self).uses().len() == 0,
            final(self).producer_link() == old(self).producer_link(),
            final(self).details_kept(old(self)),
    {
        let mut out: Vec<(usize, usize)> = Vec::new();
        std::mem::swap(&mut out, &mut self.consumers);
        out
    }

    /// Records the uses `more` after the present ones.
    pub fn append_consumers(&mut self, more: Vec<(usize, usize)>)
        ensures
            final(self).uses() == old(self).uses() + more@,
            final(self).producer_link() == old(self).producer_link(),
            final(self).details_kept(old(self)),
    {
        let mut more = more;
        self.consumers.append(&mut more);
    }

    /// Points every use of this value by a node still in `nodes` at value
    /// number `replacement_id` (whose record is `replacement`), records those
    /// uses on the replacement, and forgets every use of this value. Names,
    /// shapes, types and producers stay as they are.
    pub fn replace_all_uses_with(&mut self, replacement_id: usize, replacement: &mut Value, nodes: &mut DoublyLinkedList<Node>)
        requires
            old(nodes).wf(),
        ensures
            uses_redirected(*old(nodes), *final(nodes), old(self).uses(), replacement_id),
            final(nodes).links_kept(old(nodes)),
            final(self).uses().len() == 0,
            final(replacement).uses() == old(replacement).uses() + redirectable(old(self).uses(), *old(nodes)),
            final(self).producer_link() == old(self).producer_link(),
            final(replacement).producer_link() == old(replacement).producer_link(),
            final(self).details_kept(old(self)),
            final(replacement).details_kept(old(replacement)),
    {
        let uses = self.take_consumers();
        let added = redirect_uses(&uses, replacement_id, nodes);
        replacement.append_consumers(added);
    }
}

/// Recording a use by a node that is in the container adds one to the live
/// uses, and the new use is among them.
pub proof fn lemma_add_consumer_counts(before: Value, after: Value, nodes: DoublyLinkedList<Node>, n: usize, i: usize)
    requires
        nodes.wf(),
        nodes.is_live(n as int),
        after.uses() == before.uses().push((n, i)),
    ensures
        live_uses(after.uses(), nodes).len() == live_uses(before.uses(), nodes).len() + 1,
        live_uses(after.uses(), nodes).contains((n, i)),
{
    let pred = |e: (usize, usize)| nodes.is_live(e.0 as int);
    lemma_filter_push(before.uses(), (n, i), pred);
    let s = live_uses(after.uses(), nodes);
    assert(s[s.len() - 1] == (n, i));
}

/// When a node that uses a value once leaves the container, the value's live
/// uses drop by one, with nothing done to the value.
pub proof fn lemma_dead_consumer_drops(v: Value, before: DoublyLinkedList<Node>, after: DoublyLinkedList<Node>, n: usize)
    requires
        before.is_live(n as int),
        !after.is_live(n as int),
        forall|l: int| l != n ==> #[trigger] after.is_live(l) == before.is_live(l),
        v.uses().filter(|e: (usize, usize)| e.0 == n).len() == 1,
    ensures
        live_uses(v.uses(), after).len() == live_uses(v.uses(), before).len() - 1,
{
    lemma_live_drop(v.uses(), before, after, n);
}

proof fn lemma_live_drop(s: Seq<(usize, usize)>, before: DoublyLinkedList<Node>, after: DoublyLinkedList<Node>, n: usize)
    requires
        before.is_live(n as int),
        !after.is_live(n as int),
        forall|l: int| l != n ==> #[trigger] after.is_live(l) == before.is_live(l),
    ensures
        live_uses(s, after).len() + s.filter(|e: (usize, usize)| e.0 == n).len() == live_uses(s, before).len(),
    decreases s.len(),
{
    reveal(Seq::filter);
    if s.len() > 0 {
        lemma_live_drop(s.drop_last(), before, after, n);
    }
}

} // verus!
