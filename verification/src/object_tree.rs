//! The object tree data model: `Element` and `Component`, the auxiliary
//! record types they carry, and the spec-level views of a tree (its size, the
//! component ids it holds, its back references) that the passes reason with.
//!
//! Ownership is strict: an element owns its children, a component owns its
//! root element, and an element owns the component its `base_type` names.
//! All upward links (`enclosing_component`, `parent_element`) are non-owning
//! back references that designate their target by a plain integer identity,
//! so they never keep a node alive and can dangle harmlessly once the owner
//! is gone.

use crate::walker::{recurse_elem, same_except_children, walked, walked_seq, ElementVisitor};
use vstd::prelude::*;

verus! {

/// Opaque handle into the source text, kept on every element for diagnostics.
/// Transformations copy it; they never interpret it.
#[derive(Clone, Copy, PartialEq, Eq, Structural, Debug)]
pub struct SourceLocation {
    pub offset: u64,
}

/// Handle to an expression resolved by earlier compilation stages.  The tree
/// moves expressions around but never looks inside them, so an opaque handle
/// is all it needs to carry.
#[derive(Clone, Copy, PartialEq, Eq, Structural, Debug)]
pub struct Expression {
    pub handle: u64,
}

/// One property binding: the property's name and the bound expression.
/// Names are unique within one element; their order carries no meaning.
#[derive(Clone, PartialEq, Eq, Debug)]
pub struct Binding {
    pub name: String,
    pub expr: Expression,
}

/// One property declared directly on an element.
#[derive(Clone, PartialEq, Eq, Debug)]
pub struct PropertyDeclaration {
    pub name: String,
    pub declared_type: String,
}

/// One property animation attached to an element.
#[derive(Clone, PartialEq, Eq, Debug)]
pub struct PropertyAnimation {
    pub name: String,
    pub animation: Expression,
}

/// Repetition descriptor of a repeated element: the expression producing the
/// collection, and the names the per-entry loop variables are bound to.
#[derive(Clone, PartialEq, Eq, Debug)]
pub struct RepeatedElementInfo {
    pub model: Expression,
    pub model_data_id: String,
    pub index_id: String,
}

/// The type an element instantiates: a builtin primitive named by the type
/// registry, or a component (user defined or synthesized).  Exactly one
/// variant is active.  `Invalid` is the empty value a pass leaves behind when
/// it takes a type out of an element.
#[derive(PartialEq, Eq, Debug)]
pub enum Type {
    Invalid,
    Builtin(String),
    Component(Box<Component>),
}

/// A named or synthesized UI type: one exclusively owned element tree plus a
/// non-owning back reference to the element that instantiates it.
#[derive(PartialEq, Eq, Debug)]
pub struct Component {
    /// Identity of this component, unique within one document.  Back
    /// references (`Element::enclosing_component`) designate components by id.
    pub id: u64,
    /// The exclusively owned root of this component's element tree.
    pub root_element: Element,
    /// Non-owning back reference to the key of the element whose `base_type`
    /// instantiates this component; `None` for top-level document components.
    pub parent_element: Option<u64>,
}

/// One node of the UI tree.
#[derive(PartialEq, Eq, Debug)]
pub struct Element {
    /// Identifier from the source document; not necessarily unique.
    pub id: String,
    /// Stable identity handle of this element, assigned by the tree builder.
    /// Back references (`Component::parent_element`) designate elements by
    /// key; like `id` and `node` it is duplicated, not moved, when a pass
    /// splits an element.
    pub key: u64,
    /// What this element instantiates.
    pub base_type: Type,
    /// Property name to bound expression.
    pub bindings: Vec<Binding>,
    /// Exclusively owned child elements, in document order.
    pub children: Vec<Element>,
    /// Properties declared on this element.
    pub property_declarations: Vec<PropertyDeclaration>,
    /// Animations attached to properties of this element.
    pub property_animations: Vec<PropertyAnimation>,
    /// `Some` when this element is instantiated once per entry of a dynamic
    /// collection; `None` for ordinary elements.
    pub repeated: Option<RepeatedElementInfo>,
    /// Where in the source text this element was written.
    pub node: SourceLocation,
    /// Non-owning back reference to the id of the component whose tree this
    /// element belongs to; `None` while still unresolved.
    pub enclosing_component: Option<u64>,
}

impl Element {
    /// A fresh leaf element with the given identity and type, everything else
    /// empty and its enclosing component unresolved.
    pub fn new(id: String, key: u64, base_type: Type, node: SourceLocation) -> (r: Element)
        ensures
            r.id == id,
            r.key == key,
            r.base_type == base_type,
            r.node == node,
            r.bindings@.len() == 0,
            r.children@.len() == 0,
            r.property_declarations@.len() == 0,
            r.property_animations@.len() == 0,
            r.repeated is None,
            r.enclosing_component is None,
    {
        Element {
            id,
            key,
            base_type,
            bindings: Vec::new(),
            children: Vec::new(),
            property_declarations: Vec::new(),
            property_animations: Vec::new(),
            repeated: None,
            node,
            enclosing_component: None,
        }
    }
}

impl Component {
    /// A fresh top-level component owning the given tree.
    pub fn new(id: u64, root_element: Element) -> (r: Component)
        ensures
            r.id == id,
            r.root_element == root_element,
            r.parent_element is None,
    {
        Component { id, root_element, parent_element: None }
    }
}

/// Number of elements in the tree rooted at `e`, following only the owned
/// `children` edges (elements inside `base_type` components are not counted).
pub open spec fn elem_size(e: Element) -> nat
    decreases e,
{
    1 + seq_elem_size(e.children@)
}

/// Sum of `elem_size` over a sequence of element trees.
pub open spec fn seq_elem_size(s: Seq<Element>) -> nat
    decreases s,
{
    if s.len() == 0 {
        0
    } else {
        elem_size(s[0]) + seq_elem_size(s.drop_first())
    }
}

/// Each tree in `s` is no larger than the whole sequence.
pub proof fn lemma_seq_elem_size_index(s: Seq<Element>, i: int)
    requires
        0 <= i < s.len(),
    ensures
        elem_size(s[i]) <= seq_elem_size(s),
    decreases s.len(),
{
    if i > 0 {
        lemma_seq_elem_size_index(s.drop_first(), i - 1);
    }
}

/// `b` bounds every component id in the tree rooted at `e`, both the ids of
/// components owned through `base_type` edges (recursively) and those in
/// child subtrees.
pub open spec fn comp_ids_at_most(e: Element, b: int) -> bool
    decreases e,
{
    &&& 0 <= b
    &&& match e.base_type {
        Type::Component(c) => c.id <= b && comp_ids_at_most(c.root_element, b),
        _ => true,
    }
    &&& forall|i: int|
        0 <= i < e.children@.len() ==> comp_ids_at_most(#[trigger] e.children@[i], b)
}

/// A component id bound stays a bound when it is raised.
pub proof fn lemma_comp_ids_at_most_mono(e: Element, b: int, b2: int)
    requires
        comp_ids_at_most(e, b),
        b <= b2,
    ensures
        comp_ids_at_most(e, b2),
    decreases e,
{
    match e.base_type {
        Type::Component(c) => {
            lemma_comp_ids_at_most_mono(c.root_element, b, b2);
        },
        _ => {},
    }
    assert forall|i: int|
        0 <= i < e.children@.len() implies comp_ids_at_most(#[trigger] e.children@[i], b2) by {
        lemma_comp_ids_at_most_mono(e.children@[i], b, b2);
    }
}

/// Every element of the tree rooted at `e` (following `children` edges) has
/// its enclosing component back reference resolved to `cid`.
pub open spec fn all_enclosing(e: Element, cid: u64) -> bool
    decreases e,
{
    &&& e.enclosing_component == Some(cid)
    &&& forall|i: int|
        0 <= i < e.children@.len() ==> all_enclosing(#[trigger] e.children@[i], cid)
}

/// `post` is `pre` with the enclosing component back reference of every
/// element in the tree set to `cid`, and nothing else changed.  This is the
/// rewiring walk a pass performs after moving a subtree into a freshly
/// synthesized component.
pub open spec fn enclosing_rewired(pre: Element, post: Element, cid: u64) -> bool
    decreases pre,
{
    &&& post.id == pre.id
    &&& post.key == pre.key
    &&& post.base_type == pre.base_type
    &&& post.bindings == pre.bindings
    &&& post.property_declarations == pre.property_declarations
    &&& post.property_animations == pre.property_animations
    &&& post.repeated == pre.repeated
    &&& post.node == pre.node
    &&& post.enclosing_component == Some(cid)
    &&& post.children@.len() == pre.children@.len()
    &&& forall|i: int|
        0 <= i < pre.children@.len() ==> enclosing_rewired(
            #[trigger] pre.children@[i],
            post.children@[i],
            cid,
        )
}

/// Pointwise `enclosing_rewired` over two sequences of trees.
pub open spec fn enclosing_rewired_seq(pre: Seq<Element>, post: Seq<Element>, cid: u64) -> bool {
    &&& post.len() == pre.len()
    &&& forall|i: int|
        0 <= i < pre.len() ==> enclosing_rewired(#[trigger] pre[i], post[i], cid)
}

/// Rewiring the back references does not change the size of a tree.
pub proof fn lemma_rewired_preserves_size(pre: Element, post: Element, cid: u64)
    requires
        enclosing_rewired(pre, post, cid),
    ensures
        elem_size(post) == elem_size(pre),
    decreases pre,
{
    lemma_rewired_seq_preserves_size(pre.children@, post.children@, cid);
}

/// Rewiring the back references does not change the size of a forest.
pub proof fn lemma_rewired_seq_preserves_size(pre: Seq<Element>, post: Seq<Element>, cid: u64)
    requires
        enclosing_rewired_seq(pre, post, cid),
    ensures
        seq_elem_size(post) == seq_elem_size(pre),
    decreases pre,
{
    if pre.len() > 0 {
        lemma_rewired_preserves_size(pre[0], post[0], cid);
        assert(enclosing_rewired_seq(pre.drop_first(), post.drop_first(), cid));
        lemma_rewired_seq_preserves_size(pre.drop_first(), post.drop_first(), cid);
    }
}

/// The visitor of the rewiring walk: one visit sets one element's enclosing
/// component back reference to `cid` and touches nothing else.
pub struct EnclosingRewirer {
    pub cid: u64,
}

impl ElementVisitor for EnclosingRewirer {
    open spec fn visited(&self, pre: Element, post: Element) -> bool {
        &&& post.id == pre.id
        &&& post.key == pre.key
        &&& post.base_type == pre.base_type
        &&& post.bindings == pre.bindings
        &&& post.children == pre.children
        &&& post.property_declarations == pre.property_declarations
        &&& post.property_animations == pre.property_animations
        &&& post.repeated == pre.repeated
        &&& post.node == pre.node
        &&& post.enclosing_component == Some(self.cid)
    }

    fn visit(&self, e: &mut Element) {
        e.enclosing_component = Some(self.cid);
    }
}

/// A walk with the rewiring visitor does exactly what `enclosing_rewired`
/// says: it sets every enclosing component reference and nothing more.
pub proof fn lemma_walked_rewires(v: EnclosingRewirer, pre: Element, post: Element)
    requires
        walked(v, pre, post),
    ensures
        enclosing_rewired(pre, post, v.cid),
    decreases post,
{
    let mid = choose|mid: Element|
        #[trigger] v.visited(pre, mid) && same_except_children(mid, post)
            && walked_seq(v, mid.children@, post.children@);
    lemma_walked_rewires_seq(v, mid.children@, post.children@);
}

/// Forest version of `lemma_walked_rewires`.
pub proof fn lemma_walked_rewires_seq(v: EnclosingRewirer, pre: Seq<Element>, post: Seq<Element>)
    requires
        walked_seq(v, pre, post),
    ensures
        enclosing_rewired_seq(pre, post, v.cid),
    decreases post,
{
    if pre.len() > 0 {
        lemma_walked_rewires(v, pre[0], post[0]);
        lemma_walked_rewires_seq(v, pre.drop_first(), post.drop_first());
        assert forall|i: int| 0 <= i < pre.len() implies enclosing_rewired(
            #[trigger] pre[i],
            post[i],
            v.cid,
        ) by {
            if i > 0 {
                assert(pre[i] == pre.drop_first()[i - 1]);
                assert(post[i] == post.drop_first()[i - 1]);
            }
        }
    }
}

/// Sets the enclosing component back reference of every element in the tree
/// to `cid`, through a pre-order walk with the rewiring visitor.
pub fn set_enclosing_component(e: Element, cid: u64) -> (r: Element)
    ensures
        enclosing_rewired(e, r, cid),
{
    let ghost pre = e;
    let v = EnclosingRewirer { cid };
    let r = recurse_elem(e, &v);
    proof {
        lemma_walked_rewires(v, pre, r);
    }
    r
}

/// Sets the enclosing component back reference of every element of every
/// tree in `v` to `cid`.
pub fn set_enclosing_children(v: Vec<Element>, cid: u64) -> (r: Vec<Element>)
    ensures
        enclosing_rewired_seq(v@, r@, cid),
{
    let ghost pre = v@;
    let mut v = v;
    let mut out: Vec<Element> = Vec::new();
    while v.len() > 0
        invariant
            out@.len() + v@.len() == pre.len(),
            forall|j: int| 0 <= j < v@.len() ==> v@[j] == pre[out@.len() + j],
            forall|i: int|
                0 <= i < out@.len() ==> enclosing_rewired(#[trigger] pre[i], out@[i], cid),
        decreases v@.len(),
    {
        let x = v.remove(0);
        let y = set_enclosing_component(x, cid);
        out.push(y);
    }
    out
}

} // verus!
