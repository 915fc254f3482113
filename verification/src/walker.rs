//! A reusable pre-order tree walk.  The walker visits every element of a
//! tree exactly once — an element before its children, children left to
//! right — handing each to a caller-supplied visitor that may mutate it.
//! The walker re-reads an element's children after the visit, so a visitor
//! that empties the child list keeps the walk from descending into what was
//! removed; a visitor that relocates subtrees must walk them itself.
//!
//! The walker performs no structural change of its own; what a walk does to
//! a tree is pinned, through `walked`, entirely by the visitor's own
//! `visited` relation.

use crate::object_tree::{elem_size, lemma_seq_elem_size_index, seq_elem_size, Element};
use vstd::prelude::*;

verus! {

/// A visitor the walker threads through a tree.  The visitor carries its own
/// context in `self`; `visited` is its contract: what one visit does to the
/// element it is given.  A visit must not grow the element's tree, else the
/// walk would have no bound.
pub trait ElementVisitor {
    /// The relation one call of `visit` establishes between the element
    /// before and after the visit.
    spec fn visited(&self, pre: Element, post: Element) -> bool;

    /// Visits one element, mutating it at will within `visited`.
    fn visit(&self, e: &mut Element)
        ensures
            self.visited(*old(e), *final(e)),
            elem_size(*final(e)) <= elem_size(*old(e)),
    ;
}

/// Everything of two elements is equal but their child lists.
pub open spec fn same_except_children(a: Element, b: Element) -> bool {
    &&& b.id == a.id
    &&& b.key == a.key
    &&& b.base_type == a.base_type
    &&& b.bindings == a.bindings
    &&& b.property_declarations == a.property_declarations
    &&& b.property_animations == a.property_animations
    &&& b.repeated == a.repeated
    &&& b.node == a.node
    &&& b.enclosing_component == a.enclosing_component
}

/// What a pre-order walk with visitor `v` does to a tree: the root is
/// visited, and each child the visit left in place is walked in turn.
pub open spec fn walked<V: ElementVisitor>(v: V, pre: Element, post: Element) -> bool
    decreases post,
{
    exists|mid: Element|
        #[trigger] v.visited(pre, mid) && same_except_children(mid, post) && walked_seq(
            v,
            mid.children@,
            post.children@,
        )
}

/// Pointwise `walked` over a forest.
pub open spec fn walked_seq<V: ElementVisitor>(v: V, pre: Seq<Element>, post: Seq<Element>) -> bool
    decreases post,
{
    if pre.len() == 0 {
        post.len() == 0
    } else {
        &&& post.len() == pre.len()
        &&& walked(v, pre[0], post[0])
        &&& walked_seq(v, pre.drop_first(), post.drop_first())
    }
}

/// Walks the tree rooted at `root` in pre-order, visiting every element
/// once and descending into the children each visit leaves behind.
pub fn recurse_elem<V: ElementVisitor>(root: Element, v: &V) -> (r: Element)
    ensures
        walked(*v, root, r),
        elem_size(r) <= elem_size(root),
    decreases elem_size(root), 0int,
{
    let ghost pre = root;
    let mut e = root;
    v.visit(&mut e);
    let ghost mid = e;
    let Element {
        id,
        key,
        base_type,
        bindings,
        children,
        property_declarations,
        property_animations,
        repeated,
        node,
        enclosing_component,
    } = e;
    let new_children = recurse_children(children, v);
    let r = Element {
        id,
        key,
        base_type,
        bindings,
        children: new_children,
        property_declarations,
        property_animations,
        repeated,
        node,
        enclosing_component,
    };
    proof {
        assert(v.visited(pre, mid) && same_except_children(mid, r) && walked_seq(
            *v,
            mid.children@,
            r.children@,
        ));
    }
    r
}

/// Walks each tree of a forest in order.
fn recurse_children<V: ElementVisitor>(v: Vec<Element>, vis: &V) -> (r: Vec<Element>)
    ensures
        walked_seq(*vis, v@, r@),
        seq_elem_size(r@) <= seq_elem_size(v@),
    decreases seq_elem_size(v@), 1int,
{
    let ghost pre = v@;
    let mut v = v;
    if v.len() == 0 {
        v
    } else {
        let head = v.remove(0);
        proof {
            assert(pre.drop_first() =~= v@);
            lemma_seq_elem_size_index(pre, 0);
        }
        let new_head = recurse_elem(head, vis);
        let mut rest = recurse_children(v, vis);
        let ghost tail = rest@;
        rest.insert(0, new_head);
        proof {
            assert(rest@.drop_first() =~= tail);
            assert(walked_seq(*vis, pre, rest@));
        }
        rest
    }
}

} // verus!
