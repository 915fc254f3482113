//! The repeater normalization pass: every element marked as repeated has its
//! content (type, bindings, children, property declarations and animations)
//! moved into a freshly synthesized component, and is left as a thin
//! instantiation site whose `base_type` names that component.  The pass
//! recurses into each synthesized component, so repeaters nested inside a
//! repeater's template are split as well.

use crate::diagnostics::Diagnostics;
use crate::object_tree::{
    comp_ids_at_most, elem_size, enclosing_rewired, enclosing_rewired_seq,
    lemma_comp_ids_at_most_mono, lemma_rewired_seq_preserves_size, lemma_seq_elem_size_index,
    seq_elem_size, set_enclosing_children, Component, Element, Type,
};
use vstd::prelude::*;

verus! {

/// Largest component id the pass accepts in its input; the ids it
/// synthesizes stay above every input id and below `u64::MAX`.
pub const ID_LIMIT: u64 = 0x7fff_ffff_ffff_ffff;

/// Largest tree size the pass accepts; together with `ID_LIMIT` this keeps
/// the fresh-id counter from overflowing.
pub const SIZE_LIMIT: u64 = 0x7fff_ffff_ffff_ffff;

/// How many fresh component ids normalizing the tree rooted at `e` consumes:
/// one per repeated element, anywhere under the owned `children` edges.
pub open spec fn ids_used(e: Element) -> nat
    decreases e,
{
    (if e.repeated is Some {
        1nat
    } else {
        0nat
    }) + seq_ids_used(e.children@)
}

/// Sum of `ids_used` over a forest.
pub open spec fn seq_ids_used(s: Seq<Element>) -> nat
    decreases s,
{
    if s.len() == 0 {
        0
    } else {
        ids_used(s[0]) + seq_ids_used(s.drop_first())
    }
}

/// What one run of the pass does to one element tree.  `post` is the result
/// of normalizing `pre` while `n0` was the next fresh component id.  When
/// `enc` is `Some(cid)`, the tree is also being rewired: every element's
/// enclosing component back reference becomes `cid` (this is how the pass
/// sees the subtrees it has just moved into a synthesized component); with
/// `enc == None` every element keeps its enclosing component.
///
/// A repeated element keeps its identity (`id`, `key`, `node`), its
/// `repeated` descriptor and its enclosing component, and is emptied of
/// everything else; its former content reappears as the root element of a
/// synthesized component with id `n0` whose `parent_element` points back at
/// the element and whose tree names the new component as its enclosing
/// component.  An ordinary element is untouched except for the rewiring and
/// its children being normalized in order.
pub open spec fn normalized_from(pre: Element, post: Element, enc: Option<u64>, n0: int) -> bool
    decreases post,
{
    if pre.repeated is Some {
        &&& post.id == pre.id
        &&& post.key == pre.key
        &&& post.node == pre.node
        &&& post.repeated == pre.repeated
        &&& post.enclosing_component == (if enc is Some {
            enc
        } else {
            pre.enclosing_component
        })
        &&& post.bindings@.len() == 0
        &&& post.children@.len() == 0
        &&& post.property_declarations@.len() == 0
        &&& post.property_animations@.len() == 0
        &&& match post.base_type {
            Type::Component(c) => {
                &&& c.id == n0
                &&& c.parent_element == Some(pre.key)
                &&& c.root_element.id == pre.id
                &&& c.root_element.key == pre.key
                &&& c.root_element.node == pre.node
                &&& c.root_element.repeated is None
                &&& c.root_element.base_type == pre.base_type
                &&& c.root_element.bindings == pre.bindings
                &&& c.root_element.property_declarations == pre.property_declarations
                &&& c.root_element.property_animations == pre.property_animations
                &&& c.root_element.enclosing_component == Some(c.id)
                &&& children_normalized_from(
                    pre.children@,
                    c.root_element.children@,
                    Some(c.id),
                    n0 + 1,
                )
            },
            _ => false,
        }
    } else {
        &&& post.id == pre.id
        &&& post.key == pre.key
        &&& post.node == pre.node
        &&& post.repeated == pre.repeated
        &&& post.enclosing_component == (if enc is Some {
            enc
        } else {
            pre.enclosing_component
        })
        &&& post.base_type == pre.base_type
        &&& post.bindings == pre.bindings
        &&& post.property_declarations == pre.property_declarations
        &&& post.property_animations == pre.property_animations
        &&& children_normalized_from(pre.children@, post.children@, enc, n0)
    }
}

/// Pointwise normalization of a forest, the fresh-id counter advancing left
/// to right by exactly the ids each tree consumes.
pub open spec fn children_normalized_from(
    pre: Seq<Element>,
    post: Seq<Element>,
    enc: Option<u64>,
    n0: int,
) -> bool
    decreases post,
{
    if pre.len() == 0 {
        post.len() == 0
    } else {
        &&& post.len() == pre.len()
        &&& normalized_from(pre[0], post[0], enc, n0)
        &&& children_normalized_from(
            pre.drop_first(),
            post.drop_first(),
            enc,
            n0 + ids_used(pre[0]),
        )
    }
}

/// What one run of the pass does to a component: its identity and parent
/// back reference stay, its tree is normalized in place with fresh ids
/// starting at `n0`.
pub open spec fn component_normalized_from(pre: Component, post: Component, n0: int) -> bool {
    &&& post.id == pre.id
    &&& post.parent_element == pre.parent_element
    &&& normalized_from(pre.root_element, post.root_element, None, n0)
}

/// Everything the pass promises of its result: the tree was normalized with
/// fresh ids starting at `n0`, and `n0` lies strictly above every component
/// id the input held.
pub open spec fn normalization_evidence(pre: Component, post: Component, n0: int) -> bool {
    &&& component_normalized_from(pre, post, n0)
    &&& comp_ids_at_most(pre.root_element, n0 - 1)
    &&& pre.id < n0
}

/// Rewiring a tree's enclosing component references changes how many fresh
/// ids normalizing it consumes in no way.
proof fn lemma_rewired_preserves_ids_used(pre: Element, post: Element, cid: u64)
    requires
        enclosing_rewired(pre, post, cid),
    ensures
        ids_used(post) == ids_used(pre),
    decreases pre,
{
    lemma_rewired_seq_preserves_ids_used(pre.children@, post.children@, cid);
}

/// Forest version of `lemma_rewired_preserves_ids_used`.
proof fn lemma_rewired_seq_preserves_ids_used(pre: Seq<Element>, post: Seq<Element>, cid: u64)
    requires
        enclosing_rewired_seq(pre, post, cid),
    ensures
        seq_ids_used(post) == seq_ids_used(pre),
    decreases pre,
{
    if pre.len() > 0 {
        lemma_rewired_preserves_ids_used(pre[0], post[0], cid);
        assert(enclosing_rewired_seq(pre.drop_first(), post.drop_first(), cid));
        lemma_rewired_seq_preserves_ids_used(pre.drop_first(), post.drop_first(), cid);
    }
}

/// A tree never consumes more fresh ids than it has elements.
proof fn lemma_ids_used_le_size(e: Element)
    ensures
        ids_used(e) <= elem_size(e),
    decreases e,
{
    lemma_seq_ids_used_le_size(e.children@);
}

/// Forest version of `lemma_ids_used_le_size`.
proof fn lemma_seq_ids_used_le_size(s: Seq<Element>)
    ensures
        seq_ids_used(s) <= seq_elem_size(s),
    decreases s,
{
    if s.len() > 0 {
        lemma_ids_used_le_size(s[0]);
        lemma_seq_ids_used_le_size(s.drop_first());
    }
}

/// Normalizing a tree that was first rewired to `cid` is the same as
/// normalizing the original tree under the rewiring: the pass may move a
/// subtree, rewire it in a second walk, and only then recurse into it.
proof fn lemma_compose_rewire(
    a: Element,
    b: Element,
    out: Element,
    cid: u64,
    enc: Option<u64>,
    n0: int,
)
    requires
        enclosing_rewired(a, b, cid),
        normalized_from(b, out, enc, n0),
    ensures
        normalized_from(
            a,
            out,
            (if enc is Some {
                enc
            } else {
                Some(cid)
            }),
            n0,
        ),
    decreases a,
{
    if a.repeated is Some {
        match out.base_type {
            Type::Component(c) => {
                lemma_compose_rewire_seq(
                    a.children@,
                    b.children@,
                    c.root_element.children@,
                    cid,
                    Some(c.id),
                    n0 + 1,
                );
            },
            _ => {},
        }
    } else {
        lemma_compose_rewire_seq(a.children@, b.children@, out.children@, cid, enc, n0);
    }
}

/// Forest version of `lemma_compose_rewire`.
proof fn lemma_compose_rewire_seq(
    a: Seq<Element>,
    b: Seq<Element>,
    out: Seq<Element>,
    cid: u64,
    enc: Option<u64>,
    n0: int,
)
    requires
        enclosing_rewired_seq(a, b, cid),
        children_normalized_from(b, out, enc, n0),
    ensures
        children_normalized_from(
            a,
            out,
            (if enc is Some {
                enc
            } else {
                Some(cid)
            }),
            n0,
        ),
    decreases a,
{
    if a.len() > 0 {
        lemma_compose_rewire(a[0], b[0], out[0], cid, enc, n0);
        lemma_rewired_preserves_ids_used(a[0], b[0], cid);
        assert(enclosing_rewired_seq(a.drop_first(), b.drop_first(), cid));
        lemma_compose_rewire_seq(
            a.drop_first(),
            b.drop_first(),
            out.drop_first(),
            cid,
            enc,
            n0 + ids_used(b[0]),
        );
    }
}

/// Normalizes one element tree.  `next` is the next fresh component id; the
/// returned counter accounts for every component the call synthesized.
fn normalize_element(e: Element, next: u64) -> (r: (Element, u64))
    requires
        next + elem_size(e) <= u64::MAX,
    ensures
        normalized_from(e, r.0, None, next as int),
        r.1 as int == next + ids_used(e),
    decreases elem_size(e), 0int,
{
    let ghost pre = e;
    let Element {
        id,
        key,
        base_type,
        bindings,
        children,
        property_declarations,
        property_animations,
        repeated,
        node,
        enclosing_component,
    } = e;
    if repeated.is_some() {
        let cid = next;
        let mid = set_enclosing_children(children, cid);
        proof {
            lemma_rewired_seq_preserves_size(pre.children@, mid@, cid);
            lemma_seq_ids_used_le_size(mid@);
        }
        let (new_children, n_end) = normalize_children(mid, next + 1);
        let root = Element {
            id: id.clone(),
            key,
            base_type,
            bindings,
            children: new_children,
            property_declarations,
            property_animations,
            repeated: None,
            node,
            enclosing_component: Some(cid),
        };
        let comp = Component { id: cid, root_element: root, parent_element: Some(key) };
        let out = Element {
            id,
            key,
            base_type: Type::Component(Box::new(comp)),
            bindings: Vec::new(),
            children: Vec::new(),
            property_declarations: Vec::new(),
            property_animations: Vec::new(),
            repeated,
            node,
            enclosing_component,
        };
        proof {
            lemma_compose_rewire_seq(
                pre.children@,
                mid@,
                new_children@,
                cid,
                None,
                next + 1,
            );
            lemma_rewired_seq_preserves_ids_used(pre.children@, mid@, cid);
            assert(normalized_from(pre, out, None, next as int));
        }
        (out, n_end)
    } else {
        let (new_children, n_end) = normalize_children(children, next);
        let out = Element {
            id,
            key,
            base_type,
            bindings,
            children: new_children,
            property_declarations,
            property_animations,
            repeated,
            node,
            enclosing_component,
        };
        proof {
            assert(normalized_from(pre, out, None, next as int));
        }
        (out, n_end)
    }
}

/// Normalizes a forest of element trees in order, threading the fresh-id
/// counter.
fn normalize_children(v: Vec<Element>, next: u64) -> (r: (Vec<Element>, u64))
    requires
        next + seq_elem_size(v@) <= u64::MAX,
    ensures
        children_normalized_from(v@, r.0@, None, next as int),
        r.0@.len() == v@.len(),
        r.1 as int == next + seq_ids_used(v@),
    decreases seq_elem_size(v@), 1int,
{
    let ghost pre = v@;
    let mut v = v;
    if v.len() == 0 {
        (v, next)
    } else {
        let head = v.remove(0);
        proof {
            assert(pre.drop_first() =~= v@);
            lemma_seq_elem_size_index(pre, 0);
            lemma_ids_used_le_size(head);
        }
        let (new_head, n_mid) = normalize_element(head, next);
        let (mut rest, n_end) = normalize_children(v, n_mid);
        let ghost tail = rest@;
        rest.insert(0, new_head);
        proof {
            assert(rest@.drop_first() =~= tail);
            assert(children_normalized_from(pre, rest@, None, next as int));
        }
        (rest, n_end)
    }
}

/// Computes the least upper bound of the component ids in the tree rooted at
/// `e`, looking through both `children` and `base_type` edges.
fn tree_id_bound(e: &Element) -> (r: u64)
    ensures
        comp_ids_at_most(*e, r as int),
        forall|b: int| comp_ids_at_most(*e, b) ==> r as int <= b,
    decreases *e,
{
    let mut m: u64 = 0;
    match &e.base_type {
        Type::Component(c) => {
            let rb = tree_id_bound(&c.root_element);
            m = if c.id > rb {
                c.id
            } else {
                rb
            };
            proof {
                if m != rb {
                    lemma_comp_ids_at_most_mono(c.root_element, rb as int, m as int);
                }
                assert forall|b: int| comp_ids_at_most(*e, b) implies m as int <= b by {
                    assert(comp_ids_at_most(c.root_element, b));
                }
            }
        },
        _ => {},
    }
    let n = e.children.len();
    let mut i: usize = 0;
    while i < n
        invariant
            n == e.children@.len(),
            0 <= i <= n,
            forall|j: int| 0 <= j < i ==> comp_ids_at_most(#[trigger] e.children@[j], m as int),
            match e.base_type {
                Type::Component(c) => c.id <= m && comp_ids_at_most(c.root_element, m as int),
                _ => true,
            },
            forall|b: int| comp_ids_at_most(*e, b) ==> m as int <= b,
        decreases n - i,
    {
        let rb = tree_id_bound(&e.children[i]);
        let ghost m_old = m;
        if rb > m {
            m = rb;
        }
        proof {
            if m != m_old {
                assert forall|j: int| 0 <= j < i implies comp_ids_at_most(
                    #[trigger] e.children@[j],
                    m as int,
                ) by {
                    lemma_comp_ids_at_most_mono(e.children@[j], m_old as int, m as int);
                }
                match &e.base_type {
                    Type::Component(c) => {
                        lemma_comp_ids_at_most_mono(c.root_element, m_old as int, m as int);
                    },
                    _ => {},
                }
            }
            lemma_comp_ids_at_most_mono(e.children@[i as int], rb as int, m as int);
            assert forall|b: int| comp_ids_at_most(*e, b) implies m as int <= b by {
                assert(comp_ids_at_most(e.children@[i as int], b));
            }
        }
        i += 1;
    }
    proof {
        assert(comp_ids_at_most(*e, m as int));
    }
    m
}

/// Normalizes the repeated elements of `component`, in place.
///
/// Every element of the tree marked as repeated is emptied of its content,
/// which reappears as a freshly synthesized component that the element's
/// `base_type` then names; the synthesized trees are rewired to their new
/// enclosing components and recursively normalized in turn.  The ids of the
/// synthesized components are fresh: strictly above every component id the
/// input tree held and above the component's own id.  The pass accepts the
/// sink for forward compatibility and emits no diagnostics.
///
/// The pass is meant to run once per component: rerunning it wraps each
/// still-marked repeated element in a further synthesized component.
pub fn create_repeater_components(component: &mut Component, diag: &mut Diagnostics)
    requires
        comp_ids_at_most(old(component).root_element, ID_LIMIT as int),
        old(component).id <= ID_LIMIT,
        elem_size(old(component).root_element) <= SIZE_LIMIT,
    ensures
        exists|n0: int| #[trigger] normalization_evidence(*old(component), *final(component), n0),
        *final(diag) == *old(diag),
{
    let low = tree_id_bound(&component.root_element);
    let bound = if component.id > low {
        component.id
    } else {
        low
    };
    proof {
        lemma_comp_ids_at_most_mono(component.root_element, low as int, bound as int);
    }
    let mut tree = Element::new(
        String::new(),
        0,
        Type::Invalid,
        crate::object_tree::SourceLocation { offset: 0 },
    );
    core::mem::swap(&mut component.root_element, &mut tree);
    let (new_root, _next) = normalize_element(tree, bound + 1);
    component.root_element = new_root;
    proof {
        assert(normalized_from(
            old(component).root_element,
            component.root_element,
            None,
            bound + 1,
        ));
        assert(component_normalized_from(*old(component), *component, bound + 1));
        assert(comp_ids_at_most(old(component).root_element, bound as int));
        assert(normalization_evidence(*old(component), *component, bound + 1));
    }
}

} // verus!
