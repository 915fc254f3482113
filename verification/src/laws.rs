//! What the repeater normalization pass guarantees, stated as predicates
//! over trees and proved, once and for all, of every run of the pass.  Each
//! proof function takes the pass's result relation as its hypothesis; a
//! caller obtains that relation from the `normalization_evidence` the pass
//! ensures.

use crate::object_tree::{
    all_enclosing, comp_ids_at_most, enclosing_rewired, enclosing_rewired_seq, Component, Element,
    Type,
};
use crate::repeater_component::{
    children_normalized_from, ids_used, normalization_evidence, normalized_from, seq_ids_used,
};
use vstd::prelude::*;

verus! {

/// The content of this element was split away if it is repeated: no
/// children, no bindings, no property declarations, no property animations
/// remain on it.
pub open spec fn repeated_content_empty(e: Element) -> bool {
    e.repeated is Some ==> {
        &&& e.children@.len() == 0
        &&& e.bindings@.len() == 0
        &&& e.property_declarations@.len() == 0
        &&& e.property_animations@.len() == 0
    }
}

/// No element reachable from `e` through the owned `children` edges still
/// carries content on a repeated element.
pub open spec fn tree_repeaters_empty(e: Element) -> bool
    decreases e,
{
    &&& repeated_content_empty(e)
    &&& forall|i: int|
        0 <= i < e.children@.len() ==> tree_repeaters_empty(#[trigger] e.children@[i])
}

/// As `tree_repeaters_empty`, but also descending into the component a
/// repeated element's `base_type` names, so the whole forest of synthesized
/// components is covered, however deeply repeaters were nested.
pub open spec fn fully_normalized(e: Element) -> bool
    decreases e,
{
    &&& repeated_content_empty(e)
    &&& (e.repeated is Some ==> match e.base_type {
        Type::Component(c) => fully_normalized(c.root_element),
        _ => false,
    })
    &&& forall|i: int|
        0 <= i < e.children@.len() ==> fully_normalized(#[trigger] e.children@[i])
}

/// Every synthesized component hanging off a repeated element has its back
/// references right: its whole tree names it as the enclosing component, and
/// its `parent_element` names the repeated element it was split from; the
/// same holds inside it, recursively.
pub open spec fn synthesized_back_refs_ok(e: Element) -> bool
    decreases e,
{
    &&& (e.repeated is Some ==> match e.base_type {
        Type::Component(c) => {
            &&& all_enclosing(c.root_element, c.id)
            &&& c.parent_element == Some(e.key)
            &&& synthesized_back_refs_ok(c.root_element)
        },
        _ => false,
    })
    &&& forall|i: int|
        0 <= i < e.children@.len() ==> synthesized_back_refs_ok(#[trigger] e.children@[i])
}

/// Every component a repeated element names, anywhere in the tree, has an id
/// in `[lo, hi)` — the ids handed out by one run of the pass.
pub open spec fn synth_comp_ids_in(e: Element, lo: int, hi: int) -> bool
    decreases e,
{
    &&& (e.repeated is Some ==> match e.base_type {
        Type::Component(c) => lo <= c.id < hi && synth_comp_ids_in(c.root_element, lo, hi),
        _ => false,
    })
    &&& forall|i: int|
        0 <= i < e.children@.len() ==> synth_comp_ids_in(#[trigger] e.children@[i], lo, hi)
}

/// Elements that are not repeated keep every field: identity, type,
/// bindings, declarations, animations, repetition mark, source location and
/// enclosing component, with their child lists kept in order and the same
/// holding of each child in turn.
pub open spec fn non_repeated_untouched(pre: Element, post: Element) -> bool
    decreases pre,
{
    pre.repeated is None ==> {
        &&& post.id == pre.id
        &&& post.key == pre.key
        &&& post.node == pre.node
        &&& post.repeated == pre.repeated
        &&& post.enclosing_component == pre.enclosing_component
        &&& post.base_type == pre.base_type
        &&& post.bindings == pre.bindings
        &&& post.property_declarations == pre.property_declarations
        &&& post.property_animations == pre.property_animations
        &&& post.children@.len() == pre.children@.len()
        &&& forall|i: int|
            0 <= i < pre.children@.len() ==> non_repeated_untouched(
                #[trigger] pre.children@[i],
                post.children@[i],
            )
    }
}

/// A normalized forest has as many trees as the forest it came from.
pub proof fn lemma_children_normalized_len(
    pre: Seq<Element>,
    post: Seq<Element>,
    enc: Option<u64>,
    n0: int,
)
    requires
        children_normalized_from(pre, post, enc, n0),
    ensures
        post.len() == pre.len(),
{
}

/// After normalization no repeated element keeps content: its children,
/// bindings, property declarations and property animations are all empty.
pub proof fn lemma_no_residual_repetition(pre: Element, post: Element, enc: Option<u64>, n0: int)
    requires
        normalized_from(pre, post, enc, n0),
    ensures
        tree_repeaters_empty(post),
    decreases pre,
{
    if pre.repeated is None {
        lemma_no_residual_repetition_seq(pre.children@, post.children@, enc, n0);
    }
}

/// Forest version of `lemma_no_residual_repetition`.
pub proof fn lemma_no_residual_repetition_seq(
    pre: Seq<Element>,
    post: Seq<Element>,
    enc: Option<u64>,
    n0: int,
)
    requires
        children_normalized_from(pre, post, enc, n0),
    ensures
        forall|i: int| 0 <= i < post.len() ==> tree_repeaters_empty(#[trigger] post[i]),
    decreases pre,
{
    if pre.len() > 0 {
        lemma_no_residual_repetition(pre[0], post[0], enc, n0);
        lemma_no_residual_repetition_seq(
            pre.drop_first(),
            post.drop_first(),
            enc,
            n0 + ids_used(pre[0]),
        );
        assert forall|i: int| 0 <= i < post.len() implies tree_repeaters_empty(
            #[trigger] post[i],
        ) by {
            if i > 0 {
                assert(post[i] == post.drop_first()[i - 1]);
            }
        }
    }
}

/// Normalization reaches every repeater, however deeply nested inside other
/// repeaters' templates: the whole forest of synthesized components is free
/// of residual content.
pub proof fn lemma_recursive_coverage(pre: Element, post: Element, enc: Option<u64>, n0: int)
    requires
        normalized_from(pre, post, enc, n0),
    ensures
        fully_normalized(post),
    decreases pre,
{
    if pre.repeated is Some {
        match post.base_type {
            Type::Component(c) => {
                lemma_recursive_coverage_seq(
                    pre.children@,
                    c.root_element.children@,
                    Some(c.id),
                    n0 + 1,
                );
                assert(fully_normalized(c.root_element));
                assert(fully_normalized(post));
            },
            _ => {},
        }
    } else {
        lemma_recursive_coverage_seq(pre.children@, post.children@, enc, n0);
    }
}

/// Forest version of `lemma_recursive_coverage`.
pub proof fn lemma_recursive_coverage_seq(
    pre: Seq<Element>,
    post: Seq<Element>,
    enc: Option<u64>,
    n0: int,
)
    requires
        children_normalized_from(pre, post, enc, n0),
    ensures
        forall|i: int| 0 <= i < post.len() ==> fully_normalized(#[trigger] post[i]),
    decreases pre,
{
    if pre.len() > 0 {
        lemma_recursive_coverage(pre[0], post[0], enc, n0);
        lemma_recursive_coverage_seq(
            pre.drop_first(),
            post.drop_first(),
            enc,
            n0 + ids_used(pre[0]),
        );
        assert forall|i: int| 0 <= i < post.len() implies fully_normalized(#[trigger] post[i]) by {
            if i > 0 {
                assert(post[i] == post.drop_first()[i - 1]);
            }
        }
    }
}

/// A tree normalized under a rewiring to `cid` names `cid` as the enclosing
/// component everywhere.
pub proof fn lemma_normalized_all_enclosing(pre: Element, post: Element, cid: u64, n0: int)
    requires
        normalized_from(pre, post, Some(cid), n0),
    ensures
        all_enclosing(post, cid),
    decreases pre,
{
    if pre.repeated is None {
        lemma_normalized_all_enclosing_seq(pre.children@, post.children@, cid, n0);
    }
}

/// Forest version of `lemma_normalized_all_enclosing`.
pub proof fn lemma_normalized_all_enclosing_seq(
    pre: Seq<Element>,
    post: Seq<Element>,
    cid: u64,
    n0: int,
)
    requires
        children_normalized_from(pre, post, Some(cid), n0),
    ensures
        forall|i: int| 0 <= i < post.len() ==> all_enclosing(#[trigger] post[i], cid),
    decreases pre,
{
    if pre.len() > 0 {
        lemma_normalized_all_enclosing(pre[0], post[0], cid, n0);
        lemma_normalized_all_enclosing_seq(
            pre.drop_first(),
            post.drop_first(),
            cid,
            n0 + ids_used(pre[0]),
        );
        assert forall|i: int| 0 <= i < post.len() implies all_enclosing(
            #[trigger] post[i],
            cid,
        ) by {
            if i > 0 {
                assert(post[i] == post.drop_first()[i - 1]);
            }
        }
    }
}

/// Every element of a synthesized component's tree resolves its enclosing
/// component to that synthesized component, and every synthesized
/// component's `parent_element` resolves to the repeated element it was
/// split from.
pub proof fn lemma_back_reference_correctness(
    pre: Element,
    post: Element,
    enc: Option<u64>,
    n0: int,
)
    requires
        normalized_from(pre, post, enc, n0),
    ensures
        synthesized_back_refs_ok(post),
    decreases pre,
{
    if pre.repeated is Some {
        match post.base_type {
            Type::Component(c) => {
                lemma_normalized_all_enclosing_seq(
                    pre.children@,
                    c.root_element.children@,
                    c.id,
                    n0 + 1,
                );
                lemma_back_reference_correctness_seq(
                    pre.children@,
                    c.root_element.children@,
                    Some(c.id),
                    n0 + 1,
                );
                assert(all_enclosing(c.root_element, c.id));
                assert(synthesized_back_refs_ok(c.root_element));
                assert(synthesized_back_refs_ok(post));
            },
            _ => {},
        }
    } else {
        lemma_back_reference_correctness_seq(pre.children@, post.children@, enc, n0);
    }
}

/// Forest version of `lemma_back_reference_correctness`.
pub proof fn lemma_back_reference_correctness_seq(
    pre: Seq<Element>,
    post: Seq<Element>,
    enc: Option<u64>,
    n0: int,
)
    requires
        children_normalized_from(pre, post, enc, n0),
    ensures
        forall|i: int| 0 <= i < post.len() ==> synthesized_back_refs_ok(#[trigger] post[i]),
    decreases pre,
{
    if pre.len() > 0 {
        lemma_back_reference_correctness(pre[0], post[0], enc, n0);
        lemma_back_reference_correctness_seq(
            pre.drop_first(),
            post.drop_first(),
            enc,
            n0 + ids_used(pre[0]),
        );
        assert forall|i: int| 0 <= i < post.len() implies synthesized_back_refs_ok(
            #[trigger] post[i],
        ) by {
            if i > 0 {
                assert(post[i] == post.drop_first()[i - 1]);
            }
        }
    }
}

/// Widening the id interval keeps `synth_comp_ids_in`.
pub proof fn lemma_synth_ids_widen(e: Element, lo: int, hi: int, lo2: int, hi2: int)
    requires
        synth_comp_ids_in(e, lo, hi),
        lo2 <= lo,
        hi <= hi2,
    ensures
        synth_comp_ids_in(e, lo2, hi2),
    decreases e,
{
    match e.base_type {
        Type::Component(c) => {
            if e.repeated is Some {
                lemma_synth_ids_widen(c.root_element, lo, hi, lo2, hi2);
            }
        },
        _ => {},
    }
    assert forall|i: int| 0 <= i < e.children@.len() implies synth_comp_ids_in(
        #[trigger] e.children@[i],
        lo2,
        hi2,
    ) by {
        lemma_synth_ids_widen(e.children@[i], lo, hi, lo2, hi2);
    }
}

/// The components one run synthesizes carry exactly the fresh ids handed out
/// by its counter: all of them lie in `[n0, n0 + ids_used(pre))`.  Together
/// with the pass's promise that `n0` lies strictly above every id of the
/// input, no synthesized component can be confused with a component that
/// already existed — in particular not with the component the content was
/// split out of.
pub proof fn lemma_synthesized_ids_fresh(pre: Element, post: Element, enc: Option<u64>, n0: int)
    requires
        normalized_from(pre, post, enc, n0),
    ensures
        synth_comp_ids_in(post, n0, n0 + ids_used(pre)),
    decreases pre,
{
    if pre.repeated is Some {
        match post.base_type {
            Type::Component(c) => {
                lemma_synthesized_ids_fresh_seq(
                    pre.children@,
                    c.root_element.children@,
                    Some(c.id),
                    n0 + 1,
                );
                assert forall|i: int|
                    0 <= i < c.root_element.children@.len() implies synth_comp_ids_in(
                    #[trigger] c.root_element.children@[i],
                    n0,
                    n0 + ids_used(pre),
                ) by {
                    lemma_synth_ids_widen(
                        c.root_element.children@[i],
                        n0 + 1,
                        n0 + 1 + seq_ids_used(pre.children@),
                        n0,
                        n0 + ids_used(pre),
                    );
                }
                assert(synth_comp_ids_in(c.root_element, n0, n0 + ids_used(pre)));
                assert(synth_comp_ids_in(post, n0, n0 + ids_used(pre)));
            },
            _ => {},
        }
    } else {
        lemma_synthesized_ids_fresh_seq(pre.children@, post.children@, enc, n0);
        assert forall|i: int| 0 <= i < post.children@.len() implies synth_comp_ids_in(
            #[trigger] post.children@[i],
            n0,
            n0 + ids_used(pre),
        ) by {
            lemma_synth_ids_widen(
                post.children@[i],
                n0,
                n0 + seq_ids_used(pre.children@),
                n0,
                n0 + ids_used(pre),
            );
        }
    }
}

/// Forest version of `lemma_synthesized_ids_fresh`.
pub proof fn lemma_synthesized_ids_fresh_seq(
    pre: Seq<Element>,
    post: Seq<Element>,
    enc: Option<u64>,
    n0: int,
)
    requires
        children_normalized_from(pre, post, enc, n0),
    ensures
        forall|i: int|
            0 <= i < post.len() ==> synth_comp_ids_in(
                #[trigger] post[i],
                n0,
                n0 + seq_ids_used(pre),
            ),
    decreases pre,
{
    if pre.len() > 0 {
        lemma_synthesized_ids_fresh(pre[0], post[0], enc, n0);
        lemma_synthesized_ids_fresh_seq(
            pre.drop_first(),
            post.drop_first(),
            enc,
            n0 + ids_used(pre[0]),
        );
        assert forall|i: int| 0 <= i < post.len() implies synth_comp_ids_in(
            #[trigger] post[i],
            n0,
            n0 + seq_ids_used(pre),
        ) by {
            if i == 0 {
                lemma_synth_ids_widen(
                    post[0],
                    n0,
                    n0 + ids_used(pre[0]),
                    n0,
                    n0 + seq_ids_used(pre),
                );
            } else {
                assert(post[i] == post.drop_first()[i - 1]);
                assert(pre.drop_first().len() == pre.len() - 1);
                lemma_synth_ids_widen(
                    post[i],
                    n0 + ids_used(pre[0]),
                    n0 + ids_used(pre[0]) + seq_ids_used(pre.drop_first()),
                    n0,
                    n0 + seq_ids_used(pre),
                );
            }
        }
    }
}

/// The repeated element itself keeps its enclosing component: normalization
/// of a component's own tree never changes where an element says it belongs.
pub proof fn lemma_original_back_reference_stable(pre: Element, post: Element, n0: int)
    requires
        normalized_from(pre, post, None, n0),
    ensures
        post.enclosing_component == pre.enclosing_component,
{
}

/// Elements that are not repeated come through normalization bit for bit,
/// children included, save that repeated elements below them are normalized
/// in turn.
pub proof fn lemma_non_repeated_untouched(pre: Element, post: Element, n0: int)
    requires
        normalized_from(pre, post, None, n0),
    ensures
        non_repeated_untouched(pre, post),
    decreases pre,
{
    if pre.repeated is None {
        lemma_non_repeated_untouched_seq(pre.children@, post.children@, n0);
    }
}

/// Forest version of `lemma_non_repeated_untouched`.
pub proof fn lemma_non_repeated_untouched_seq(pre: Seq<Element>, post: Seq<Element>, n0: int)
    requires
        children_normalized_from(pre, post, None, n0),
    ensures
        post.len() == pre.len(),
        forall|i: int|
            0 <= i < pre.len() ==> non_repeated_untouched(#[trigger] pre[i], post[i]),
    decreases pre,
{
    if pre.len() > 0 {
        lemma_non_repeated_untouched(pre[0], post[0], n0);
        lemma_non_repeated_untouched_seq(
            pre.drop_first(),
            post.drop_first(),
            n0 + ids_used(pre[0]),
        );
        assert forall|i: int| 0 <= i < pre.len() implies non_repeated_untouched(
            #[trigger] pre[i],
            post[i],
        ) by {
            if i > 0 {
                assert(pre[i] == pre.drop_first()[i - 1]);
                assert(post[i] == post.drop_first()[i - 1]);
            }
        }
    }
}

/// The content a repeated element held reappears, unchanged, as the content
/// of the synthesized component's root element: same source identifier, same
/// type, same bindings, declarations and animations, and as many children.
pub proof fn lemma_content_preserved(pre: Element, post: Element, enc: Option<u64>, n0: int)
    requires
        normalized_from(pre, post, enc, n0),
        pre.repeated is Some,
    ensures
        match post.base_type {
            Type::Component(c) => {
                &&& c.root_element.id == pre.id
                &&& c.root_element.base_type == pre.base_type
                &&& c.root_element.bindings == pre.bindings
                &&& c.root_element.property_declarations == pre.property_declarations
                &&& c.root_element.property_animations == pre.property_animations
                &&& c.root_element.children@.len() == pre.children@.len()
            },
            _ => false,
        },
{
    match post.base_type {
        Type::Component(c) => {
            lemma_children_normalized_len(
                pre.children@,
                c.root_element.children@,
                Some(c.id),
                n0 + 1,
            );
        },
        _ => {},
    }
}

/// Everything the evidence one run of the pass leaves behind guarantees, in
/// one place: identity and parent reference kept, no residual repetition
/// content anywhere (nested templates included), back references of every
/// synthesized component correct, ids of synthesized components fresh —
/// strictly above every id the input tree or the component itself held —
/// and elements that are not repeated untouched.
pub proof fn lemma_pass_guarantees(pre: Component, post: Component, n0: int)
    requires
        normalization_evidence(pre, post, n0),
    ensures
        post.id == pre.id,
        post.parent_element == pre.parent_element,
        tree_repeaters_empty(post.root_element),
        fully_normalized(post.root_element),
        synthesized_back_refs_ok(post.root_element),
        synth_comp_ids_in(post.root_element, n0, n0 + ids_used(pre.root_element)),
        comp_ids_at_most(pre.root_element, n0 - 1),
        pre.id < n0,
        non_repeated_untouched(pre.root_element, post.root_element),
        post.root_element.enclosing_component == pre.root_element.enclosing_component,
{
    lemma_no_residual_repetition(pre.root_element, post.root_element, None, n0);
    lemma_recursive_coverage(pre.root_element, post.root_element, None, n0);
    lemma_back_reference_correctness(pre.root_element, post.root_element, None, n0);
    lemma_synthesized_ids_fresh(pre.root_element, post.root_element, None, n0);
    lemma_non_repeated_untouched(pre.root_element, post.root_element, n0);
}

/// No element of the tree rooted at `e` is repeated.
pub open spec fn no_repeaters(e: Element) -> bool
    decreases e,
{
    &&& e.repeated is None
    &&& forall|i: int| 0 <= i < e.children@.len() ==> no_repeaters(#[trigger] e.children@[i])
}

/// On a repeater-free tree, normalization under a rewiring is exactly the
/// rewiring: every field of every element other than the enclosing
/// component reference comes through unchanged.
pub proof fn lemma_repeater_free_only_rewired(pre: Element, post: Element, cid: u64, n0: int)
    requires
        normalized_from(pre, post, Some(cid), n0),
        no_repeaters(pre),
    ensures
        enclosing_rewired(pre, post, cid),
    decreases pre,
{
    lemma_repeater_free_only_rewired_seq(pre.children@, post.children@, cid, n0);
}

/// Forest version of `lemma_repeater_free_only_rewired`.
pub proof fn lemma_repeater_free_only_rewired_seq(
    pre: Seq<Element>,
    post: Seq<Element>,
    cid: u64,
    n0: int,
)
    requires
        children_normalized_from(pre, post, Some(cid), n0),
        forall|i: int| 0 <= i < pre.len() ==> no_repeaters(#[trigger] pre[i]),
    ensures
        enclosing_rewired_seq(pre, post, cid),
    decreases pre,
{
    if pre.len() > 0 {
        lemma_repeater_free_only_rewired(pre[0], post[0], cid, n0);
        assert forall|i: int| 0 <= i < pre.drop_first().len() implies no_repeaters(
            #[trigger] pre.drop_first()[i],
        ) by {
            assert(pre.drop_first()[i] == pre[i + 1]);
        }
        lemma_repeater_free_only_rewired_seq(
            pre.drop_first(),
            post.drop_first(),
            cid,
            n0 + ids_used(pre[0]),
        );
        assert forall|i: int| 0 <= i < pre.len() implies enclosing_rewired(
            #[trigger] pre[i],
            post[i],
            cid,
        ) by {
            if i > 0 {
                assert(pre[i] == pre.drop_first()[i - 1]);
                assert(post[i] == post.drop_first()[i - 1]);
            }
        }
    }
}

/// When no further repeater hides among a repeated element's children, the
/// relocated children are, element for element and field for field, the
/// original ones — only their enclosing component reference now names the
/// synthesized component.
pub proof fn lemma_content_preserved_exactly(pre: Element, post: Element, enc: Option<u64>, n0: int)
    requires
        normalized_from(pre, post, enc, n0),
        pre.repeated is Some,
        forall|i: int| 0 <= i < pre.children@.len() ==> no_repeaters(#[trigger] pre.children@[i]),
    ensures
        match post.base_type {
            Type::Component(c) => enclosing_rewired_seq(
                pre.children@,
                c.root_element.children@,
                c.id,
            ),
            _ => false,
        },
{
    match post.base_type {
        Type::Component(c) => {
            lemma_repeater_free_only_rewired_seq(
                pre.children@,
                c.root_element.children@,
                c.id,
                n0 + 1,
            );
        },
        _ => {},
    }
}

} // verus!
