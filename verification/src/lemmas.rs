//! What holds of initialization and recomputation, whatever the tree.

use vstd::prelude::*;
use crate::dom::NodeKind;
use crate::layout::{LayoutData, Subtree};
use crate::styles::{default_display, empty_style, initial_layout_data, SpecifiedStyle};

verus! {

/// No attribute of the style but the display type is set.
pub open spec fn only_display_set(style: SpecifiedStyle) -> bool {
    &&& style.display_type is Some
    &&& style.background_color is None
    &&& style.font_size is None
    &&& style.height is None
    &&& style.text_color is None
    &&& style.width is None
}

/// Initialization leaves every node of the subtree with auxiliary data, so
/// the style of each can be read from then on.
pub proof fn lemma_initialization_is_complete(tree: Subtree)
    ensures
        tree.initialized().is_initialized(),
    decreases tree,
{
    let after = tree.initialized();
    assert forall|i: int| 0 <= i < after.children.len() implies (#[trigger] after.children[i])
        .is_initialized() by {
        lemma_initialization_is_complete(tree.children[i]);
    }
}

/// Initialization changes nothing in a subtree whose nodes all have their
/// auxiliary data, and attaches nothing.
pub proof fn lemma_initialized_is_unchanged(tree: Subtree)
    requires
        tree.is_initialized(),
    ensures
        tree.initialized() == tree,
        tree.created() == Seq::<LayoutData>::empty(),
    decreases tree, 1nat,
{
    let after = tree.initialized();
    assert forall|i: int| 0 <= i < tree.children.len() implies after.children[i]
        == tree.children[i] by {
        lemma_initialized_is_unchanged(tree.children[i]);
    }
    assert(after.children =~= tree.children);
    lemma_nothing_created_among(tree.children, tree.children.len());
}

/// Initialization attaches nothing in the first `n` of a run of subtrees
/// whose nodes all have their auxiliary data.
pub proof fn lemma_nothing_created_among(trees: Seq<Subtree>, n: nat)
    requires
        n <= trees.len(),
        forall|i: int| 0 <= i < n ==> (#[trigger] trees[i]).is_initialized(),
    ensures
        Subtree::created_among(trees, n) == Seq::<LayoutData>::empty(),
    decreases trees, n,
{
    if n > 0 {
        lemma_nothing_created_among(trees, (n - 1) as nat);
        lemma_initialized_is_unchanged(trees[n - 1]);
    }
}

/// Initializing a subtree a second time attaches nothing and changes
/// nothing.
pub proof fn lemma_initialization_is_idempotent(tree: Subtree)
    ensures
        tree.initialized().created() == Seq::<LayoutData>::empty(),
        tree.initialized().initialized() == tree.initialized(),
{
    lemma_initialization_is_complete(tree);
    lemma_initialized_is_unchanged(tree.initialized());
}

/// Initialization works on each node by itself: the node in any place of the
/// initialized subtree is the initialized node of that place. It has the kind
/// and as many children as before, keeps the auxiliary data that it had, and
/// has the initial data of its kind if it had none.
pub proof fn lemma_initialization_is_pointwise(tree: Subtree, path: Seq<int>)
    ensures
        tree.initialized().node_at(path) == match tree.node_at(path) {
            Some(node) => Some(node.initialized()),
            None => None,
        },
    decreases path.len(),
{
    if path.len() > 0 && 0 <= path[0] < tree.children.len() {
        lemma_initialization_is_pointwise(tree.children[path[0]], path.drop_first());
    }
}

/// A node that is initialized for the first time has, wherever it stands in
/// the subtree, a style in which the display type is the default of its kind
/// and nothing else is set, and it has no box.
pub proof fn lemma_first_style_has_only_display(tree: Subtree, path: Seq<int>)
    requires
        tree.node_at(path) matches Some(node) && node.aux is None,
    ensures
        tree.initialized().node_at(path) matches Some(node) && node.aux matches Some(data)
            && data.layout_box is None && data.specified_style == empty_style(node.kind)
            && data.specified_style.display_type == Some(default_display(node.kind))
            && only_display_set(data.specified_style),
{
    lemma_initialization_is_pointwise(tree, path);
}

/// One place of a recomputed subtree, seen by itself: if `path` leads to a
/// node of `before`, it leads to a node of `after` with the same kind and as
/// many children, whose data are what one match step makes of the data of
/// that node of `before`; and if it leads nowhere in `before`, it leads
/// nowhere in `after`.
pub open spec fn restyled_at(
    before: Subtree,
    after: Subtree,
    step: spec_fn(NodeKind, SpecifiedStyle, SpecifiedStyle) -> bool,
    path: Seq<int>,
) -> bool {
    match before.node_at(path) {
        Some(node) => {
            &&& after.node_at(path) matches Some(fresh)
            &&& fresh.kind == node.kind
            &&& fresh.children.len() == node.children.len()
            &&& match node.aux {
                Some(data) => fresh.aux matches Some(fresh_data) && data.restyled_to(
                    fresh_data,
                    node.kind,
                    step,
                ),
                None => fresh.aux is None,
            }
        },
        None => after.node_at(path) is None,
    }
}

/// Recomputation works on each node by itself: in every place of the
/// recomputed subtree stands the node that was there, with data that one
/// match step makes of its own. No other node bears on its style.
pub proof fn lemma_recomputation_is_pointwise(
    before: Subtree,
    after: Subtree,
    step: spec_fn(NodeKind, SpecifiedStyle, SpecifiedStyle) -> bool,
    path: Seq<int>,
)
    requires
        before.restyled_to(after, step),
    ensures
        restyled_at(before, after, step, path),
    decreases path.len(),
{
    if path.len() > 0 && 0 <= path[0] < before.children.len() {
        lemma_recomputation_is_pointwise(
            before.children[path[0]],
            after.children[path[0]],
            step,
            path.drop_first(),
        );
    }
}

/// The order of the match steps does not matter: whatever run leaves, in
/// every place, the node that was there with data that one match step makes
/// of its own, has recomputed the subtree.
pub proof fn lemma_pointwise_is_recomputation(
    before: Subtree,
    after: Subtree,
    step: spec_fn(NodeKind, SpecifiedStyle, SpecifiedStyle) -> bool,
)
    requires
        forall|path: Seq<int>| restyled_at(before, after, step, path),
    ensures
        before.restyled_to(after, step),
    decreases before,
{
    assert(restyled_at(before, after, step, Seq::<int>::empty()));
    assert forall|i: int| 0 <= i < before.children.len() implies (#[trigger] before.children[i])
        .restyled_to(after.children[i], step) by {
        assert forall|path: Seq<int>|
            restyled_at(before.children[i], after.children[i], step, path) by {
            let longer = seq![i] + path;
            assert(longer.drop_first() =~= path);
            assert(restyled_at(before, after, step, longer));
        }
        lemma_pointwise_is_recomputation(before.children[i], after.children[i], step);
    }
}

/// Recomputation leaves every node of an initialized subtree with its
/// auxiliary data.
pub proof fn lemma_recomputation_keeps_data(
    before: Subtree,
    after: Subtree,
    step: spec_fn(NodeKind, SpecifiedStyle, SpecifiedStyle) -> bool,
)
    requires
        before.is_initialized(),
        before.restyled_to(after, step),
    ensures
        after.is_initialized(),
    decreases before,
{
    assert forall|i: int| 0 <= i < after.children.len() implies (#[trigger] after.children[i])
        .is_initialized() by {
        assert(before.children[i].is_initialized());
        lemma_recomputation_keeps_data(before.children[i], after.children[i], step);
    }
}

/// Where a match step hands every style back as it got it, recomputation
/// changes nothing.
pub proof fn lemma_recomputation_without_change(
    before: Subtree,
    after: Subtree,
    step: spec_fn(NodeKind, SpecifiedStyle, SpecifiedStyle) -> bool,
)
    requires
        before.restyled_to(after, step),
        forall|kind: NodeKind, style: SpecifiedStyle, fresh: SpecifiedStyle|
            #[trigger] step(kind, style, fresh) ==> fresh == style,
    ensures
        after == before,
    decreases before,
{
    assert forall|i: int| 0 <= i < before.children.len() implies after.children[i]
        == before.children[i] by {
        lemma_recomputation_without_change(before.children[i], after.children[i], step);
    }
    assert(after.children =~= before.children);
}

/// A matcher that may be run on every kind of node and every style may be
/// run on every node of any subtree.
pub proof fn lemma_total_domain_accepts(
    tree: Subtree,
    domain: spec_fn(NodeKind, SpecifiedStyle) -> bool,
)
    requires
        forall|kind: NodeKind, style: SpecifiedStyle| #[trigger] domain(kind, style),
    ensures
        tree.accepted_by(domain),
    decreases tree,
{
    assert forall|i: int| 0 <= i < tree.children.len() implies (#[trigger] tree.children[i])
        .accepted_by(domain) by {
        lemma_total_domain_accepts(tree.children[i], domain);
    }
}

} // verus!
