//! The mutation applier: takes the changes that a poll of the virtual tree
//! produced, applies them to the persistent node tree, and says whether the
//! frame must be laid out and painted again.

use vstd::prelude::*;
use crate::tree::{
    accepts_child, position_of, with_accessibility_id, with_child, with_layer, without_subtree,
    Node, NodeTree,
};

verus! {

/// One change to the persistent node tree.
#[derive(Debug, Clone, Copy, PartialEq, Eq)]
pub enum Mutation {
    /// A new node: the root where `parent` is `None`, the last child of
    /// `parent` otherwise.
    AppendChild {
        parent: Option<u64>,
        id: u64,
        layer: i16,
        accessibility_id: Option<u64>,
        text_group: Option<u128>,
    },
    /// The node `id` leaves the tree with its descendants.
    Remove { id: u64 },
    /// The node `id` moves to another layer.
    SetLayer { id: u64, layer: i16 },
    /// The node `id` gets or loses its accessibility identity.
    SetAccessibilityId { id: u64, accessibility_id: Option<u64> },
    /// An attribute of the node `id` that its size or position depends on
    /// has changed.
    SetLayoutAttribute { id: u64 },
    /// The text of the node `id` has changed.
    SetText { id: u64 },
    /// An attribute of the node `id` that only its look depends on has
    /// changed.
    SetPaintAttribute { id: u64 },
}

/// Whether the change finds what it refers to in the tree. A change that
/// names a node that is gone is passed over.
pub open spec fn takes_effect(nodes: Seq<Node>, mutation: Mutation) -> bool {
    match mutation {
        Mutation::AppendChild { parent, .. } => accepts_child(nodes, parent),
        Mutation::Remove { id } => position_of(nodes, id) is Some,
        Mutation::SetLayer { id, .. } => position_of(nodes, id) is Some,
        Mutation::SetAccessibilityId { id, .. } => position_of(nodes, id) is Some,
        Mutation::SetLayoutAttribute { id } => position_of(nodes, id) is Some,
        Mutation::SetText { id } => position_of(nodes, id) is Some,
        Mutation::SetPaintAttribute { id } => position_of(nodes, id) is Some,
    }
}

/// Whether a change of this kind moves or resizes anything: all do but a
/// change of a paint attribute.
pub open spec fn affects_layout(mutation: Mutation) -> bool {
    !(mutation is SetPaintAttribute)
}

/// The tree after one change.
pub open spec fn tree_after(nodes: Seq<Node>, mutation: Mutation) -> Seq<Node> {
    match mutation {
        Mutation::AppendChild { parent, id, layer, accessibility_id, text_group } => with_child(
            nodes,
            parent,
            id,
            layer,
            accessibility_id,
            text_group,
        ),
        Mutation::Remove { id } => without_subtree(nodes, id),
        Mutation::SetLayer { id, layer } => with_layer(nodes, id, layer),
        Mutation::SetAccessibilityId { id, accessibility_id } => with_accessibility_id(
            nodes,
            id,
            accessibility_id,
        ),
        Mutation::SetLayoutAttribute { .. } => nodes,
        Mutation::SetText { .. } => nodes,
        Mutation::SetPaintAttribute { .. } => nodes,
    }
}

/// The tree after a batch of changes, applied in order, with the two flags
/// of the batch: whether a repaint is needed (some change took effect) and
/// whether a relayout is needed (some change that took effect affects the
/// layout).
pub open spec fn apply_all(nodes: Seq<Node>, mutations: Seq<Mutation>) -> (Seq<Node>, bool, bool)
    decreases mutations.len(),
{
    if mutations.len() == 0 {
        (nodes, false, false)
    } else {
        let before = apply_all(nodes, mutations.drop_last());
        let last = mutations.last();
        let effect = takes_effect(before.0, last);
        (tree_after(before.0, last), before.1 || effect, before.2 || (effect && affects_layout(last)))
    }
}

/// Applies one change to the tree. Returns whether it took effect.
pub fn apply_one(tree: &mut NodeTree, mutation: Mutation) -> (effect: bool)
    ensures
        final(tree)@ == tree_after(old(tree)@, mutation),
        effect == takes_effect(old(tree)@, mutation),
{
    match mutation {
        Mutation::AppendChild { parent, id, layer, accessibility_id, text_group } => {
            tree.append_child(parent, id, layer, accessibility_id, text_group)
        },
        Mutation::Remove { id } => tree.remove(id),
        Mutation::SetLayer { id, layer } => tree.set_layer(id, layer),
        Mutation::SetAccessibilityId { id, accessibility_id } => tree.set_accessibility_id(
            id,
            accessibility_id,
        ),
        Mutation::SetLayoutAttribute { id } => tree.index_of(id).is_some(),
        Mutation::SetText { id } => tree.index_of(id).is_some(),
        Mutation::SetPaintAttribute { id } => tree.index_of(id).is_some(),
    }
}

/// Whether a change of this kind moves or resizes anything.
pub fn changes_layout(mutation: &Mutation) -> (layout: bool)
    ensures
        layout == affects_layout(*mutation),
{
    match mutation {
        Mutation::SetPaintAttribute { .. } => false,
        _ => true,
    }
}

/// Applies a batch of changes to the tree, in order. Returns
/// `(needs_repaint, needs_relayout)`: a repaint is needed when any change took
/// effect, a relayout when one of those adds or removes a node, changes the
/// text or changes an attribute that the layout depends on.
pub fn apply(tree: &mut NodeTree, mutations: &Vec<Mutation>) -> (flags: (bool, bool))
    ensures
        final(tree)@ == apply_all(old(tree)@, mutations@).0,
        flags.0 == apply_all(old(tree)@, mutations@).1,
        flags.1 == apply_all(old(tree)@, mutations@).2,
{
    let ghost start = tree@;
    let mut repaint: bool = false;
    let mut relayout: bool = false;
    let mut i: usize = 0;
    while i < mutations.len()
        invariant
            i <= mutations.len(),
            (tree@, repaint, relayout) == apply_all(start, mutations@.take(i as int)),
        decreases mutations.len() - i,
    {
        let mutation: Mutation = mutations[i];
        proof {
            assert(mutations@.take(i + 1).drop_last() =~= mutations@.take(i as int));
            assert(mutations@.take(i + 1).last() == mutation);
        }
        let effect: bool = apply_one(tree, mutation);
        if effect {
            repaint = true;
            if changes_layout(&mutation) {
                relayout = true;
            }
        }
        i += 1;
    }
    assert(mutations@.take(mutations.len() as int) =~= mutations@);
    (repaint, relayout)
}

/// The empty batch leaves the tree as it is and asks for nothing.
pub proof fn lemma_empty_batch(nodes: Seq<Node>)
    ensures
        apply_all(nodes, Seq::<Mutation>::empty()) == (nodes, false, false),
{
}

/// A batch that asks for a relayout asks for a repaint too.
pub proof fn lemma_relayout_repaints(nodes: Seq<Node>, mutations: Seq<Mutation>)
    ensures
        apply_all(nodes, mutations).2 ==> apply_all(nodes, mutations).1,
    decreases mutations.len(),
{
    if mutations.len() > 0 {
        lemma_relayout_repaints(nodes, mutations.drop_last());
    }
}

/// A batch of one change asks for a repaint exactly when the change takes
/// effect, and for a relayout when it also affects the layout.
pub proof fn lemma_single_change(nodes: Seq<Node>, mutation: Mutation)
    ensures
        apply_all(nodes, seq![mutation]) == (
            tree_after(nodes, mutation),
            takes_effect(nodes, mutation),
            takes_effect(nodes, mutation) && affects_layout(mutation),
        ),
{
    let batch = seq![mutation];
    assert(batch.drop_last() =~= Seq::<Mutation>::empty());
    assert(batch.last() == mutation);
    assert(apply_all(nodes, batch.drop_last()) == (nodes, false, false));
}

} // verus!
