//! The render traversal: which nodes a frame paints, in which order, and
//! under which ancestors.
//!
//! A transform is expressed relative to the parent and an opacity multiplies
//! that of the parent, so what a node is painted with is accumulated along
//! the chain from the root down to the node. The traversal hands that chain on
//! with each node; the paint backend composes the transforms and multiplies
//! the opacities of the nodes on it.

use vstd::prelude::*;
use crate::geometry::Area;
use crate::tree::{
    copy_chain, depth_at, is_ancestor_or_self, is_chain_to, is_paint_order, lemma_ancestor_unique,
    well_formed, Node, NodeTree,
};

verus! {

/// One visit of the traversal.
#[derive(Debug, PartialEq, Eq)]
pub struct RenderItem {
    /// The position of the node in document order.
    pub position: usize,
    /// The identity of the node.
    pub node_id: u64,
    /// The area of the node.
    pub area: Area,
    /// The positions of the nodes from the root down to this node, this node
    /// last: the nodes whose transforms and opacities apply to it, outermost
    /// first.
    pub chain: Vec<usize>,
    /// Whether the debug wireframe is drawn over the node.
    pub wireframe: bool,
}

/// `item` is the visit of the node at `i` while `hovered` is the node that the
/// debug overlay follows.
pub open spec fn is_visit_of(nodes: Seq<Node>, i: int, hovered: Option<u64>, item: RenderItem) -> bool {
    &&& item.position == i
    &&& item.node_id == nodes[i].id
    &&& item.area == nodes[i].area
    &&& is_chain_to(nodes, i, item.chain@)
    &&& item.wireframe == (hovered == Some(nodes[i].id))
}

/// The positions that a list of visits goes through.
pub open spec fn positions(items: Seq<RenderItem>) -> Seq<usize> {
    Seq::new(items.len(), |k: int| items[k].position)
}

/// Walks the tree for one frame. Every node is visited once, in paint order:
/// by layer, lowest first, and in document order within a layer. Each visit
/// carries the chain of nodes from the root to the node, and asks for the
/// wireframe exactly where the node is the hovered one.
pub fn process_render(tree: &NodeTree, hovered: Option<u64>) -> (items: Vec<RenderItem>)
    ensures
        is_paint_order(tree@, positions(items@)),
        forall|k: int|
            0 <= k < items.len() ==> is_visit_of(
                tree@,
                (#[trigger] items[k]).position as int,
                hovered,
                items[k],
            ),
{
    let chains: Vec<Vec<usize>> = tree.chains();
    let order: Vec<usize> = tree.paint_order();
    let mut items: Vec<RenderItem> = Vec::new();
    let mut k: usize = 0;
    while k < order.len()
        invariant
            k <= order.len(),
            is_paint_order(tree@, order@),
            chains.len() == tree@.len(),
            forall|i: int| 0 <= i < chains.len() ==> is_chain_to(tree@, i, #[trigger] chains[i]@),
            items.len() == k,
            forall|j: int| 0 <= j < k ==> (#[trigger] items[j]).position == order[j],
            forall|j: int|
                0 <= j < k ==> is_visit_of(
                    tree@,
                    (#[trigger] items[j]).position as int,
                    hovered,
                    items[j],
                ),
        decreases order.len() - k,
    {
        let position: usize = order[k];
        assert(order[k as int] < tree@.len());
        let node: Node = tree.node(position);
        let wireframe: bool = match hovered {
            Some(id) => id == node.id,
            None => false,
        };
        let item = RenderItem {
            position,
            node_id: node.id,
            area: node.area,
            chain: copy_chain(&chains[position]),
            wireframe,
        };
        items.push(item);
        k += 1;
    }
    assert(positions(items@) =~= order@);
    items
}

/// The chain to a node holds the node and its ancestors and no other node,
/// each once, the root first and the node last. So what is accumulated along
/// the chain is accumulated over the node and all its ancestors, from the
/// outermost inwards.
pub proof fn lemma_chain_is_ancestry(nodes: Seq<Node>, i: int, chain: Seq<usize>)
    requires
        well_formed(nodes),
        is_chain_to(nodes, i, chain),
    ensures
        forall|a: int|
            is_ancestor_or_self(nodes, a, i) <==> (0 <= #[trigger] depth_at(nodes, a) < chain.len()
                && 0 <= a < nodes.len() && chain[depth_at(nodes, a)] == a),
        forall|j: int, k: int| 0 <= j < k < chain.len() ==> #[trigger] chain[j] < #[trigger] chain[k],
        chain[0] == 0,
        chain.last() == i,
{
    assert forall|a: int| is_ancestor_or_self(nodes, a, i) implies (0 <= #[trigger] depth_at(
        nodes,
        a,
    ) < chain.len() && 0 <= a < nodes.len() && chain[depth_at(nodes, a)] == a) by {
        if a < i {
            assert(depth_at(nodes, i) > depth_at(nodes, a));
        }
        let d = depth_at(nodes, a);
        assert(is_ancestor_or_self(nodes, chain[d] as int, i));
        lemma_ancestor_unique(nodes, a, chain[d] as int, i);
    }
    assert forall|a: int|
        (0 <= #[trigger] depth_at(nodes, a) < chain.len() && 0 <= a < nodes.len() && chain[depth_at(
            nodes,
            a,
        )] == a) implies is_ancestor_or_self(nodes, a, i) by {
        let d = depth_at(nodes, a);
        assert(is_ancestor_or_self(nodes, chain[d] as int, i));
    }
    assert forall|j: int, k: int| 0 <= j < k < chain.len() implies #[trigger] chain[j]
        < #[trigger] chain[k] by {
        let a = chain[j] as int;
        let b = chain[k] as int;
        assert(is_ancestor_or_self(nodes, a, i) && depth_at(nodes, a) == j);
        assert(is_ancestor_or_self(nodes, b, i) && depth_at(nodes, b) == k);
        if b < a {
            assert(depth_at(nodes, a) > depth_at(nodes, b));
        }
    }
    crate::tree::lemma_chain_ends(nodes, i, chain);
}

} // verus!
