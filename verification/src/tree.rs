//! The persistent node tree.
//!
//! The tree is kept as the list of its nodes in document order (a node comes
//! before its descendants, siblings in their order), each node with its
//! depth. The root is the first node and the only one of depth 0. The
//! ancestors of a node, the end of its subtree and the chain of nodes from the
//! root down to it are all read off the depths.

use vstd::prelude::*;
use crate::geometry::{Area, Point2D, Size2D};

verus! {

/// A node of the tree, with what the host reads of it.
#[derive(Debug, Clone, Copy, PartialEq, Eq)]
pub struct Node {
    /// The identity that the reconciler gave the node.
    pub id: u64,
    /// The number of proper ancestors.
    pub depth: usize,
    /// The layer the node paints in; a higher layer paints later.
    pub layer: i16,
    /// The area that the last layout gave the node.
    pub area: Area,
    /// The accessibility identity, where the node carries one.
    pub accessibility_id: Option<u64>,
    /// The group of text elements the node belongs to, if any.
    pub text_group: Option<u128>,
}

/// The depth of the node at `i`.
pub open spec fn depth_at(nodes: Seq<Node>, i: int) -> int {
    nodes[i].depth as int
}

/// The list is a tree in document order: the first node is the root, and
/// every later node is at most one level deeper than the node before it.
pub open spec fn well_formed(nodes: Seq<Node>) -> bool {
    &&& nodes.len() > 0 ==> depth_at(nodes, 0) == 0
    &&& forall|i: int|
        0 < i < nodes.len() ==> 1 <= #[trigger] depth_at(nodes, i) <= depth_at(nodes, i - 1) + 1
}

/// The node at `a` is the node at `i` or one of its ancestors: `i` lies in the
/// subtree that starts at `a`.
pub open spec fn is_ancestor_or_self(nodes: Seq<Node>, a: int, i: int) -> bool {
    &&& 0 <= a <= i < nodes.len()
    &&& forall|k: int| a < k <= i ==> #[trigger] depth_at(nodes, k) > depth_at(nodes, a)
}

/// The node at `a` is a proper ancestor of the node at `i`.
pub open spec fn is_ancestor(nodes: Seq<Node>, a: int, i: int) -> bool {
    a != i && is_ancestor_or_self(nodes, a, i)
}

/// `chain` is the chain of nodes from the root down to the node at `i`: one
/// node of each depth from 0 to the depth of `i`, each of them `i` or an
/// ancestor of `i`.
pub open spec fn is_chain_to(nodes: Seq<Node>, i: int, chain: Seq<usize>) -> bool {
    &&& 0 <= i < nodes.len()
    &&& chain.len() == depth_at(nodes, i) + 1
    &&& forall|k: int|
        0 <= k < chain.len() ==> is_ancestor_or_self(nodes, #[trigger] chain[k] as int, i)
            && depth_at(nodes, chain[k] as int) == k
}

/// In a tree, no node is deeper than its position in document order.
pub proof fn lemma_depth_bounded(nodes: Seq<Node>, i: int)
    requires
        well_formed(nodes),
        0 <= i < nodes.len(),
    ensures
        0 <= depth_at(nodes, i) <= i,
    decreases i,
{
    if i > 0 {
        lemma_depth_bounded(nodes, i - 1);
    }
}

/// The ancestors of a node are told apart by their depth: two of the same
/// depth are the same node.
pub proof fn lemma_ancestor_unique(nodes: Seq<Node>, a: int, b: int, i: int)
    requires
        is_ancestor_or_self(nodes, a, i),
        is_ancestor_or_self(nodes, b, i),
        depth_at(nodes, a) == depth_at(nodes, b),
    ensures
        a == b,
{
    if a < b {
        assert(depth_at(nodes, b) > depth_at(nodes, a));
    } else if b < a {
        assert(depth_at(nodes, a) > depth_at(nodes, b));
    }
}

/// There is one chain from the root to a node.
pub proof fn lemma_chain_unique(nodes: Seq<Node>, i: int, c1: Seq<usize>, c2: Seq<usize>)
    requires
        is_chain_to(nodes, i, c1),
        is_chain_to(nodes, i, c2),
    ensures
        c1 == c2,
{
    assert forall|k: int| 0 <= k < c1.len() implies c1[k] == c2[k] by {
        lemma_ancestor_unique(nodes, c1[k] as int, c2[k] as int, i);
    }
    assert(c1 =~= c2);
}

/// The chain to a node ends in the node itself and starts at the root.
pub proof fn lemma_chain_ends(nodes: Seq<Node>, i: int, chain: Seq<usize>)
    requires
        well_formed(nodes),
        is_chain_to(nodes, i, chain),
    ensures
        chain.last() == i,
        chain[0] == 0,
{
    let last = chain.last() as int;
    assert(is_ancestor_or_self(nodes, last, i));
    if last < i {
        assert(depth_at(nodes, i) > depth_at(nodes, last));
    }
    let first = chain[0] as int;
    assert(is_ancestor_or_self(nodes, first, i));
    if first > 0 {
        assert(depth_at(nodes, first) >= 1);
    }
}

/// The node at `a` paints before the node at `b`: it is in a lower layer, or in
/// the same layer and earlier in document order.
pub open spec fn paints_before(nodes: Seq<Node>, a: int, b: int) -> bool {
    nodes[a].layer < nodes[b].layer || (nodes[a].layer == nodes[b].layer && a < b)
}

/// The position `i` is one of the entries of `order`.
pub open spec fn occurs_in(order: Seq<usize>, i: int) -> bool {
    exists|j: int| 0 <= j < order.len() && #[trigger] order[j] == i
}

/// `order` lists every node of the tree once, each before all the nodes that
/// paint after it.
pub open spec fn is_paint_order(nodes: Seq<Node>, order: Seq<usize>) -> bool {
    &&& order.len() == nodes.len()
    &&& forall|j: int| 0 <= j < order.len() ==> #[trigger] order[j] < nodes.len()
    &&& forall|j: int, k: int|
        0 <= j < k < order.len() ==> paints_before(
            nodes,
            #[trigger] order[j] as int,
            #[trigger] order[k] as int,
        )
    &&& forall|i: int| 0 <= i < nodes.len() ==> #[trigger] occurs_in(order, i)
}

/// The node at `i` is the first one with the identity `id`.
pub open spec fn is_first_with_id(nodes: Seq<Node>, id: u64, i: int) -> bool {
    &&& 0 <= i < nodes.len()
    &&& nodes[i].id == id
    &&& forall|j: int| 0 <= j < i ==> (#[trigger] nodes[j]).id != id
}

/// The position of the first node with the identity `id`, if there is one.
pub open spec fn position_of(nodes: Seq<Node>, id: u64) -> Option<int> {
    if exists|i: int| is_first_with_id(nodes, id, i) {
        Some(choose|i: int| is_first_with_id(nodes, id, i))
    } else {
        None
    }
}

/// `end` is where the subtree of the node at `i` ends: the nodes from `i` up
/// to `end`, excluded, are `i` and its descendants.
pub open spec fn is_subtree_end(nodes: Seq<Node>, i: int, end: int) -> bool {
    &&& 0 <= i < end <= nodes.len()
    &&& forall|k: int| i < k < end ==> #[trigger] depth_at(nodes, k) > depth_at(nodes, i)
    &&& end < nodes.len() ==> depth_at(nodes, end) <= depth_at(nodes, i)
}

/// The end of the subtree of the node at `i`.
pub open spec fn subtree_end(nodes: Seq<Node>, i: int) -> int {
    choose|end: int| is_subtree_end(nodes, i, end)
}

/// A node that no layout has measured yet.
pub open spec fn fresh_node(
    id: u64,
    depth: int,
    layer: i16,
    accessibility_id: Option<u64>,
    text_group: Option<u128>,
) -> Node {
    Node {
        id,
        depth: depth as usize,
        layer,
        area: Area { origin: Point2D { x: 0, y: 0 }, size: Size2D { width: 0, height: 0 } },
        accessibility_id,
        text_group,
    }
}

/// The tree after a node was added. With no parent named, the node becomes
/// the root of an empty tree, and a tree that has a root stays as it is. With
/// a parent named, the node becomes its last child; where no node has that
/// identity, the tree stays as it is.
pub open spec fn with_child(
    nodes: Seq<Node>,
    parent: Option<u64>,
    id: u64,
    layer: i16,
    accessibility_id: Option<u64>,
    text_group: Option<u128>,
) -> Seq<Node> {
    match parent {
        None => if nodes.len() == 0 {
            seq![fresh_node(id, 0, layer, accessibility_id, text_group)]
        } else {
            nodes
        },
        Some(parent_id) => match position_of(nodes, parent_id) {
            None => nodes,
            Some(p) => nodes.insert(
                subtree_end(nodes, p),
                fresh_node(id, depth_at(nodes, p) + 1, layer, accessibility_id, text_group),
            ),
        },
    }
}

/// Whether adding a node under `parent` changes the tree.
pub open spec fn accepts_child(nodes: Seq<Node>, parent: Option<u64>) -> bool {
    match parent {
        None => nodes.len() == 0,
        Some(parent_id) => position_of(nodes, parent_id) is Some,
    }
}

/// The tree without the first node of identity `id` and its descendants; the
/// tree itself where no node has that identity.
pub open spec fn without_subtree(nodes: Seq<Node>, id: u64) -> Seq<Node> {
    match position_of(nodes, id) {
        None => nodes,
        Some(i) => nodes.subrange(0, i) + nodes.subrange(
            subtree_end(nodes, i),
            nodes.len() as int,
        ),
    }
}

/// The tree with the layer of the first node of identity `id` set to `layer`.
pub open spec fn with_layer(nodes: Seq<Node>, id: u64, layer: i16) -> Seq<Node> {
    match position_of(nodes, id) {
        None => nodes,
        Some(i) => nodes.update(i, Node { layer, ..nodes[i] }),
    }
}

/// The tree with the accessibility identity of the first node of identity
/// `id` set to `accessibility_id`.
pub open spec fn with_accessibility_id(
    nodes: Seq<Node>,
    id: u64,
    accessibility_id: Option<u64>,
) -> Seq<Node> {
    match position_of(nodes, id) {
        None => nodes,
        Some(i) => nodes.update(i, Node { accessibility_id, ..nodes[i] }),
    }
}

/// The tree after a layout: each node that `areas` has an entry for, by its
/// position in document order, gets that area.
pub open spec fn with_areas(nodes: Seq<Node>, areas: Seq<Area>) -> Seq<Node> {
    Seq::new(
        nodes.len(),
        |i: int|
            if i < areas.len() {
                Node { area: areas[i], ..nodes[i] }
            } else {
                nodes[i]
            },
    )
}

/// A position is the first of its identity at most once.
pub proof fn lemma_first_with_id_unique(nodes: Seq<Node>, id: u64, i: int, j: int)
    requires
        is_first_with_id(nodes, id, i),
        is_first_with_id(nodes, id, j),
    ensures
        i == j,
{
}

/// Where the first node of identity `id` is at `i`, `position_of` gives `i`.
pub proof fn lemma_position_found(nodes: Seq<Node>, id: u64, i: int)
    requires
        is_first_with_id(nodes, id, i),
    ensures
        position_of(nodes, id) == Some(i),
{
    let j = choose|j: int| is_first_with_id(nodes, id, j);
    lemma_first_with_id_unique(nodes, id, i, j);
}

/// A subtree has one end.
pub proof fn lemma_subtree_end_unique(nodes: Seq<Node>, i: int, e1: int, e2: int)
    requires
        is_subtree_end(nodes, i, e1),
        is_subtree_end(nodes, i, e2),
    ensures
        e1 == e2,
{
    if e1 < e2 {
        assert(depth_at(nodes, e1) > depth_at(nodes, i));
    } else if e2 < e1 {
        assert(depth_at(nodes, e2) > depth_at(nodes, i));
    }
}

/// A list with the depths of a tree is a tree.
pub proof fn lemma_same_depths(a: Seq<Node>, b: Seq<Node>)
    requires
        well_formed(a),
        a.len() == b.len(),
        forall|i: int| 0 <= i < a.len() ==> #[trigger] depth_at(b, i) == depth_at(a, i),
    ensures
        well_formed(b),
{
    assert forall|i: int| 0 < i < b.len() implies 1 <= #[trigger] depth_at(b, i) <= depth_at(
        b,
        i - 1,
    ) + 1 by {
        assert(1 <= depth_at(a, i) <= depth_at(a, i - 1) + 1);
    }
}

/// Adding a last child to the node at `p` leaves a tree.
pub proof fn lemma_insert_child(nodes: Seq<Node>, p: int, end: int, child: Node)
    requires
        well_formed(nodes),
        is_subtree_end(nodes, p, end),
        child.depth == depth_at(nodes, p) + 1,
    ensures
        well_formed(nodes.insert(end, child)),
{
    let after = nodes.insert(end, child);
    assert(after.len() == nodes.len() + 1);
    assert(forall|j: int| 0 <= j < end ==> after[j] == nodes[j]);
    assert(after[end] == child);
    assert(forall|j: int| end < j < after.len() ==> after[j] == nodes[j - 1]);
    assert forall|i: int| 0 < i < after.len() implies 1 <= #[trigger] depth_at(after, i)
        <= depth_at(after, i - 1) + 1 by {
        if i < end {
            assert(1 <= depth_at(nodes, i) <= depth_at(nodes, i - 1) + 1);
        } else if i == end {
            if end - 1 > p {
                assert(depth_at(nodes, end - 1) > depth_at(nodes, p));
            }
        } else if i == end + 1 {
            assert(1 <= depth_at(nodes, end) <= depth_at(nodes, end - 1) + 1);
        } else {
            assert(1 <= depth_at(nodes, i - 1) <= depth_at(nodes, i - 2) + 1);
        }
    }
}

/// Taking a subtree out leaves a tree.
pub proof fn lemma_remove_subtree(nodes: Seq<Node>, i: int, end: int)
    requires
        well_formed(nodes),
        is_subtree_end(nodes, i, end),
    ensures
        well_formed(nodes.subrange(0, i) + nodes.subrange(end, nodes.len() as int)),
{
    let after = nodes.subrange(0, i) + nodes.subrange(end, nodes.len() as int);
    assert(forall|j: int| 0 <= j < i ==> after[j] == nodes[j]);
    assert(forall|j: int| i <= j < after.len() ==> after[j] == nodes[j - i + end]);
    if i == 0 && end < nodes.len() {
        assert(1 <= depth_at(nodes, end));
    }
    assert forall|j: int| 0 < j < after.len() implies 1 <= #[trigger] depth_at(after, j)
        <= depth_at(after, j - 1) + 1 by {
        if j < i {
            assert(1 <= depth_at(nodes, j) <= depth_at(nodes, j - 1) + 1);
        } else if j == i {
            assert(1 <= depth_at(nodes, end) <= depth_at(nodes, end - 1) + 1);
            assert(1 <= depth_at(nodes, i) <= depth_at(nodes, i - 1) + 1);
        } else {
            let m = j - i + end;
            assert(1 <= depth_at(nodes, m) <= depth_at(nodes, m - 1) + 1);
        }
    }
}

/// The persistent node tree: its nodes in document order.
pub struct NodeTree {
    nodes: Vec<Node>,
}

impl View for NodeTree {
    type V = Seq<Node>;

    closed spec fn view(&self) -> Seq<Node> {
        self.nodes@
    }
}

impl NodeTree {
    #[verifier::type_invariant]
    spec fn valid(self) -> bool {
        well_formed(self.nodes@)
    }

    /// The tree without nodes.
    pub fn new() -> (tree: NodeTree)
        ensures
            tree@ == Seq::<Node>::empty(),
    {
        NodeTree { nodes: Vec::new() }
    }

    /// The number of nodes. Every tree is well formed, and a caller learns
    /// it here.
    pub fn len(&self) -> (n: usize)
        ensures
            n == self@.len(),
            well_formed(self@),
    {
        proof {
            use_type_invariant(self);
        }
        self.nodes.len()
    }

    /// The node at position `index` in document order.
    pub fn node(&self, index: usize) -> (node: Node)
        requires
            index < self@.len(),
        ensures
            node == self@[index as int],
    {
        self.nodes[index]
    }

    /// The node at position `index` in document order, if there is one.
    pub fn get(&self, index: usize) -> (node: Option<Node>)
        ensures
            node == if index < self@.len() {
                Some(self@[index as int])
            } else {
                None
            },
    {
        if index < self.nodes.len() {
            Some(self.nodes[index])
        } else {
            None
        }
    }

    /// The position of the first node with the identity `id`.
    pub fn index_of(&self, id: u64) -> (found: Option<usize>)
        ensures
            match found {
                Some(i) => position_of(self@, id) == Some(i as int),
                None => position_of(self@, id) is None,
            },
            found matches Some(i) ==> is_first_with_id(self@, id, i as int),
    {
        let mut i: usize = 0;
        while i < self.nodes.len()
            invariant
                i <= self.nodes.len(),
                forall|j: int| 0 <= j < i ==> (#[trigger] self.nodes@[j]).id != id,
            decreases self.nodes.len() - i,
        {
            if self.nodes[i].id == id {
                proof {
                    lemma_position_found(self.nodes@, id, i as int);
                }
                return Some(i);
            }
            i += 1;
        }
        assert(forall|k: int| !is_first_with_id(self.nodes@, id, k));
        None
    }

    /// Where the subtree of the node at `index` ends.
    pub fn end_of_subtree(&self, index: usize) -> (end: usize)
        requires
            index < self@.len(),
        ensures
            is_subtree_end(self@, index as int, end as int),
            end == subtree_end(self@, index as int),
    {
        let len: usize = self.nodes.len();
        let depth: usize = self.nodes[index].depth;
        assert(index < len);
        let mut end: usize = index + 1;
        while end < self.nodes.len() && self.nodes[end].depth > depth
            invariant
                index < end <= self.nodes.len(),
                depth == depth_at(self.nodes@, index as int),
                forall|k: int| index < k < end ==> #[trigger] depth_at(self.nodes@, k) > depth,
            decreases self.nodes.len() - end,
        {
            end += 1;
        }
        proof {
            let chosen = subtree_end(self.nodes@, index as int);
            assert(is_subtree_end(self.nodes@, index as int, end as int));
            lemma_subtree_end_unique(self.nodes@, index as int, end as int, chosen);
        }
        end
    }

    /// Adds a node: as the root of an empty tree where `parent` is `None`, as
    /// the last child of the first node of identity `parent` otherwise. A
    /// parent that is not in the tree, or a second root, leaves the tree as it
    /// is. Returns whether the node was added.
    pub fn append_child(
        &mut self,
        parent: Option<u64>,
        id: u64,
        layer: i16,
        accessibility_id: Option<u64>,
        text_group: Option<u128>,
    ) -> (added: bool)
        ensures
            final(self)@ == with_child(old(self)@, parent, id, layer, accessibility_id, text_group),
            added == accepts_child(old(self)@, parent),
    {
        proof {
            use_type_invariant(&*self);
        }
        let area = Area { origin: Point2D { x: 0, y: 0 }, size: Size2D { width: 0, height: 0 } };
        match parent {
            None => {
                if self.nodes.len() == 0 {
                    let node = Node { id, depth: 0, layer, area, accessibility_id, text_group };
                    let mut nodes: Vec<Node> = Vec::new();
                    nodes.push(node);
                    assert(nodes@ =~= seq![node]);
                    self.nodes = nodes;
                    true
                } else {
                    false
                }
            },
            Some(parent_id) => {
                match self.index_of(parent_id) {
                    None => false,
                    Some(p) => {
                        let end: usize = self.end_of_subtree(p);
                        proof {
                            lemma_depth_bounded(self.nodes@, p as int);
                        }
                        let depth: usize = self.nodes[p].depth + 1;
                        let node = Node { id, depth, layer, area, accessibility_id, text_group };
                        proof {
                            lemma_insert_child(self.nodes@, p as int, end as int, node);
                        }
                        let mut nodes: Vec<Node> = copy_nodes(&self.nodes);
                        nodes.insert(end, node);
                        self.nodes = nodes;
                        true
                    },
                }
            },
        }
    }

    /// Removes the first node of identity `id` with its descendants. Returns
    /// whether there was such a node.
    pub fn remove(&mut self, id: u64) -> (removed: bool)
        ensures
            final(self)@ == without_subtree(old(self)@, id),
            removed == (position_of(old(self)@, id) is Some),
    {
        proof {
            use_type_invariant(&*self);
        }
        match self.index_of(id) {
            None => false,
            Some(first) => {
                let end: usize = self.end_of_subtree(first);
                let ghost before = self.nodes@;
                let mut kept: Vec<Node> = Vec::new();
                let mut i: usize = 0;
                while i < first
                    invariant
                        i <= first < self.nodes.len(),
                        self.nodes@ == before,
                        kept@ == before.subrange(0, i as int),
                    decreases first - i,
                {
                    kept.push(self.nodes[i]);
                    assert(before.subrange(0, i + 1) =~= before.subrange(0, i as int).push(
                        before[i as int],
                    ));
                    i += 1;
                }
                let mut j: usize = end;
                while j < self.nodes.len()
                    invariant
                        end <= j <= self.nodes.len(),
                        self.nodes@ == before,
                        kept@ == before.subrange(0, first as int) + before.subrange(
                            end as int,
                            j as int,
                        ),
                    decreases self.nodes.len() - j,
                {
                    kept.push(self.nodes[j]);
                    assert(before.subrange(0, first as int) + before.subrange(end as int, j + 1)
                        =~= (before.subrange(0, first as int) + before.subrange(
                        end as int,
                        j as int,
                    )).push(before[j as int]));
                    j += 1;
                }
                proof {
                    lemma_remove_subtree(before, first as int, end as int);
                }
                self.nodes = kept;
                true
            },
        }
    }

    /// Sets the layer of the first node of identity `id`. Returns whether
    /// there was such a node.
    pub fn set_layer(&mut self, id: u64, layer: i16) -> (changed: bool)
        ensures
            final(self)@ == with_layer(old(self)@, id, layer),
            changed == (position_of(old(self)@, id) is Some),
    {
        proof {
            use_type_invariant(&*self);
        }
        match self.index_of(id) {
            None => false,
            Some(i) => {
                let current: Node = self.nodes[i];
                let node = Node { layer, ..current };
                proof {
                    lemma_same_depths(self.nodes@, self.nodes@.update(i as int, node));
                }
                let mut nodes: Vec<Node> = copy_nodes(&self.nodes);
                nodes.set(i, node);
                self.nodes = nodes;
                true
            },
        }
    }

    /// Sets the accessibility identity of the first node of identity `id`.
    /// Returns whether there was such a node.
    pub fn set_accessibility_id(&mut self, id: u64, accessibility_id: Option<u64>) -> (changed:
        bool)
        ensures
            final(self)@ == with_accessibility_id(old(self)@, id, accessibility_id),
            changed == (position_of(old(self)@, id) is Some),
    {
        proof {
            use_type_invariant(&*self);
        }
        match self.index_of(id) {
            None => false,
            Some(i) => {
                let current: Node = self.nodes[i];
                let node = Node { accessibility_id, ..current };
                proof {
                    lemma_same_depths(self.nodes@, self.nodes@.update(i as int, node));
                }
                let mut nodes: Vec<Node> = copy_nodes(&self.nodes);
                nodes.set(i, node);
                self.nodes = nodes;
                true
            },
        }
    }

    /// Takes over the areas of a layout: `areas` holds one area for each node,
    /// by position in document order. Nodes beyond the end of `areas` keep
    /// theirs.
    pub fn set_areas(&mut self, areas: &Vec<Area>)
        ensures
            final(self)@ == with_areas(old(self)@, areas@),
    {
        proof {
            use_type_invariant(&*self);
        }
        let mut nodes: Vec<Node> = Vec::new();
        let mut i: usize = 0;
        while i < self.nodes.len()
            invariant
                i <= self.nodes.len(),
                nodes.len() == i,
                forall|k: int| 0 <= k < i ==> #[trigger] nodes@[k] == with_areas(self.nodes@, areas@)[k],
            decreases self.nodes.len() - i,
        {
            let current: Node = self.nodes[i];
            if i < areas.len() {
                nodes.push(Node { area: areas[i], ..current });
            } else {
                nodes.push(current);
            }
            i += 1;
        }
        proof {
            assert(nodes@ =~= with_areas(self.nodes@, areas@));
            lemma_same_depths(self.nodes@, nodes@);
        }
        self.nodes = nodes;
    }

    /// For every node, the chain of nodes from the root down to it, as
    /// positions in document order. One walk over the tree keeps the chain to
    /// the current node as a stack: entering a node cuts the stack back to the
    /// node's depth and pushes the node.
    pub fn chains(&self) -> (chains: Vec<Vec<usize>>)
        ensures
            chains.len() == self@.len(),
            forall|i: int| 0 <= i < chains.len() ==> is_chain_to(self@, i, #[trigger] chains[i]@),
    {
        proof {
            use_type_invariant(self);
        }
        let mut chains: Vec<Vec<usize>> = Vec::new();
        let mut stack: Vec<usize> = Vec::new();
        let mut i: usize = 0;
        while i < self.nodes.len()
            invariant
                i <= self.nodes.len(),
                well_formed(self.nodes@),
                chains.len() == i,
                forall|j: int| 0 <= j < i ==> is_chain_to(self.nodes@, j, #[trigger] chains[j]@),
                i == 0 ==> stack.len() == 0,
                i > 0 ==> is_chain_to(self.nodes@, i - 1, stack@),
            decreases self.nodes.len() - i,
        {
            let depth: usize = self.nodes[i].depth;
            let ghost before = stack@;
            proof {
                if i > 0 {
                    assert(depth_at(self.nodes@, i as int) <= depth_at(self.nodes@, i - 1) + 1);
                } else {
                    assert(depth_at(self.nodes@, 0) == 0);
                }
            }
            stack.truncate(depth);
            stack.push(i);
            proof {
                let nodes = self.nodes@;
                assert(stack@.len() == depth + 1);
                assert forall|k: int| 0 <= k < stack@.len() implies is_ancestor_or_self(
                    nodes,
                    #[trigger] stack@[k] as int,
                    i as int,
                ) && depth_at(nodes, stack@[k] as int) == k by {
                    if k < depth {
                        let a = before[k] as int;
                        assert(stack@[k] == before[k]);
                        assert(is_ancestor_or_self(nodes, a, i - 1));
                        assert(depth_at(nodes, i as int) == depth);
                        assert forall|m: int| a < m <= i implies #[trigger] depth_at(nodes, m)
                            > depth_at(nodes, a) by {
                            if m < i {
                                assert(depth_at(nodes, m) > depth_at(nodes, a));
                            }
                        }
                    } else {
                        assert(stack@[k] == i);
                    }
                }
            }
            let chain: Vec<usize> = copy_chain(&stack);
            chains.push(chain);
            i += 1;
        }
        chains
    }

    /// The positions of the nodes in the order in which they paint: by layer,
    /// lowest first, and within a layer in document order.
    pub fn paint_order(&self) -> (order: Vec<usize>)
        ensures
            is_paint_order(self@, order@),
    {
        let mut order: Vec<usize> = Vec::new();
        let mut i: usize = 0;
        while i < self.nodes.len()
            invariant
                i <= self.nodes.len(),
                order.len() == i,
                forall|j: int| 0 <= j < order.len() ==> #[trigger] order[j] < i,
                forall|j: int, k: int|
                    0 <= j < k < order.len() ==> paints_before(
                        self.nodes@,
                        #[trigger] order[j] as int,
                        #[trigger] order[k] as int,
                    ),
                forall|m: int| 0 <= m < i ==> #[trigger] occurs_in(order@, m),
            decreases self.nodes.len() - i,
        {
            let layer: i16 = self.nodes[i].layer;
            let mut at: usize = 0;
            while at < order.len() && self.nodes[order[at]].layer <= layer
                invariant
                    i < self.nodes.len(),
                    order.len() == i,
                    at <= order.len(),
                    forall|j: int| 0 <= j < order.len() ==> #[trigger] order[j] < i,
                    forall|j: int| 0 <= j < at ==> self.nodes@[#[trigger] order[j] as int].layer <= layer,
                decreases order.len() - at,
            {
                at += 1;
            }
            let ghost before = order@;
            order.insert(at, i);
            proof {
                let nodes = self.nodes@;
                let after = order@;
                assert(after.len() == before.len() + 1);
                assert(forall|j: int| 0 <= j < at ==> after[j] == before[j]);
                assert(after[at as int] == i);
                assert(forall|j: int| at < j < after.len() ==> after[j] == before[j - 1]);
                assert forall|j: int, k: int| 0 <= j < k < after.len() implies paints_before(
                    nodes,
                    #[trigger] after[j] as int,
                    #[trigger] after[k] as int,
                ) by {
                    if k < at {
                    } else if k == at {
                        assert(after[j] == before[j]);
                    } else if j < at {
                        assert(paints_before(nodes, before[j] as int, before[k - 1] as int));
                    } else if j == at {
                        if at < k - 1 {
                            assert(paints_before(nodes, before[at as int] as int, before[k - 1] as int));
                        }
                    } else {
                        assert(paints_before(nodes, before[j - 1] as int, before[k - 1] as int));
                    }
                }
                assert forall|m: int| 0 <= m < i + 1 implies #[trigger] occurs_in(after, m) by {
                    if m == i {
                        assert(after[at as int] == m);
                    } else {
                        assert(occurs_in(before, m));
                        let j = choose|j: int| 0 <= j < before.len() && #[trigger] before[j] == m;
                        if j < at {
                            assert(after[j] == m);
                        } else {
                            assert(after[j + 1] == m);
                        }
                    }
                }
            }
            i += 1;
        }
        order
    }
}

/// A copy of a list of nodes.
fn copy_nodes(nodes: &Vec<Node>) -> (copy: Vec<Node>)
    ensures
        copy@ == nodes@,
{
    let mut copy: Vec<Node> = Vec::new();
    let mut k: usize = 0;
    while k < nodes.len()
        invariant
            k <= nodes.len(),
            copy@ == nodes@.take(k as int),
        decreases nodes.len() - k,
    {
        copy.push(nodes[k]);
        assert(nodes@.take(k + 1) =~= nodes@.take(k as int).push(nodes@[k as int]));
        k += 1;
    }
    assert(nodes@.take(nodes.len() as int) =~= nodes@);
    copy
}

/// A copy of a chain.
pub(crate) fn copy_chain(chain: &Vec<usize>) -> (copy: Vec<usize>)
    ensures
        copy@ == chain@,
{
    let mut copy: Vec<usize> = Vec::new();
    let mut k: usize = 0;
    while k < chain.len()
        invariant
            k <= chain.len(),
            copy@ == chain@.take(k as int),
        decreases chain.len() - k,
    {
        copy.push(chain[k]);
        assert(chain@.take(k + 1) =~= chain@.take(k as int).push(chain@[k as int]));
        k += 1;
    }
    assert(chain@.take(chain.len() as int) =~= chain@);
    copy
}

} // verus!
