//! The accessibility synchronizer: the accessibility tree that mirrors the
//! node tree, the focus among its nodes, and the navigation mode.

use vstd::prelude::*;
use crate::geometry::Area;
use crate::render::lemma_chain_is_ancestry;
use crate::tree::{
    depth_at, is_ancestor, is_ancestor_or_self, is_chain_to, is_paint_order, occurs_in,
    paints_before, well_formed, Node, NodeTree,
};

verus! {

/// The accessibility identity that stands for the window itself. It is the
/// parent of the nodes that have no accessible ancestor, and it has the focus
/// until a node gets it.
pub const ACCESSIBILITY_ROOT_ID: u64 = 0;

/// A node of the accessibility tree.
#[derive(Debug, Clone, Copy, PartialEq, Eq)]
pub struct AccessibilityNode {
    /// The accessibility identity of the node.
    pub id: u64,
    /// The position in document order of the node it stands for.
    pub position: usize,
    /// The identity of the node it stands for.
    pub node_id: u64,
    /// The area of that node on the screen.
    pub area: Area,
    /// The accessibility identity of the nearest ancestor that has one, or
    /// that of the window.
    pub parent: u64,
}

/// The way in which the focus moves.
#[derive(Debug, Clone, Copy, PartialEq, Eq)]
pub enum AccessibilityFocusDirection {
    Forward,
    Backward,
}

/// How the user last interacted with the window.
#[derive(Debug, Clone, Copy, PartialEq, Eq, Structural)]
pub enum NavigationMode {
    Keyboard,
    NotKeyboard,
}

/// The navigation mode that the focus ring and the keyboard navigation go by.
#[derive(Debug, Clone, Copy, PartialEq, Eq, Structural)]
pub struct NavigatorState {
    mode: NavigationMode,
}

impl NavigatorState {
    /// The mode that the state holds.
    pub closed spec fn mode(&self) -> NavigationMode {
        self.mode
    }

    pub fn new(mode: NavigationMode) -> (state: Self)
        ensures
            state.mode() == mode,
    {
        NavigatorState { mode }
    }

    pub fn get(&self) -> (mode: NavigationMode)
        ensures
            mode == self.mode(),
    {
        self.mode
    }

    pub fn set(&mut self, mode: NavigationMode)
        ensures
            final(self).mode() == mode,
    {
        self.mode = mode;
    }
}

/// The node at `i` carries an accessibility identity.
pub open spec fn bears(nodes: Seq<Node>, i: int) -> bool {
    nodes[i].accessibility_id is Some
}

/// The node at `a` is the nearest ancestor of the node at `i` that carries an
/// accessibility identity.
pub open spec fn is_nearest_bearing_ancestor(nodes: Seq<Node>, a: int, i: int) -> bool {
    &&& is_ancestor(nodes, a, i)
    &&& bears(nodes, a)
    &&& forall|b: int| a < b && #[trigger] is_ancestor(nodes, b, i) ==> !bears(nodes, b)
}

/// `parent` is the accessibility parent of the node at `i`: the identity of
/// its nearest ancestor that carries one, or that of the window where no
/// ancestor does.
pub open spec fn is_accessibility_parent(nodes: Seq<Node>, i: int, parent: u64) -> bool {
    ||| exists|a: int| #[trigger]
        is_nearest_bearing_ancestor(nodes, a, i) && nodes[a].accessibility_id == Some(parent)
    ||| (parent == ACCESSIBILITY_ROOT_ID && forall|b: int| #[trigger]
        is_ancestor(nodes, b, i) ==> !bears(nodes, b))
}

/// `entry` stands for a node of the tree that carries an accessibility
/// identity, with that node's identity, area and accessibility parent.
pub open spec fn describes(nodes: Seq<Node>, entry: AccessibilityNode) -> bool {
    &&& entry.position < nodes.len()
    &&& nodes[entry.position as int].accessibility_id == Some(entry.id)
    &&& entry.node_id == nodes[entry.position as int].id
    &&& entry.area == nodes[entry.position as int].area
    &&& is_accessibility_parent(nodes, entry.position as int, entry.parent)
}

/// One of the entries of `list` stands for the node at `i`.
pub open spec fn is_listed(list: Seq<AccessibilityNode>, i: int) -> bool {
    exists|k: int| 0 <= k < list.len() && (#[trigger] list[k]).position == i
}

/// `list` is the accessibility tree of `nodes`: one entry for each node that
/// carries an accessibility identity, from the node that paints last to the
/// node that paints first.
pub open spec fn is_accessibility_list(nodes: Seq<Node>, list: Seq<AccessibilityNode>) -> bool {
    &&& forall|k: int| 0 <= k < list.len() ==> describes(nodes, #[trigger] list[k])
    &&& forall|j: int, k: int|
        0 <= j < k < list.len() ==> paints_before(
            nodes,
            (#[trigger] list[k]).position as int,
            (#[trigger] list[j]).position as int,
        )
    &&& forall|i: int| 0 <= i < nodes.len() && bears(nodes, i) ==> #[trigger] is_listed(list, i)
}

/// The accessibility identities of a list of entries, in its order.
pub open spec fn ids_of(list: Seq<AccessibilityNode>) -> Seq<u64> {
    Seq::new(list.len(), |k: int| list[k].id)
}

/// `i` is the first place at which `id` stands in `ids`.
pub open spec fn is_first_index(ids: Seq<u64>, id: u64, i: int) -> bool {
    &&& 0 <= i < ids.len()
    &&& ids[i] == id
    &&& forall|j: int| 0 <= j < i ==> #[trigger] ids[j] != id
}

/// The first place at which `id` stands in `ids`, if it does.
pub open spec fn focus_index(ids: Seq<u64>, id: u64) -> Option<int> {
    if exists|i: int| is_first_index(ids, id, i) {
        Some(choose|i: int| is_first_index(ids, id, i))
    } else {
        None
    }
}

/// The identity that gets the focus when it moves from `focused` in
/// `direction` through `ids`. Forward it is the one after `focused`, and the
/// first after the last; backward the one before it, and the last before the
/// first. From an identity that is not in `ids` the focus moves to the first
/// forward and to the last backward. With no identities it stays.
pub open spec fn next_focus(ids: Seq<u64>, focused: u64, direction: AccessibilityFocusDirection) -> u64 {
    if ids.len() == 0 {
        focused
    } else {
        match (focus_index(ids, focused), direction) {
            (Some(i), AccessibilityFocusDirection::Forward) => if i == ids.len() - 1 {
                ids[0]
            } else {
                ids[i + 1]
            },
            (Some(i), AccessibilityFocusDirection::Backward) => if i == 0 {
                ids[ids.len() - 1]
            } else {
                ids[i - 1]
            },
            (None, AccessibilityFocusDirection::Forward) => ids[0],
            (None, AccessibilityFocusDirection::Backward) => ids[ids.len() - 1],
        }
    }
}

/// Where `id` first stands at `i`, `focus_index` gives `i`.
pub proof fn lemma_focus_index_found(ids: Seq<u64>, id: u64, i: int)
    requires
        is_first_index(ids, id, i),
    ensures
        focus_index(ids, id) == Some(i),
{
    let j = choose|j: int| is_first_index(ids, id, j);
    if j < i {
        assert(ids[j] != id);
    } else if i < j {
        assert(ids[i] != id);
    }
}

/// Among identities that are all different, each stands first where it
/// stands.
pub proof fn lemma_focus_index_distinct(ids: Seq<u64>, i: int)
    requires
        ids.no_duplicates(),
        0 <= i < ids.len(),
    ensures
        focus_index(ids, ids[i]) == Some(i),
{
    assert(is_first_index(ids, ids[i], i));
    lemma_focus_index_found(ids, ids[i], i);
}

/// Moving the focus forward and then backward, or backward and then forward,
/// brings it back to the node it was on, where the identities are all
/// different and the focus is on one of them.
pub proof fn lemma_focus_round_trip(ids: Seq<u64>, focused: u64)
    requires
        ids.no_duplicates(),
        ids.contains(focused),
    ensures
        next_focus(
            ids,
            next_focus(ids, focused, AccessibilityFocusDirection::Forward),
            AccessibilityFocusDirection::Backward,
        ) == focused,
        next_focus(
            ids,
            next_focus(ids, focused, AccessibilityFocusDirection::Backward),
            AccessibilityFocusDirection::Forward,
        ) == focused,
{
    let at = choose|i: int| 0 <= i < ids.len() && ids[i] == focused;
    lemma_focus_index_distinct(ids, at);
    let last = ids.len() - 1;
    let after = if at == last { 0 } else { at + 1 };
    let before = if at == 0 { last } else { at - 1 };
    lemma_focus_index_distinct(ids, after);
    lemma_focus_index_distinct(ids, before);
}

/// With one accessible node, moving the focus puts it on that node, from
/// wherever it was and in either direction: a second move changes nothing.
pub proof fn lemma_focus_single(ids: Seq<u64>, focused: u64, direction: AccessibilityFocusDirection)
    requires
        ids.len() == 1,
    ensures
        next_focus(ids, focused, direction) == ids[0],
        next_focus(ids, next_focus(ids, focused, direction), direction) == next_focus(
            ids,
            focused,
            direction,
        ),
{
    assert(is_first_index(ids, ids[0], 0));
    lemma_focus_index_found(ids, ids[0], 0);
    if focus_index(ids, focused) is Some {
        let i = choose|i: int| is_first_index(ids, focused, i);
        assert(i == 0);
    }
}

/// On the chain to a node, the ancestor after which no ancestor carries an
/// accessibility identity is the nearest one that does, if it carries one
/// itself.
pub proof fn lemma_nearest_on_chain(nodes: Seq<Node>, i: int, chain: Seq<usize>, k: int)
    requires
        well_formed(nodes),
        is_chain_to(nodes, i, chain),
        0 <= k < chain.len() - 1,
        bears(nodes, chain[k] as int),
        forall|j: int| k < j < chain.len() - 1 ==> !bears(nodes, #[trigger] chain[j] as int),
    ensures
        is_nearest_bearing_ancestor(nodes, chain[k] as int, i),
{
    lemma_chain_is_ancestry(nodes, i, chain);
    let a = chain[k] as int;
    assert(is_ancestor_or_self(nodes, a, i));
    assert(chain[k] < chain[chain.len() - 1]);
    assert forall|b: int| a < b && #[trigger] is_ancestor(nodes, b, i) implies !bears(nodes, b) by {
        let d = depth_at(nodes, b);
        assert(is_ancestor_or_self(nodes, b, i));
        assert(0 <= d < chain.len() && chain[d] == b);
        if d < k {
            assert(chain[d] < chain[k]);
        }
        if d == chain.len() - 1 {
            assert(chain[d] == i);
        }
        assert(k < d < chain.len() - 1);
    }
}

/// Where no ancestor on the chain to a node carries an accessibility
/// identity, no ancestor of the node does.
pub proof fn lemma_none_on_chain(nodes: Seq<Node>, i: int, chain: Seq<usize>)
    requires
        well_formed(nodes),
        is_chain_to(nodes, i, chain),
        forall|j: int| 0 <= j < chain.len() - 1 ==> !bears(nodes, #[trigger] chain[j] as int),
    ensures
        forall|b: int| #[trigger] is_ancestor(nodes, b, i) ==> !bears(nodes, b),
{
    lemma_chain_is_ancestry(nodes, i, chain);
    assert forall|b: int| #[trigger] is_ancestor(nodes, b, i) implies !bears(nodes, b) by {
        let d = depth_at(nodes, b);
        assert(is_ancestor_or_self(nodes, b, i));
        assert(0 <= d < chain.len() && chain[d] == b);
        if d == chain.len() - 1 {
            assert(chain[d] == i);
        }
    }
}

/// The accessibility parent of the node at `position`, found on the chain
/// from the root to that node.
pub fn accessibility_parent(tree: &NodeTree, chain: &Vec<usize>, position: usize) -> (parent: u64)
    requires
        is_chain_to(tree@, position as int, chain@),
    ensures
        is_accessibility_parent(tree@, position as int, parent),
{
    // Asking a tree for its length also says that it is well formed.
    let _ = tree.len();
    let mut k: usize = chain.len() - 1;
    while k > 0
        invariant
            k <= chain.len() - 1,
            chain.len() >= 1,
            well_formed(tree@),
            is_chain_to(tree@, position as int, chain@),
            forall|j: int| k <= j < chain.len() - 1 ==> !bears(tree@, #[trigger] chain[j] as int),
        decreases k,
    {
        k -= 1;
        let at: usize = chain[k];
        assert(is_ancestor_or_self(tree@, chain[k as int] as int, position as int));
        match tree.node(at).accessibility_id {
            Some(id) => {
                proof {
                    lemma_nearest_on_chain(tree@, position as int, chain@, k as int);
                }
                return id;
            },
            None => {},
        }
    }
    proof {
        lemma_none_on_chain(tree@, position as int, chain@);
    }
    ACCESSIBILITY_ROOT_ID
}

/// The accessibility tree with the focus.
#[derive(Debug)]
pub struct AccessibilityManager {
    /// The accessible nodes, from the one that paints last to the one that
    /// paints first.
    pub nodes: Vec<AccessibilityNode>,
    /// The accessibility identity that has the focus.
    pub focused_id: u64,
}

impl AccessibilityManager {
    /// An empty accessibility tree, with the focus on `focused_id`.
    pub fn new(focused_id: u64) -> (manager: Self)
        ensures
            manager.nodes@ == Seq::<AccessibilityNode>::empty(),
            manager.focused_id == focused_id,
    {
        AccessibilityManager { nodes: Vec::new(), focused_id }
    }

    /// Forgets the nodes. The focus stays where it is.
    pub fn clear(&mut self)
        ensures
            final(self).nodes@ == Seq::<AccessibilityNode>::empty(),
            final(self).focused_id == old(self).focused_id,
    {
        self.nodes = Vec::new();
    }

    /// Moves the focus to the next accessible node in `direction`, going
    /// round at the ends. Returns the identity that has the focus afterwards.
    pub fn set_focus_on_next_node(&mut self, direction: AccessibilityFocusDirection) -> (focused:
        u64)
        ensures
            final(self).nodes == old(self).nodes,
            final(self).focused_id == next_focus(
                ids_of(old(self).nodes@),
                old(self).focused_id,
                direction,
            ),
            focused == final(self).focused_id,
    {
        let count: usize = self.nodes.len();
        if count == 0 {
            return self.focused_id;
        }
        let found: Option<usize> = find_id(&self.nodes, self.focused_id);
        let target: usize = match (found, direction) {
            (Some(at), AccessibilityFocusDirection::Forward) => if at == count - 1 {
                0
            } else {
                at + 1
            },
            (Some(at), AccessibilityFocusDirection::Backward) => if at == 0 {
                count - 1
            } else {
                at - 1
            },
            (None, AccessibilityFocusDirection::Forward) => 0,
            (None, AccessibilityFocusDirection::Backward) => count - 1,
        };
        self.focused_id = self.nodes[target].id;
        self.focused_id
    }

    /// Puts the focus on `id` where the accessibility tree has a node of that
    /// identity, and leaves it where it is otherwise. Returns whether the
    /// tree has such a node.
    pub fn set_focus(&mut self, id: u64) -> (found: bool)
        ensures
            final(self).nodes == old(self).nodes,
            found == ids_of(old(self).nodes@).contains(id),
            final(self).focused_id == if found {
                id
            } else {
                old(self).focused_id
            },
    {
        match find_id(&self.nodes, id) {
            Some(at) => {
                assert(ids_of(self.nodes@)[at as int] == id);
                self.focused_id = id;
                true
            },
            None => false,
        }
    }
}

/// The first place at which an entry of identity `id` stands in `list`.
pub fn find_id(list: &Vec<AccessibilityNode>, id: u64) -> (found: Option<usize>)
    ensures
        match found {
            Some(i) => focus_index(ids_of(list@), id) == Some(i as int) && i < list.len(),
            None => focus_index(ids_of(list@), id) is None && !ids_of(list@).contains(id),
        },
{
    let ghost ids = ids_of(list@);
    let mut i: usize = 0;
    while i < list.len()
        invariant
            i <= list.len(),
            ids == ids_of(list@),
            forall|j: int| 0 <= j < i ==> #[trigger] ids[j] != id,
        decreases list.len() - i,
    {
        if list[i].id == id {
            proof {
                assert(is_first_index(ids, id, i as int));
                lemma_focus_index_found(ids, id, i as int);
            }
            return Some(i);
        }
        i += 1;
    }
    assert(forall|k: int| !is_first_index(ids, id, k));
    None
}

/// Rebuilds the accessibility tree from the node tree. The nodes are gone
/// through from the one that paints last to the one that paints first, and
/// each one that carries an accessibility identity gets an entry. The focus
/// stays where it is.
pub fn process_accessibility(tree: &NodeTree, manager: &mut AccessibilityManager)
    ensures
        is_accessibility_list(tree@, final(manager).nodes@),
        final(manager).focused_id == old(manager).focused_id,
{
    let chains: Vec<Vec<usize>> = tree.chains();
    let order: Vec<usize> = tree.paint_order();
    let ghost nodes = tree@;
    let mut list: Vec<AccessibilityNode> = Vec::new();
    let mut k: usize = order.len();
    while k > 0
        invariant
            k <= order.len(),
            nodes == tree@,
            is_paint_order(nodes, order@),
            chains.len() == nodes.len(),
            forall|i: int| 0 <= i < chains.len() ==> is_chain_to(nodes, i, #[trigger] chains[i]@),
            forall|x: int| 0 <= x < list.len() ==> describes(nodes, #[trigger] list[x]),
            forall|x: int, m: int|
                0 <= x < list.len() && 0 <= m < k ==> paints_before(
                    nodes,
                    #[trigger] order[m] as int,
                    (#[trigger] list[x]).position as int,
                ),
            forall|x: int, y: int|
                0 <= x < y < list.len() ==> paints_before(
                    nodes,
                    (#[trigger] list[y]).position as int,
                    (#[trigger] list[x]).position as int,
                ),
            forall|m: int|
                k <= m < order.len() && bears(nodes, order[m] as int) ==> #[trigger] is_listed(
                    list@,
                    order[m] as int,
                ),
        decreases k,
    {
        k -= 1;
        let position: usize = order[k];
        assert(order[k as int] < nodes.len());
        let node: Node = tree.node(position);
        let ghost before = list@;
        match node.accessibility_id {
            Some(id) => {
                let parent: u64 = accessibility_parent(tree, &chains[position], position);
                let entry = AccessibilityNode {
                    id,
                    position,
                    node_id: node.id,
                    area: node.area,
                    parent,
                };
                list.push(entry);
                proof {
                    assert(list@[before.len() as int] == entry);
                    assert forall|m: int|
                        k <= m < order.len() && bears(nodes, order[m] as int) implies #[trigger] is_listed(
                        list@,
                        order[m] as int,
                    ) by {
                        if m == k {
                            assert(list@[before.len() as int].position == order[m]);
                        } else {
                            assert(is_listed(before, order[m] as int));
                            let x = choose|x: int|
                                0 <= x < before.len() && (#[trigger] before[x]).position
                                    == order[m];
                            assert(list@[x].position == order[m]);
                        }
                    }
                    assert forall|x: int, y: int| 0 <= x < y < list.len() implies paints_before(
                        nodes,
                        (#[trigger] list[y]).position as int,
                        (#[trigger] list[x]).position as int,
                    ) by {
                        if y == before.len() {
                            assert(list[x] == before[x]);
                            assert(paints_before(
                                nodes,
                                order[k as int] as int,
                                before[x].position as int,
                            ));
                        } else {
                            assert(list[x] == before[x] && list[y] == before[y]);
                        }
                    }
                    assert forall|x: int, m: int|
                        0 <= x < list.len() && 0 <= m < k implies paints_before(
                        nodes,
                        #[trigger] order[m] as int,
                        (#[trigger] list[x]).position as int,
                    ) by {
                        if x == before.len() {
                            assert(paints_before(nodes, order[m] as int, order[k as int] as int));
                        } else {
                            assert(list[x] == before[x]);
                        }
                    }
                }
            },
            None => {},
        }
    }
    proof {
        assert forall|i: int| 0 <= i < nodes.len() && bears(nodes, i) implies #[trigger] is_listed(
            list@,
            i,
        ) by {
            assert(occurs_in(order@, i));
            let m = choose|m: int| 0 <= m < order.len() && #[trigger] order[m] == i;
            assert(is_listed(list@, order[m] as int));
        }
    }
    manager.nodes = list;
}

/// Where the nodes of the tree carry different accessibility identities, the
/// entries of its accessibility tree have different identities.
pub proof fn lemma_accessibility_ids_distinct(nodes: Seq<Node>, list: Seq<AccessibilityNode>)
    requires
        is_accessibility_list(nodes, list),
        forall|i: int, j: int|
            0 <= i < j < nodes.len() && bears(nodes, i) && bears(nodes, j) ==> (#[trigger] nodes[i]).accessibility_id
                != (#[trigger] nodes[j]).accessibility_id,
    ensures
        ids_of(list).no_duplicates(),
{
    let ids = ids_of(list);
    assert forall|x: int, y: int| 0 <= x < ids.len() && 0 <= y < ids.len() && x != y implies ids[x]
        != ids[y] by {
        let px = list[x].position as int;
        let py = list[y].position as int;
        assert(describes(nodes, list[x]) && describes(nodes, list[y]));
        if x < y {
            assert(paints_before(nodes, py, px));
        } else {
            assert(paints_before(nodes, px, py));
        }
        assert(px != py);
        if px < py {
            assert(nodes[px].accessibility_id != nodes[py].accessibility_id);
        } else {
            assert(nodes[py].accessibility_id != nodes[px].accessibility_id);
        }
    }
}

} // verus!
