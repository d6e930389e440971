//! The event queue and the dispatcher.
//!
//! The host pushes the input events of a turn onto the queue. The dispatcher
//! then takes them off in the order in which they came, finds for each the node
//! it is meant for, keeps track of the hovered node and of the node that
//! holds the pointer, and hands on one event for the virtual tree per input
//! event. Positions and areas are in physical pixels.

use vstd::prelude::*;
use crate::events::window_moved::WindowMovedData;
use crate::geometry::Point2D;
use crate::tree::{paints_before, Node, NodeTree};

verus! {

/// An input event as the host window delivers it.
#[derive(Debug, Clone, Copy, PartialEq, Eq)]
pub enum PlatformEvent {
    /// The pointer moved to `position`.
    PointerMove { position: Point2D },
    /// A button of the pointer went down at `position`.
    PointerDown { position: Point2D },
    /// A button of the pointer came up at `position`.
    PointerUp { position: Point2D },
    /// The wheel turned by `scroll` while the pointer was at `position`.
    Wheel { position: Point2D, scroll: Point2D },
    /// The key `code` went down.
    KeyDown { code: u32 },
    /// The key `code` came up.
    KeyUp { code: u32 },
    /// The window was moved.
    WindowMoved(WindowMovedData),
}

impl PlatformEvent {
    /// Where on the window the event happened, for the events of the
    /// pointer and the wheel.
    pub open spec fn spec_position(self) -> Option<Point2D> {
        match self {
            PlatformEvent::PointerMove { position } => Some(position),
            PlatformEvent::PointerDown { position } => Some(position),
            PlatformEvent::PointerUp { position } => Some(position),
            PlatformEvent::Wheel { position, .. } => Some(position),
            PlatformEvent::KeyDown { .. } => None,
            PlatformEvent::KeyUp { .. } => None,
            PlatformEvent::WindowMoved(_) => None,
        }
    }

    /// Whether the event comes from the keyboard.
    pub open spec fn spec_is_keyboard(self) -> bool {
        self is KeyDown || self is KeyUp
    }

    /// Where on the window the event happened, for the events of the
    /// pointer and the wheel.
    pub fn position(&self) -> (position: Option<Point2D>)
        ensures
            position == self.spec_position(),
    {
        match self {
            PlatformEvent::PointerMove { position } => Some(*position),
            PlatformEvent::PointerDown { position } => Some(*position),
            PlatformEvent::PointerUp { position } => Some(*position),
            PlatformEvent::Wheel { position, .. } => Some(*position),
            PlatformEvent::KeyDown { .. } => None,
            PlatformEvent::KeyUp { .. } => None,
            PlatformEvent::WindowMoved(_) => None,
        }
    }

    /// Whether the event comes from the keyboard.
    pub fn is_keyboard(&self) -> (keyboard: bool)
        ensures
            keyboard == self.spec_is_keyboard(),
    {
        match self {
            PlatformEvent::KeyDown { .. } => true,
            PlatformEvent::KeyUp { .. } => true,
            _ => false,
        }
    }
}

/// What the dispatcher remembers from one event to the next.
#[derive(Debug, Clone, Copy, PartialEq, Eq)]
pub struct NodesState {
    /// The node under the pointer, as of its last move.
    pub hovered: Option<u64>,
    /// The node on which a button of the pointer went down and has not come
    /// up yet. While there is one, the moves and the release of the pointer
    /// go to it.
    pub captured: Option<u64>,
}

impl NodesState {
    /// No node hovered, none holding the pointer.
    pub fn new() -> (state: Self)
        ensures
            state == (NodesState { hovered: None, captured: None }),
    {
        NodesState { hovered: None, captured: None }
    }
}

/// An event for the virtual tree.
#[derive(Debug, Clone, Copy, PartialEq, Eq)]
pub struct DomEvent {
    /// The input event it was made from.
    pub event: PlatformEvent,
    /// The node it is meant for; `None` for an event that is for the whole
    /// tree.
    pub target: Option<u64>,
    /// Whether it goes on to the ancestors of the target.
    pub bubbles: bool,
}

/// The input events that wait to be dispatched, the oldest first.
#[derive(Debug)]
pub struct EventsQueue {
    events: Vec<PlatformEvent>,
}

impl View for EventsQueue {
    type V = Seq<PlatformEvent>;

    closed spec fn view(&self) -> Seq<PlatformEvent> {
        self.events@
    }
}

impl EventsQueue {
    /// The empty queue.
    pub fn new() -> (queue: Self)
        ensures
            queue@ == Seq::<PlatformEvent>::empty(),
    {
        EventsQueue { events: Vec::new() }
    }

    /// Appends `event` at the tail.
    pub fn push(&mut self, event: PlatformEvent)
        ensures
            final(self)@ == old(self)@.push(event),
    {
        self.events.push(event);
    }

    /// The number of events that wait.
    pub fn len(&self) -> (n: usize)
        ensures
            n == self@.len(),
    {
        self.events.len()
    }

    /// Takes all events off the queue, the oldest first.
    pub fn drain(&mut self) -> (events: Vec<PlatformEvent>)
        ensures
            events@ == old(self)@,
            final(self)@ == Seq::<PlatformEvent>::empty(),
    {
        let mut events: Vec<PlatformEvent> = Vec::new();
        let mut i: usize = 0;
        while i < self.events.len()
            invariant
                i <= self.events.len(),
                self.events@ == old(self).events@,
                events@ == self.events@.take(i as int),
            decreases self.events.len() - i,
        {
            events.push(self.events[i]);
            assert(self.events@.take(i + 1) =~= self.events@.take(i as int).push(
                self.events@[i as int],
            ));
            i += 1;
        }
        assert(self.events@.take(self.events.len() as int) =~= self.events@);
        self.events = Vec::new();
        events
    }
}

/// The node at `i` is the one that `point` hits: its area holds the point, and
/// every other node whose area holds it paints before it.
pub open spec fn is_hit(nodes: Seq<Node>, point: Point2D, i: int) -> bool {
    &&& 0 <= i < nodes.len()
    &&& nodes[i].area.spec_contains(point)
    &&& forall|j: int|
        0 <= j < nodes.len() && j != i && (#[trigger] nodes[j]).area.spec_contains(point)
            ==> paints_before(nodes, j, i)
}

/// The position of the node that `point` hits, if it hits one.
pub open spec fn hit(nodes: Seq<Node>, point: Point2D) -> Option<int> {
    if exists|i: int| is_hit(nodes, point, i) {
        Some(choose|i: int| is_hit(nodes, point, i))
    } else {
        None
    }
}

/// The identity of the node that `point` hits, if it hits one.
pub open spec fn node_at(nodes: Seq<Node>, point: Point2D) -> Option<u64> {
    match hit(nodes, point) {
        Some(i) => Some(nodes[i].id),
        None => None,
    }
}

/// The node that an event is meant for. An event of the pointer is for the
/// node that holds the pointer, if one does and the event is a move or a
/// release, and else for the node that it hits. The other events have no
/// target.
pub open spec fn target_of(nodes: Seq<Node>, state: NodesState, event: PlatformEvent) -> Option<u64> {
    match event {
        PlatformEvent::PointerMove { position } => if state.captured is Some {
            state.captured
        } else {
            node_at(nodes, position)
        },
        PlatformEvent::PointerUp { position } => if state.captured is Some {
            state.captured
        } else {
            node_at(nodes, position)
        },
        PlatformEvent::PointerDown { position } => node_at(nodes, position),
        PlatformEvent::Wheel { position, .. } => node_at(nodes, position),
        _ => None,
    }
}

/// What the dispatcher remembers after an event: a move of the pointer makes
/// the node under it the hovered one, a button that goes down gives the
/// pointer to the node under it, and a button that comes up takes it back.
pub open spec fn state_after(nodes: Seq<Node>, state: NodesState, event: PlatformEvent) -> NodesState {
    match event {
        PlatformEvent::PointerMove { position } => NodesState {
            hovered: node_at(nodes, position),
            ..state
        },
        PlatformEvent::PointerDown { position } => NodesState {
            captured: node_at(nodes, position),
            ..state
        },
        PlatformEvent::PointerUp { .. } => NodesState { captured: None, ..state },
        _ => state,
    }
}

/// The event for the virtual tree that is made from an input event. It goes
/// on to the ancestors where the input event has a place on the window.
pub open spec fn dom_event_for(nodes: Seq<Node>, state: NodesState, event: PlatformEvent) -> DomEvent {
    DomEvent {
        event,
        target: target_of(nodes, state, event),
        bubbles: event.spec_position() is Some,
    }
}

/// What the dispatcher remembers after a run of events.
pub open spec fn state_after_all(nodes: Seq<Node>, state: NodesState, events: Seq<PlatformEvent>) -> NodesState
    decreases events.len(),
{
    if events.len() == 0 {
        state
    } else {
        state_after(nodes, state_after_all(nodes, state, events.drop_last()), events.last())
    }
}

/// The events for the virtual tree that a run of input events gives: one for
/// each input event, in the same order, each made with what the dispatcher
/// remembers from the events before it.
pub open spec fn dom_events(nodes: Seq<Node>, state: NodesState, events: Seq<PlatformEvent>) -> Seq<DomEvent> {
    Seq::new(
        events.len(),
        |k: int| dom_event_for(nodes, state_after_all(nodes, state, events.take(k)), events[k]),
    )
}

/// A point hits at most one node.
pub proof fn lemma_hit_unique(nodes: Seq<Node>, point: Point2D, i: int, j: int)
    requires
        is_hit(nodes, point, i),
        is_hit(nodes, point, j),
    ensures
        i == j,
{
    if i != j {
        assert(paints_before(nodes, j, i));
        assert(paints_before(nodes, i, j));
    }
}

/// The node that `point` hits: of the nodes whose area holds the point, the
/// one that paints last.
pub fn find_hit(tree: &NodeTree, point: Point2D) -> (found: Option<usize>)
    ensures
        match found {
            Some(i) => hit(tree@, point) == Some(i as int) && i < tree@.len(),
            None => hit(tree@, point) is None,
        },
        found is None <==> forall|j: int|
            0 <= j < tree@.len() ==> !(#[trigger] tree@[j]).area.spec_contains(point),
{
    let ghost nodes = tree@;
    let count: usize = tree.len();
    let mut best: Option<usize> = None;
    let mut i: usize = 0;
    while i < count
        invariant
            i <= count,
            count == nodes.len(),
            nodes == tree@,
            match best {
                Some(b) => b < i && nodes[b as int].area.spec_contains(point) && forall|j: int|
                    0 <= j < i && j != b && (#[trigger] nodes[j]).area.spec_contains(point)
                        ==> paints_before(nodes, j, b as int),
                None => forall|j: int| 0 <= j < i ==> !(#[trigger] nodes[j]).area.spec_contains(point),
            },
        decreases count - i,
    {
        let node: Node = tree.node(i);
        if node.area.contains(point) {
            match best {
                Some(b) => {
                    let top: Node = tree.node(b);
                    if top.layer <= node.layer {
                        assert(paints_before(nodes, b as int, i as int));
                        assert forall|j: int|
                            0 <= j < i + 1 && j != i && (#[trigger] nodes[j]).area.spec_contains(
                                point,
                            ) implies paints_before(nodes, j, i as int) by {
                            if j != b {
                                assert(paints_before(nodes, j, b as int));
                            }
                        }
                        best = Some(i);
                    } else {
                        assert(paints_before(nodes, i as int, b as int));
                    }
                },
                None => {
                    best = Some(i);
                },
            }
        }
        i += 1;
    }
    proof {
        match best {
            Some(b) => {
                assert(is_hit(nodes, point, b as int));
                let chosen = choose|k: int| is_hit(nodes, point, k);
                lemma_hit_unique(nodes, point, b as int, chosen);
            },
            None => {
                assert(forall|k: int| !is_hit(nodes, point, k));
            },
        }
    }
    best
}

/// The identity of the node that `point` hits.
pub fn find_node_at(tree: &NodeTree, point: Point2D) -> (found: Option<u64>)
    ensures
        found == node_at(tree@, point),
{
    match find_hit(tree, point) {
        Some(i) => Some(tree.node(i).id),
        None => None,
    }
}

/// Dispatches one input event: returns the event for the virtual tree and
/// brings what the dispatcher remembers up to date.
pub fn dispatch(tree: &NodeTree, state: &mut NodesState, event: PlatformEvent) -> (dom_event:
    DomEvent)
    ensures
        dom_event == dom_event_for(tree@, *old(state), event),
        *final(state) == state_after(tree@, *old(state), event),
{
    match event {
        PlatformEvent::PointerMove { position } => {
            let under: Option<u64> = find_node_at(tree, position);
            let target: Option<u64> = if state.captured.is_some() {
                state.captured
            } else {
                under
            };
            state.hovered = under;
            DomEvent { event, target, bubbles: true }
        },
        PlatformEvent::PointerDown { position } => {
            let under: Option<u64> = find_node_at(tree, position);
            state.captured = under;
            DomEvent { event, target: under, bubbles: true }
        },
        PlatformEvent::PointerUp { position } => {
            let target: Option<u64> = if state.captured.is_some() {
                state.captured
            } else {
                find_node_at(tree, position)
            };
            state.captured = None;
            DomEvent { event, target, bubbles: true }
        },
        PlatformEvent::Wheel { position, .. } => {
            let under: Option<u64> = find_node_at(tree, position);
            DomEvent { event, target: under, bubbles: true }
        },
        _ => DomEvent { event, target: None, bubbles: false },
    }
}

/// Takes every event off the queue, the oldest first, dispatches it, and
/// returns the events for the virtual tree in the same order. No event is
/// left out and none is added.
pub fn process_events(tree: &NodeTree, events: &mut EventsQueue, state: &mut NodesState) -> (dom_events:
    Vec<DomEvent>)
    ensures
        final(events)@ == Seq::<PlatformEvent>::empty(),
        *final(state) == state_after_all(tree@, *old(state), old(events)@),
        dom_events@ == self::dom_events(tree@, *old(state), old(events)@),
        dom_events.len() == old(events)@.len(),
        forall|k: int| 0 <= k < dom_events.len() ==> (#[trigger] dom_events[k]).event == old(events)@[k],
{
    let pending: Vec<PlatformEvent> = events.drain();
    let ghost start = *state;
    let ghost nodes = tree@;
    let mut out: Vec<DomEvent> = Vec::new();
    let mut i: usize = 0;
    while i < pending.len()
        invariant
            i <= pending.len(),
            nodes == tree@,
            *state == state_after_all(nodes, start, pending@.take(i as int)),
            out.len() == i,
            forall|k: int|
                0 <= k < i ==> #[trigger] out[k] == dom_event_for(
                    nodes,
                    state_after_all(nodes, start, pending@.take(k)),
                    pending@[k],
                ),
        decreases pending.len() - i,
    {
        proof {
            assert(pending@.take(i + 1).drop_last() =~= pending@.take(i as int));
            assert(pending@.take(i + 1).last() == pending@[i as int]);
        }
        let dom_event: DomEvent = dispatch(tree, state, pending[i]);
        out.push(dom_event);
        i += 1;
    }
    proof {
        assert(pending@.take(pending.len() as int) =~= pending@);
        assert(out@ =~= self::dom_events(nodes, start, pending@));
    }
    out
}

/// The dispatcher keeps the order of the queue: the events for the virtual
/// tree are as many as the input events, and the one at each place is made
/// from the input event at that place.
pub proof fn lemma_dispatch_is_fifo(nodes: Seq<Node>, state: NodesState, events: Seq<PlatformEvent>)
    ensures
        dom_events(nodes, state, events).len() == events.len(),
        forall|k: int|
            0 <= k < events.len() ==> (#[trigger] dom_events(nodes, state, events)[k]).event
                == events[k],
{
}

/// After a move of the pointer, the hovered node is the node under the
/// pointer.
pub proof fn lemma_move_sets_hover(nodes: Seq<Node>, state: NodesState, position: Point2D)
    ensures
        state_after(nodes, state, PlatformEvent::PointerMove { position }).hovered == node_at(
            nodes,
            position,
        ),
{
}

} // verus!
