//! The application: the state that one window owns, and the steps that the
//! host drives it through.
//!
//! The virtual tree, the layout engine and the paint backend are outside the
//! application. Each step takes what they produced as plain values (the
//! changes of a poll, the areas of a layout) and returns what the host is to do
//! next (request a frame, paint these nodes).

use vstd::prelude::*;
use std::sync::Arc;
use crate::accessibility::{
    self, ids_of, is_accessibility_list, next_focus, AccessibilityFocusDirection,
    AccessibilityManager, AccessibilityNode, NavigationMode, NavigatorState, ACCESSIBILITY_ROOT_ID,
};
use crate::channels::{
    broadcast_channel, broadcast_send, broadcast_subscribe, notify_one, unbounded_channel,
    unbounded_send, watch_channel, watch_send, watch_subscribe,
};
use crate::dispatch::{
    self, dom_events, state_after_all, DomEvent, EventsQueue, NodesState, PlatformEvent,
};
use crate::geometry::{Area, PhysicalPosition, PhysicalSize, Point2D, Size2D};
use crate::mutations::{self, apply_all, Mutation};
use crate::platform::{EventMessage, PlatformInformation, Transport, UsePlatform};
use crate::render::{self, is_visit_of, positions, RenderItem};
use crate::tree::{is_paint_order, occurs_in, with_areas, Node, NodeTree};

verus! {

/// What one poll of the virtual tree came to.
#[derive(Debug)]
pub enum PollOutcome {
    /// Neither an event nor work of the virtual tree was ready.
    Pending,
    /// The virtual tree had work, and these are the changes it gave.
    Ready(Vec<Mutation>),
}

/// What the host does after a poll.
#[derive(Debug, Clone, Copy, PartialEq, Eq, Structural)]
pub struct PollStep {
    /// Ask the window for a frame.
    pub request_redraw: bool,
    /// Poll again in this turn, without going back to the host.
    pub poll_again: bool,
}

/// What the host does for a message that came through the platform command
/// channel, once the application has taken it in.
#[derive(Debug)]
pub enum HostAction {
    /// Nothing.
    Nothing,
    /// Give the template to the virtual tree, then poll it.
    ReplaceTemplate(dioxus_core::Template),
    /// Poll the virtual tree.
    Poll,
    /// Ask the window for a frame.
    RequestRedraw,
    /// Measure the text of the nodes at these positions again, then ask the
    /// window for a frame.
    MeasureText(Vec<usize>),
    /// Change the cursor icon.
    SetCursorIcon(winit::window::CursorIcon),
    /// Carry out what the accessibility host asks for.
    AccessibilityAction(accesskit_winit::ActionRequestEvent),
    /// Start dragging the window.
    DragWindow,
    /// Start resizing the window by dragging.
    DragResizeWindow(winit::window::ResizeDirection),
    /// Resize the window.
    SetWindowSize(Size2D),
    /// Move the window.
    SetWindowPosition(Point2D),
    /// Resize and move the window.
    SetWindowSizeAndPosition(Size2D, Point2D),
    /// Close the window and leave.
    Exit,
}

/// What the root of the virtual tree is given to share with the code of
/// the user interface.
pub struct RootContexts {
    /// A receiver of the focused accessibility identity.
    pub focus_receiver: tokio::sync::watch::Receiver<u64>,
    /// A subscription to the ticks of the host.
    pub ticker: tokio::sync::broadcast::Receiver<()>,
    /// The navigation mode.
    pub navigator_state: NavigatorState,
    /// The geometry of the window.
    pub platform_information: PlatformInformation,
}

/// The positions in `positions` are those of the nodes of the text group
/// `text_id`, each once, in document order.
pub open spec fn is_text_group(nodes: Seq<Node>, text_id: u128, positions: Seq<usize>) -> bool {
    &&& forall|k: int|
        0 <= k < positions.len() ==> #[trigger] positions[k] < nodes.len()
            && nodes[positions[k] as int].text_group == Some(text_id)
    &&& forall|j: int, k: int|
        0 <= j < k < positions.len() ==> #[trigger] positions[j] < #[trigger] positions[k]
    &&& forall|i: int|
        0 <= i < nodes.len() && nodes[i].text_group == Some(text_id) ==> #[trigger] occurs_in(
            positions,
            i,
        )
}

/// The navigation mode after an input event: an event of the keyboard
/// switches to keyboard navigation, an event of the pointer or the wheel
/// switches away from it, and any other event leaves the mode as it is.
pub open spec fn mode_after(mode: NavigationMode, event: PlatformEvent) -> NavigationMode {
    if event.spec_is_keyboard() {
        NavigationMode::Keyboard
    } else if event.spec_position() is Some {
        NavigationMode::NotKeyboard
    } else {
        mode
    }
}

/// The area that the next frame lays out before it paints: the whole window
/// where a layout is pending, nothing where none is.
pub open spec fn layout_plan(pending: bool, information: PlatformInformation) -> Option<Area> {
    if pending {
        Some(Area { origin: Point2D { x: 0, y: 0 }, size: information.window_size })
    } else {
        None
    }
}

/// The geometry of a window after it was resized.
pub open spec fn resized(information: PlatformInformation, size: PhysicalSize) -> PlatformInformation {
    PlatformInformation {
        window_size: Size2D { width: size.width, height: size.height },
        ..information
    }
}

/// The first frame after a resize lays out the whole window at its new
/// size, and the frame after that one lays out nothing: a frame leaves no
/// layout pending.
pub proof fn lemma_resize_then_redraw(information: PlatformInformation, size: PhysicalSize)
    ensures
        layout_plan(true, resized(information, size)) == Some(
            Area {
                origin: Point2D { x: 0, y: 0 },
                size: Size2D { width: size.width, height: size.height },
            },
        ),
        layout_plan(false, resized(information, size)) is None,
{
}

/// Manages the Application lifecycle
pub struct Application {
    /// The persistent node tree.
    pub tree: NodeTree,
    /// The input events that wait to be dispatched.
    pub events: EventsQueue,
    /// The way to the host.
    pub platform: UsePlatform,
    /// Who is told that the tree was painted anew, if anyone.
    pub mutations_notifier: Option<Arc<tokio::sync::Notify>>,
    /// Where the dispatcher puts the events for the virtual tree.
    pub event_emitter: tokio::sync::mpsc::UnboundedSender<DomEvent>,
    /// Where the polling loop takes them from.
    pub event_receiver: tokio::sync::mpsc::UnboundedReceiver<DomEvent>,
    /// What the dispatcher remembers.
    pub nodes_state: NodesState,
    /// Where the focused accessibility identity is published.
    pub focus_sender: tokio::sync::watch::Sender<u64>,
    /// A receiver of it, which keeps the channel open.
    pub focus_receiver: tokio::sync::watch::Receiver<u64>,
    /// The accessibility tree and the focus.
    pub accessibility: AccessibilityManager,
    /// Where the ticks of the host are published.
    pub ticker_sender: tokio::sync::broadcast::Sender<()>,
    /// The navigation mode.
    pub navigator_state: NavigatorState,
    /// Whether the next frame must lay the tree out first.
    pub measure_layout_on_next_render: bool,
    /// The geometry of the window as the host last reported it.
    pub platform_information: PlatformInformation,
    /// The fonts to fall back on.
    pub default_fonts: Vec<String>,
}

impl Application {
    /// The application of a window of the given size and position, before
    /// the virtual tree was built: an empty tree, nothing hovered, the focus
    /// on the window itself, no keyboard navigation, no layout pending.
    pub fn new(
        event_loop_proxy: Option<winit::event_loop::EventLoopProxy<EventMessage>>,
        platform_emitter: Option<tokio::sync::mpsc::UnboundedSender<EventMessage>>,
        mutations_notifier: Option<Arc<tokio::sync::Notify>>,
        window_size: PhysicalSize,
        window_position: PhysicalPosition,
        default_fonts: Vec<String>,
    ) -> (app: Self)
        ensures
            app.tree@ == Seq::<Node>::empty(),
            app.events@ == Seq::<PlatformEvent>::empty(),
            app.nodes_state == (NodesState { hovered: None, captured: None }),
            app.accessibility.nodes@ == Seq::<AccessibilityNode>::empty(),
            app.accessibility.focused_id == ACCESSIBILITY_ROOT_ID,
            app.navigator_state.mode() == NavigationMode::NotKeyboard,
            !app.measure_layout_on_next_render,
            app.platform_information == (PlatformInformation {
                window_size: Size2D { width: window_size.width, height: window_size.height },
                window_position: Point2D { x: window_position.x, y: window_position.y },
            }),
            app.default_fonts == default_fonts,
            app.mutations_notifier == mutations_notifier,
            app.platform.spec_transport() == if event_loop_proxy is Some {
                Transport::Proxy
            } else if platform_emitter is Some {
                Transport::Emitter
            } else {
                Transport::Detached
            },
    {
        let (event_emitter, event_receiver) = unbounded_channel::<DomEvent>();
        let (focus_sender, focus_receiver) = watch_channel::<u64>(ACCESSIBILITY_ROOT_ID);
        let (ticker_sender, ticker) = broadcast_channel::<()>(5);
        let platform = UsePlatform::new(event_loop_proxy, platform_emitter, ticker);
        Application {
            tree: NodeTree::new(),
            events: EventsQueue::new(),
            platform,
            mutations_notifier,
            event_emitter,
            event_receiver,
            nodes_state: NodesState::new(),
            focus_sender,
            focus_receiver,
            accessibility: AccessibilityManager::new(ACCESSIBILITY_ROOT_ID),
            ticker_sender,
            navigator_state: NavigatorState::new(NavigationMode::NotKeyboard),
            measure_layout_on_next_render: false,
            platform_information: PlatformInformation::from_winit(window_size, window_position),
            default_fonts,
        }
    }

    /// What the root of the virtual tree is to share: a receiver of the
    /// focus, a subscription to the ticks, the navigation mode and the
    /// geometry of the window as they are now.
    pub fn provide_vdom_contexts(&self) -> (contexts: RootContexts)
        ensures
            contexts.navigator_state == self.navigator_state,
            contexts.platform_information == self.platform_information,
    {
        RootContexts {
            focus_receiver: watch_subscribe(&self.focus_receiver),
            ticker: broadcast_subscribe(&self.ticker_sender),
            navigator_state: self.navigator_state,
            platform_information: self.platform_information,
        }
    }

    /// Makes the first build of the node tree, from the changes that the
    /// first run of the virtual tree gave, and asks for a layout before the
    /// first frame.
    pub fn init_doms(&mut self, mutations: &Vec<Mutation>)
        ensures
            final(self).tree@ == apply_all(Seq::<Node>::empty(), mutations@).0,
            final(self).measure_layout_on_next_render,
            final(self).events@ == old(self).events@,
            final(self).nodes_state == old(self).nodes_state,
            final(self).accessibility == old(self).accessibility,
            final(self).navigator_state == old(self).navigator_state,
            final(self).platform_information == old(self).platform_information,
    {
        let mut tree: NodeTree = NodeTree::new();
        let _ = mutations::apply(&mut tree, mutations);
        self.tree = tree;
        self.measure_layout_on_next_render = true;
    }

    /// Applies the changes of a poll to the node tree. Returns
    /// `(needs_repaint, needs_relayout)`. Where a repaint is needed, whoever
    /// waits for repaints is told, once for the whole batch.
    pub fn apply_vdom_changes(&mut self, mutations: &Vec<Mutation>) -> (flags: (bool, bool))
        ensures
            final(self).tree@ == apply_all(old(self).tree@, mutations@).0,
            flags.0 == apply_all(old(self).tree@, mutations@).1,
            flags.1 == apply_all(old(self).tree@, mutations@).2,
            final(self).measure_layout_on_next_render == old(self).measure_layout_on_next_render,
            final(self).events@ == old(self).events@,
            final(self).nodes_state == old(self).nodes_state,
            final(self).accessibility == old(self).accessibility,
            final(self).navigator_state == old(self).navigator_state,
            final(self).platform_information == old(self).platform_information,
    {
        let (repaint, relayout) = mutations::apply(&mut self.tree, mutations);
        if repaint {
            match &self.mutations_notifier {
                Some(mutations_notifier) => notify_one(mutations_notifier),
                None => {},
            }
        }
        (repaint, relayout)
    }

    /// Takes in what one poll of the virtual tree came to. A poll that was
    /// not ready changes nothing and ends the turn. A poll that was ready has
    /// its changes applied; a relayout that they need is put off to the next
    /// frame, a frame is requested where they need a repaint or a relayout,
    /// and the host polls again at once.
    pub fn poll_vdom(&mut self, outcome: &PollOutcome) -> (step: PollStep)
        ensures
            match *outcome {
                PollOutcome::Pending => {
                    &&& final(self).tree@ == old(self).tree@
                    &&& final(self).measure_layout_on_next_render == old(self).measure_layout_on_next_render
                    &&& step == (PollStep { request_redraw: false, poll_again: false })
                },
                PollOutcome::Ready(mutations) => {
                    let applied = apply_all(old(self).tree@, mutations@);
                    &&& final(self).tree@ == applied.0
                    &&& final(self).measure_layout_on_next_render == (old(self).measure_layout_on_next_render || applied.2)
                    &&& step == (PollStep {
                        request_redraw: applied.1 || applied.2,
                        poll_again: true,
                    })
                },
            },
            final(self).events@ == old(self).events@,
            final(self).nodes_state == old(self).nodes_state,
            final(self).accessibility == old(self).accessibility,
            final(self).navigator_state == old(self).navigator_state,
            final(self).platform_information == old(self).platform_information,
    {
        match outcome {
            PollOutcome::Pending => PollStep { request_redraw: false, poll_again: false },
            PollOutcome::Ready(mutations) => {
                let (must_repaint, must_relayout) = self.apply_vdom_changes(mutations);
                if must_relayout {
                    self.measure_layout_on_next_render = true;
                }
                PollStep { request_redraw: must_relayout || must_repaint, poll_again: true }
            },
        }
    }

    /// Process the events queue: every queued event is dispatched, the
    /// oldest first, and the events for the virtual tree are put on their
    /// channel in that order. Returns them.
    pub fn process_events(&mut self) -> (dispatched: Vec<DomEvent>)
        ensures
            final(self).events@ == Seq::<PlatformEvent>::empty(),
            final(self).nodes_state == state_after_all(
                old(self).tree@,
                old(self).nodes_state,
                old(self).events@,
            ),
            dispatched@ == dom_events(old(self).tree@, old(self).nodes_state, old(self).events@),
            final(self).tree@ == old(self).tree@,
            final(self).measure_layout_on_next_render == old(self).measure_layout_on_next_render,
            final(self).accessibility == old(self).accessibility,
            final(self).navigator_state == old(self).navigator_state,
            final(self).platform_information == old(self).platform_information,
    {
        let dispatched: Vec<DomEvent> = dispatch::process_events(
            &self.tree,
            &mut self.events,
            &mut self.nodes_state,
        );
        let mut i: usize = 0;
        while i < dispatched.len()
            invariant
                i <= dispatched.len(),
            decreases dispatched.len() - i,
        {
            let _ = unbounded_send(&self.event_emitter, dispatched[i]);
            i += 1;
        }
        dispatched
    }

    /// Create the accessibility tree: the nodes are gone through from the one
    /// that paints last to the one that paints first, and every one with an
    /// accessibility identity is added.
    pub fn process_accessibility(&mut self)
        ensures
            is_accessibility_list(old(self).tree@, final(self).accessibility.nodes@),
            final(self).accessibility.focused_id == old(self).accessibility.focused_id,
            final(self).tree@ == old(self).tree@,
            final(self).measure_layout_on_next_render == old(self).measure_layout_on_next_render,
            final(self).events@ == old(self).events@,
            final(self).nodes_state == old(self).nodes_state,
            final(self).navigator_state == old(self).navigator_state,
            final(self).platform_information == old(self).platform_information,
    {
        accessibility::process_accessibility(&self.tree, &mut self.accessibility);
    }

    /// Send an event: it is put at the tail of the queue and the queue is
    /// processed. The navigation mode follows the kind of the event.
    pub fn send_event(&mut self, event: PlatformEvent) -> (dispatched: Vec<DomEvent>)
        ensures
            final(self).events@ == Seq::<PlatformEvent>::empty(),
            final(self).nodes_state == state_after_all(
                old(self).tree@,
                old(self).nodes_state,
                old(self).events@.push(event),
            ),
            dispatched@ == dom_events(
                old(self).tree@,
                old(self).nodes_state,
                old(self).events@.push(event),
            ),
            final(self).navigator_state.mode() == mode_after(
                old(self).navigator_state.mode(),
                event,
            ),
            final(self).tree@ == old(self).tree@,
            final(self).measure_layout_on_next_render == old(self).measure_layout_on_next_render,
            final(self).accessibility == old(self).accessibility,
            final(self).platform_information == old(self).platform_information,
    {
        if event.is_keyboard() {
            self.navigator_state.set(NavigationMode::Keyboard);
        } else if event.position().is_some() {
            self.navigator_state.set(NavigationMode::NotKeyboard);
        }
        self.events.push(event);
        self.process_events()
    }

    /// The visits of one frame, in paint order. Render the App into the
    /// window canvas by painting them one after the other.
    pub fn render(&self, hovered_node: Option<u64>) -> (items: Vec<RenderItem>)
        ensures
            is_paint_order(self.tree@, positions(items@)),
            forall|k: int|
                0 <= k < items.len() ==> is_visit_of(
                    self.tree@,
                    (#[trigger] items[k]).position as int,
                    hovered_node,
                    items[k],
                ),
    {
        self.start_render(hovered_node)
    }

    /// Resize the window: the geometry of the window takes the new size, and
    /// the next frame lays the tree out before it paints.
    pub fn resize(&mut self, size: PhysicalSize)
        ensures
            final(self).measure_layout_on_next_render,
            final(self).platform_information == resized(old(self).platform_information, size),
            final(self).tree@ == old(self).tree@,
            final(self).events@ == old(self).events@,
            final(self).nodes_state == old(self).nodes_state,
            final(self).accessibility == old(self).accessibility,
            final(self).navigator_state == old(self).navigator_state,
    {
        self.measure_layout_on_next_render = true;
        self.platform_information.set_window_size(size);
    }

    /// The window was moved: the geometry of the window takes the new
    /// position.
    pub fn moved(&mut self, position: PhysicalPosition)
        ensures
            final(self).platform_information.window_position == (Point2D {
                x: position.x,
                y: position.y,
            }),
            final(self).platform_information.window_size == old(self).platform_information.window_size,
            final(self).measure_layout_on_next_render == old(self).measure_layout_on_next_render,
            final(self).tree@ == old(self).tree@,
            final(self).events@ == old(self).events@,
            final(self).nodes_state == old(self).nodes_state,
            final(self).accessibility == old(self).accessibility,
            final(self).navigator_state == old(self).navigator_state,
    {
        self.platform_information.set_window_position(position);
    }

    /// The nodes of a group of text elements, by position in document order:
    /// those whose text is to be measured again. A group that no node
    /// belongs to any more gives none.
    pub fn measure_text_group(&self, text_id: u128) -> (group: Vec<usize>)
        ensures
            is_text_group(self.tree@, text_id, group@),
    {
        let count: usize = self.tree.len();
        let mut group: Vec<usize> = Vec::new();
        let mut i: usize = 0;
        while i < count
            invariant
                i <= count,
                count == self.tree@.len(),
                forall|k: int|
                    0 <= k < group.len() ==> #[trigger] group[k] < i && self.tree@[group[k] as int].text_group
                        == Some(text_id),
                forall|j: int, k: int|
                    0 <= j < k < group.len() ==> #[trigger] group[j] < #[trigger] group[k],
                forall|m: int|
                    0 <= m < i && self.tree@[m].text_group == Some(text_id) ==> #[trigger] occurs_in(
                        group@,
                        m,
                    ),
            decreases count - i,
        {
            let node: Node = self.tree.node(i);
            let member: bool = match node.text_group {
                Some(group_id) => group_id == text_id,
                None => false,
            };
            if member {
                let ghost before = group@;
                group.push(i);
                proof {
                    assert(group@[before.len() as int] == i);
                    assert forall|m: int|
                        0 <= m < i + 1 && self.tree@[m].text_group == Some(
                            text_id,
                        ) implies #[trigger] occurs_in(group@, m) by {
                        if m < i {
                            assert(occurs_in(before, m));
                            let x = choose|x: int| 0 <= x < before.len() && #[trigger] before[x] == m;
                            assert(group@[x] == m);
                        }
                    }
                }
            }
            i += 1;
        }
        group
    }

    /// Moves the focus to the next accessible node in `direction`, going
    /// round at the ends, and publishes the identity that has the focus
    /// afterwards. Returns it.
    pub fn focus_next_node(&mut self, direction: AccessibilityFocusDirection) -> (focused: u64)
        ensures
            final(self).accessibility.nodes == old(self).accessibility.nodes,
            final(self).accessibility.focused_id == next_focus(
                ids_of(old(self).accessibility.nodes@),
                old(self).accessibility.focused_id,
                direction,
            ),
            focused == final(self).accessibility.focused_id,
            final(self).tree@ == old(self).tree@,
            final(self).measure_layout_on_next_render == old(self).measure_layout_on_next_render,
            final(self).events@ == old(self).events@,
            final(self).nodes_state == old(self).nodes_state,
            final(self).navigator_state == old(self).navigator_state,
            final(self).platform_information == old(self).platform_information,
    {
        let focused: u64 = self.accessibility.set_focus_on_next_node(direction);
        let _ = watch_send(&self.focus_sender, focused);
        focused
    }

    /// Puts the focus on the accessible node of identity `id` and publishes
    /// it. An identity that the accessibility tree does not hold changes
    /// nothing and publishes nothing. Returns whether the tree holds it.
    pub fn focus_node(&mut self, id: u64) -> (found: bool)
        ensures
            final(self).accessibility.nodes == old(self).accessibility.nodes,
            found == ids_of(old(self).accessibility.nodes@).contains(id),
            final(self).accessibility.focused_id == if found {
                id
            } else {
                old(self).accessibility.focused_id
            },
            final(self).tree@ == old(self).tree@,
            final(self).measure_layout_on_next_render == old(self).measure_layout_on_next_render,
            final(self).events@ == old(self).events@,
            final(self).nodes_state == old(self).nodes_state,
            final(self).navigator_state == old(self).navigator_state,
            final(self).platform_information == old(self).platform_information,
    {
        let found: bool = self.accessibility.set_focus(id);
        if found {
            let _ = watch_send(&self.focus_sender, id);
        }
        found
    }

    /// Notify components subscribed to event loop ticks. A tick that nobody
    /// is subscribed to is given up.
    pub fn event_loop_tick(&self) {
        let _ = broadcast_send(&self.ticker_sender, ());
    }

    /// Update the navigation mode.
    pub fn set_navigation_mode(&mut self, mode: NavigationMode)
        ensures
            final(self).navigator_state.mode() == mode,
            final(self).tree@ == old(self).tree@,
            final(self).measure_layout_on_next_render == old(self).measure_layout_on_next_render,
            final(self).events@ == old(self).events@,
            final(self).nodes_state == old(self).nodes_state,
            final(self).accessibility == old(self).accessibility,
            final(self).platform_information == old(self).platform_information,
    {
        self.navigator_state.set(mode);
    }

    /// Starts a frame. Where a layout is pending, the accessibility tree,
    /// which describes the tree as it was laid out before, is emptied, and
    /// the area to lay the tree out in is returned: the whole window at the
    /// size that the host last reported. Where none is pending, nothing
    /// changes and `None` is returned: the tree is painted as it is. No layout
    /// is pending afterwards.
    pub fn on_redraw_requested(&mut self) -> (layout: Option<Area>)
        ensures
            layout == layout_plan(
                old(self).measure_layout_on_next_render,
                old(self).platform_information,
            ),
            !final(self).measure_layout_on_next_render,
            final(self).accessibility.focused_id == old(self).accessibility.focused_id,
            final(self).accessibility.nodes@ == if old(self).measure_layout_on_next_render {
                Seq::<AccessibilityNode>::empty()
            } else {
                old(self).accessibility.nodes@
            },
            final(self).tree@ == old(self).tree@,
            final(self).events@ == old(self).events@,
            final(self).nodes_state == old(self).nodes_state,
            final(self).navigator_state == old(self).navigator_state,
            final(self).platform_information == old(self).platform_information,
    {
        if self.measure_layout_on_next_render {
            self.measure_layout_on_next_render = false;
            self.accessibility.clear();
            Some(Area::from_size(self.platform_information.window_size))
        } else {
            None
        }
    }

    /// Whether the next frame must lay the tree out before it paints.
    pub fn needs_layout(&self) -> (needed: bool)
        ensures
            needed == self.measure_layout_on_next_render,
    {
        self.measure_layout_on_next_render
    }

    /// The area that a layout of a window of the given size fills.
    pub fn viewport(inner_size: PhysicalSize) -> (area: Area)
        ensures
            area == (Area {
                origin: Point2D { x: 0, y: 0 },
                size: Size2D { width: inner_size.width, height: inner_size.height },
            }),
    {
        Area::from_size(Size2D { width: inner_size.width, height: inner_size.height })
    }

    /// Takes in the areas that the layout engine measured, one for each node
    /// by position in document order. The accessibility tree is built anew
    /// from the measured tree, whoever waits for repaints is told, and no
    /// layout is pending any more.
    pub fn process_layout(&mut self, areas: &Vec<Area>)
        ensures
            final(self).tree@ == with_areas(old(self).tree@, areas@),
            is_accessibility_list(final(self).tree@, final(self).accessibility.nodes@),
            final(self).accessibility.focused_id == old(self).accessibility.focused_id,
            !final(self).measure_layout_on_next_render,
            final(self).events@ == old(self).events@,
            final(self).nodes_state == old(self).nodes_state,
            final(self).navigator_state == old(self).navigator_state,
            final(self).platform_information == old(self).platform_information,
    {
        self.accessibility.clear();
        self.tree.set_areas(areas);
        match &self.mutations_notifier {
            Some(mutations_notifier) => notify_one(mutations_notifier),
            None => {},
        }
        self.process_accessibility();
        self.measure_layout_on_next_render = false;
    }

    /// Start rendering the node tree: the visits of one frame, in paint
    /// order, each with the chain of nodes that its transform and opacity
    /// are accumulated along, and with the wireframe asked for on the hovered
    /// node and on no other.
    pub fn start_render(&self, hovered_node: Option<u64>) -> (items: Vec<RenderItem>)
        ensures
            is_paint_order(self.tree@, positions(items@)),
            forall|k: int|
                0 <= k < items.len() ==> is_visit_of(
                    self.tree@,
                    (#[trigger] items[k]).position as int,
                    hovered_node,
                    items[k],
                ),
    {
        render::process_render(&self.tree, hovered_node)
    }

    /// Takes in one message from the platform command channel and returns
    /// what the host is to do for it. The commands for the window are handed
    /// on as they are. A move of the focus is carried out here, and asks for a
    /// frame where the focus is on another node afterwards; a focus on an
    /// identity that is gone does nothing. A text group that no node belongs
    /// to any more is not measured. A move of the window is taken into the
    /// geometry of the window.
    pub fn handle_message(&mut self, message: EventMessage) -> (action: HostAction)
        ensures
            match message {
                EventMessage::UpdateTemplate(template) => action == HostAction::ReplaceTemplate(
                    template,
                ),
                EventMessage::PollVDOM => action == HostAction::Poll,
                EventMessage::RequestRerender => action == HostAction::RequestRedraw,
                EventMessage::RemeasureTextGroup(text_id) => match action {
                    HostAction::MeasureText(group) => group.len() > 0 && is_text_group(
                        old(self).tree@,
                        text_id,
                        group@,
                    ),
                    HostAction::Nothing => is_text_group(
                        old(self).tree@,
                        text_id,
                        Seq::<usize>::empty(),
                    ),
                    _ => false,
                },
                EventMessage::SetCursorIcon(icon) => action == HostAction::SetCursorIcon(icon),
                EventMessage::ActionRequestEvent(request) => action
                    == HostAction::AccessibilityAction(request),
                EventMessage::FocusAccessibilityNode(id) => action == if ids_of(
                    old(self).accessibility.nodes@,
                ).contains(id) && id != old(self).accessibility.focused_id {
                    HostAction::RequestRedraw
                } else {
                    HostAction::Nothing
                },
                EventMessage::FocusNextAccessibilityNode => action == if final(self).accessibility.focused_id != old(self).accessibility.focused_id {
                    HostAction::RequestRedraw
                } else {
                    HostAction::Nothing
                },
                EventMessage::FocusPrevAccessibilityNode => action == if final(self).accessibility.focused_id != old(self).accessibility.focused_id {
                    HostAction::RequestRedraw
                } else {
                    HostAction::Nothing
                },
                EventMessage::DragWindow => action == HostAction::DragWindow,
                EventMessage::DragResizeWindow(direction) => action == HostAction::DragResizeWindow(
                    direction,
                ),
                EventMessage::SetWindowSize(size) => action == HostAction::SetWindowSize(size),
                EventMessage::SetWindowPosition(position) => action
                    == HostAction::SetWindowPosition(position),
                EventMessage::SetWindowSizeAndPosition(size, position) => action
                    == HostAction::SetWindowSizeAndPosition(size, position),
                EventMessage::WindowMoved(_) => action == HostAction::Nothing,
                EventMessage::ExitApp => action == HostAction::Exit,
            },
            final(self).accessibility.nodes == old(self).accessibility.nodes,
            final(self).accessibility.focused_id == match message {
                EventMessage::FocusAccessibilityNode(id) => if ids_of(
                    old(self).accessibility.nodes@,
                ).contains(id) {
                    id
                } else {
                    old(self).accessibility.focused_id
                },
                EventMessage::FocusNextAccessibilityNode => next_focus(
                    ids_of(old(self).accessibility.nodes@),
                    old(self).accessibility.focused_id,
                    AccessibilityFocusDirection::Forward,
                ),
                EventMessage::FocusPrevAccessibilityNode => next_focus(
                    ids_of(old(self).accessibility.nodes@),
                    old(self).accessibility.focused_id,
                    AccessibilityFocusDirection::Backward,
                ),
                _ => old(self).accessibility.focused_id,
            },
            final(self).platform_information == match message {
                EventMessage::WindowMoved(data) => PlatformInformation {
                    window_position: Point2D { x: data.spec_x() as i32, y: data.spec_y() as i32 },
                    ..old(self).platform_information
                },
                _ => old(self).platform_information,
            },
            final(self).tree@ == old(self).tree@,
            final(self).measure_layout_on_next_render == old(self).measure_layout_on_next_render,
            final(self).events@ == old(self).events@,
            final(self).nodes_state == old(self).nodes_state,
            final(self).navigator_state == old(self).navigator_state,
    {
        match message {
            EventMessage::UpdateTemplate(template) => HostAction::ReplaceTemplate(template),
            EventMessage::PollVDOM => HostAction::Poll,
            EventMessage::RequestRerender => HostAction::RequestRedraw,
            EventMessage::RemeasureTextGroup(text_id) => {
                let group: Vec<usize> = self.measure_text_group(text_id);
                if group.len() == 0 {
                    assert(group@ =~= Seq::<usize>::empty());
                    HostAction::Nothing
                } else {
                    HostAction::MeasureText(group)
                }
            },
            EventMessage::SetCursorIcon(icon) => HostAction::SetCursorIcon(icon),
            EventMessage::ActionRequestEvent(request) => HostAction::AccessibilityAction(request),
            EventMessage::FocusAccessibilityNode(id) => {
                let before: u64 = self.accessibility.focused_id;
                let found: bool = self.focus_node(id);
                if found && id != before {
                    HostAction::RequestRedraw
                } else {
                    HostAction::Nothing
                }
            },
            EventMessage::FocusNextAccessibilityNode => {
                let before: u64 = self.accessibility.focused_id;
                let focused: u64 = self.focus_next_node(AccessibilityFocusDirection::Forward);
                if focused != before {
                    HostAction::RequestRedraw
                } else {
                    HostAction::Nothing
                }
            },
            EventMessage::FocusPrevAccessibilityNode => {
                let before: u64 = self.accessibility.focused_id;
                let focused: u64 = self.focus_next_node(AccessibilityFocusDirection::Backward);
                if focused != before {
                    HostAction::RequestRedraw
                } else {
                    HostAction::Nothing
                }
            },
            EventMessage::DragWindow => HostAction::DragWindow,
            EventMessage::DragResizeWindow(direction) => HostAction::DragResizeWindow(direction),
            EventMessage::SetWindowSize(size) => HostAction::SetWindowSize(size),
            EventMessage::SetWindowPosition(position) => HostAction::SetWindowPosition(position),
            EventMessage::SetWindowSizeAndPosition(size, position) => {
                HostAction::SetWindowSizeAndPosition(size, position)
            },
            EventMessage::WindowMoved(data) => {
                self.moved(PhysicalPosition { x: data.get_x(), y: data.get_y() });
                HostAction::Nothing
            },
            EventMessage::ExitApp => HostAction::Exit,
        }
    }

    /// Asks the host to close the app. A host that is gone is not asked.
    pub fn shutdown(&self) {
        self.platform.exit();
    }
}

} // verus!
