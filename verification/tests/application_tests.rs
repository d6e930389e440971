use freya_host::accessibility::{
    AccessibilityFocusDirection, NavigationMode, ACCESSIBILITY_ROOT_ID,
};
use freya_host::application::{Application, HostAction, PollOutcome, PollStep};
use freya_host::dispatch::{NodesState, PlatformEvent};
use freya_host::geometry::{Area, PhysicalPosition, PhysicalSize, Point2D, Size2D};
use freya_host::mutations::Mutation;
use freya_host::platform::{EventMessage, Transport};
use futures_util::FutureExt;
use std::sync::Arc;
use tokio::sync::mpsc::unbounded_channel;
use tokio::sync::Notify;

fn area(x: i32, y: i32, width: u32, height: u32) -> Area {
    Area { origin: Point2D { x, y }, size: Size2D { width, height } }
}

fn node(parent: Option<u64>, id: u64, accessibility_id: Option<u64>) -> Mutation {
    Mutation::AppendChild { parent, id, layer: 0, accessibility_id, text_group: None }
}

fn text(parent: u64, id: u64, group: u128) -> Mutation {
    Mutation::AppendChild {
        parent: Some(parent),
        id,
        layer: 0,
        accessibility_id: None,
        text_group: Some(group),
    }
}

fn fresh() -> Application {
    Application::new(
        None,
        None,
        None,
        PhysicalSize { width: 800, height: 600 },
        PhysicalPosition { x: 10, y: 20 },
        vec![String::from("Fira Sans")],
    )
}

/// Node 1 fills the window; node 2 (accessible as 20) its left half; node 3
/// (accessible as 30) its right half.
fn started() -> Application {
    let mut app = fresh();
    app.init_doms(&vec![node(None, 1, None), node(Some(1), 2, Some(20)), node(Some(1), 3, Some(30))]);
    assert!(app.on_redraw_requested().is_some());
    app.process_layout(&vec![area(0, 0, 800, 600), area(0, 0, 400, 600), area(400, 0, 400, 600)]);
    app
}

#[test]
fn a_new_application_is_blank() {
    let app = fresh();
    assert_eq!(app.tree.len(), 0);
    assert_eq!(app.events.len(), 0);
    assert_eq!(app.nodes_state, NodesState { hovered: None, captured: None });
    assert!(app.accessibility.nodes.is_empty());
    assert_eq!(app.accessibility.focused_id, ACCESSIBILITY_ROOT_ID);
    assert_eq!(*app.focus_receiver.borrow(), ACCESSIBILITY_ROOT_ID);
    assert_eq!(app.navigator_state.get(), NavigationMode::NotKeyboard);
    assert!(!app.needs_layout());
    assert_eq!(app.platform_information.window_size, Size2D { width: 800, height: 600 });
    assert_eq!(app.platform_information.window_position, Point2D { x: 10, y: 20 });
    assert_eq!(app.default_fonts, vec![String::from("Fira Sans")]);
    assert_eq!(app.platform.transport(), Transport::Detached);
    assert!(app.mutations_notifier.is_none());
}

#[test]
fn the_first_build_asks_for_a_layout() {
    let mut app = fresh();
    app.init_doms(&vec![node(None, 1, None), node(Some(1), 2, None)]);
    assert_eq!(app.tree.len(), 2);
    assert!(app.needs_layout());
    assert_eq!(app.on_redraw_requested(), Some(area(0, 0, 800, 600)));
}

#[test]
fn a_pending_poll_ends_the_turn() {
    let mut app = started();
    let step = app.poll_vdom(&PollOutcome::Pending);
    assert_eq!(step, PollStep { request_redraw: false, poll_again: false });
    assert!(!app.needs_layout());
    assert_eq!(app.tree.len(), 3);
}

#[test]
fn a_ready_poll_applies_and_polls_again() {
    let mut app = started();
    let step = app.poll_vdom(&PollOutcome::Ready(vec![Mutation::SetPaintAttribute { id: 2 }]));
    assert_eq!(step, PollStep { request_redraw: true, poll_again: true });
    assert!(!app.needs_layout());
    let step = app.poll_vdom(&PollOutcome::Ready(vec![]));
    assert_eq!(step, PollStep { request_redraw: false, poll_again: true });
    assert!(!app.needs_layout());
    let step = app.poll_vdom(&PollOutcome::Ready(vec![node(Some(3), 4, None)]));
    assert_eq!(step, PollStep { request_redraw: true, poll_again: true });
    assert!(app.needs_layout());
    assert_eq!(app.tree.len(), 4);
    let step = app.poll_vdom(&PollOutcome::Ready(vec![Mutation::SetPaintAttribute { id: 2 }]));
    assert_eq!(step, PollStep { request_redraw: true, poll_again: true });
    assert!(app.needs_layout());
}

#[test]
fn apply_vdom_changes_reports_the_flags() {
    let mut app = started();
    assert_eq!(app.apply_vdom_changes(&vec![]), (false, false));
    assert_eq!(app.apply_vdom_changes(&vec![Mutation::SetText { id: 2 }]), (true, true));
    assert_eq!(app.apply_vdom_changes(&vec![Mutation::SetPaintAttribute { id: 2 }]), (true, false));
    assert!(!app.needs_layout());
}

#[test]
fn a_repaint_is_notified() {
    let notifier = Arc::new(Notify::new());
    let mut app = Application::new(
        None,
        None,
        Some(notifier.clone()),
        PhysicalSize { width: 1, height: 1 },
        PhysicalPosition { x: 0, y: 0 },
        vec![],
    );
    assert!(notifier.notified().now_or_never().is_none());
    assert_eq!(app.apply_vdom_changes(&vec![]), (false, false));
    assert_eq!(app.apply_vdom_changes(&vec![Mutation::SetText { id: 9 }]), (false, false));
    assert!(notifier.notified().now_or_never().is_none());
    assert_eq!(
        app.apply_vdom_changes(&vec![node(None, 1, None), node(Some(1), 2, None)]),
        (true, true)
    );
    assert!(notifier.notified().now_or_never().is_some());
    assert!(notifier.notified().now_or_never().is_none());
    assert_eq!(app.apply_vdom_changes(&vec![Mutation::SetPaintAttribute { id: 2 }]), (true, false));
    assert!(notifier.notified().now_or_never().is_some());
    app.process_layout(&vec![area(0, 0, 1, 1)]);
    assert!(notifier.notified().now_or_never().is_some());
    assert!(notifier.notified().now_or_never().is_none());
    assert_eq!(app.tree.node(0).area, area(0, 0, 1, 1));
}

#[test]
fn window_commands_are_handed_on() {
    let mut app = started();
    assert!(matches!(app.handle_message(EventMessage::PollVDOM), HostAction::Poll));
    assert!(matches!(app.handle_message(EventMessage::RequestRerender), HostAction::RequestRedraw));
    assert!(matches!(app.handle_message(EventMessage::DragWindow), HostAction::DragWindow));
    assert!(matches!(app.handle_message(EventMessage::ExitApp), HostAction::Exit));
    assert!(matches!(
        app.handle_message(EventMessage::SetCursorIcon(winit::window::CursorIcon::Text)),
        HostAction::SetCursorIcon(winit::window::CursorIcon::Text)
    ));
    assert!(matches!(
        app.handle_message(EventMessage::DragResizeWindow(winit::window::ResizeDirection::North)),
        HostAction::DragResizeWindow(winit::window::ResizeDirection::North)
    ));
    assert!(matches!(
        app.handle_message(EventMessage::SetWindowSize(Size2D { width: 3, height: 4 })),
        HostAction::SetWindowSize(Size2D { width: 3, height: 4 })
    ));
    assert!(matches!(
        app.handle_message(EventMessage::SetWindowPosition(Point2D { x: 5, y: 6 })),
        HostAction::SetWindowPosition(Point2D { x: 5, y: 6 })
    ));
    assert!(matches!(
        app.handle_message(EventMessage::SetWindowSizeAndPosition(
            Size2D { width: 3, height: 4 },
            Point2D { x: 5, y: 6 }
        )),
        HostAction::SetWindowSizeAndPosition(Size2D { width: 3, height: 4 }, Point2D { x: 5, y: 6 })
    ));
    let request = accesskit::ActionRequest {
        action: accesskit::Action::Default,
        target: accesskit::NodeId(20),
        data: None,
    };
    let event = accesskit_winit::ActionRequestEvent {
        window_id: winit::window::WindowId::from(1),
        request: request.clone(),
    };
    assert!(matches!(
        app.handle_message(EventMessage::ActionRequestEvent(event)),
        HostAction::AccessibilityAction(inner) if inner.request == request
    ));
    assert_eq!(app.tree.len(), 3);
    assert_eq!(app.accessibility.focused_id, ACCESSIBILITY_ROOT_ID);
    assert_eq!(app.platform_information.window_size, Size2D { width: 800, height: 600 });
    assert!(!app.needs_layout());
}

#[test]
fn focus_commands_move_the_focus() {
    let mut app = started();
    assert!(matches!(
        app.handle_message(EventMessage::FocusNextAccessibilityNode),
        HostAction::RequestRedraw
    ));
    assert_eq!(app.accessibility.focused_id, 30);
    assert!(matches!(
        app.handle_message(EventMessage::FocusPrevAccessibilityNode),
        HostAction::RequestRedraw
    ));
    assert_eq!(app.accessibility.focused_id, 20);
    assert!(matches!(
        app.handle_message(EventMessage::FocusAccessibilityNode(99)),
        HostAction::Nothing
    ));
    assert_eq!(app.accessibility.focused_id, 20);
    assert!(matches!(
        app.handle_message(EventMessage::FocusAccessibilityNode(20)),
        HostAction::Nothing
    ));
    assert!(matches!(
        app.handle_message(EventMessage::FocusAccessibilityNode(30)),
        HostAction::RequestRedraw
    ));
    assert_eq!(*app.focus_receiver.borrow(), 30);
    let mut blank = fresh();
    assert!(matches!(
        blank.handle_message(EventMessage::FocusNextAccessibilityNode),
        HostAction::Nothing
    ));
    assert_eq!(blank.accessibility.focused_id, ACCESSIBILITY_ROOT_ID);
}

#[test]
fn a_text_group_that_is_gone_is_not_measured() {
    let mut app = started();
    app.apply_vdom_changes(&vec![text(2, 4, 7)]);
    assert!(matches!(
        app.handle_message(EventMessage::RemeasureTextGroup(7)),
        HostAction::MeasureText(positions) if positions == vec![2]
    ));
    app.apply_vdom_changes(&vec![Mutation::Remove { id: 4 }]);
    assert!(matches!(
        app.handle_message(EventMessage::RemeasureTextGroup(7)),
        HostAction::Nothing
    ));
}

#[test]
fn a_window_moved_message_updates_the_geometry() {
    let mut app = started();
    let moved = freya_host::events::window_moved::WindowMovedData::new(-40, 15);
    assert!(matches!(app.handle_message(EventMessage::WindowMoved(moved)), HostAction::Nothing));
    assert_eq!(app.platform_information.window_position, Point2D { x: -40, y: 15 });
    assert_eq!(app.platform_information.window_size, Size2D { width: 800, height: 600 });
}

#[test]
fn resize_is_laid_out_once_at_the_new_size() {
    let mut app = started();
    assert_eq!(app.on_redraw_requested(), None);
    app.resize(PhysicalSize { width: 1024, height: 768 });
    assert!(app.needs_layout());
    assert_eq!(app.platform_information.window_size, Size2D { width: 1024, height: 768 });
    assert_eq!(app.platform_information.window_position, Point2D { x: 10, y: 20 });
    assert_eq!(app.on_redraw_requested(), Some(area(0, 0, 1024, 768)));
    assert_eq!(app.on_redraw_requested(), None);
    assert!(!app.needs_layout());
}

#[test]
fn a_move_changes_the_position_only() {
    let mut app = started();
    app.moved(PhysicalPosition { x: -3, y: 7 });
    assert_eq!(app.platform_information.window_position, Point2D { x: -3, y: 7 });
    assert_eq!(app.platform_information.window_size, Size2D { width: 800, height: 600 });
    assert!(!app.needs_layout());
}

#[test]
fn a_pending_layout_empties_the_accessibility_tree() {
    let mut app = started();
    assert_eq!(app.accessibility.nodes.len(), 2);
    assert_eq!(app.on_redraw_requested(), None);
    assert_eq!(app.accessibility.nodes.len(), 2);
    app.resize(PhysicalSize { width: 10, height: 10 });
    assert!(app.on_redraw_requested().is_some());
    assert!(app.accessibility.nodes.is_empty());
    app.process_layout(&vec![area(0, 0, 10, 10), area(0, 0, 5, 10), area(5, 0, 5, 10)]);
    assert_eq!(app.accessibility.nodes.len(), 2);
    assert_eq!(app.accessibility.nodes[0].area, area(5, 0, 5, 10));
}

#[test]
fn viewport_is_the_whole_window() {
    assert_eq!(
        Application::viewport(PhysicalSize { width: 30, height: 40 }),
        area(0, 0, 30, 40)
    );
}

#[test]
fn layout_rebuilds_the_accessibility_tree() {
    let mut app = started();
    let listed: Vec<u64> = app.accessibility.nodes.iter().map(|n| n.id).collect();
    assert_eq!(listed, vec![30, 20]);
    assert_eq!(app.accessibility.nodes[0].area, area(400, 0, 400, 600));
    assert_eq!(app.accessibility.nodes[1].parent, ACCESSIBILITY_ROOT_ID);
    assert_eq!(app.apply_vdom_changes(&vec![Mutation::Remove { id: 3 }]), (true, true));
    app.process_layout(&vec![area(0, 0, 800, 600), area(0, 0, 800, 600)]);
    let listed: Vec<u64> = app.accessibility.nodes.iter().map(|n| n.id).collect();
    assert_eq!(listed, vec![20]);
    assert_eq!(app.accessibility.nodes[0].area, area(0, 0, 800, 600));
    assert!(!app.needs_layout());
}

#[test]
fn hover_then_redraw_flags_the_hovered_node() {
    let mut app = started();
    let forwarded = app.send_event(PlatformEvent::PointerMove { position: Point2D { x: 500, y: 5 } });
    assert_eq!(forwarded.len(), 1);
    assert_eq!(forwarded[0].target, Some(3));
    assert_eq!(app.nodes_state.hovered, Some(3));
    assert_eq!(app.on_redraw_requested(), None);
    let items = app.render(app.nodes_state.hovered);
    let flagged: Vec<u64> =
        items.iter().filter(|item| item.wireframe).map(|item| item.node_id).collect();
    assert_eq!(flagged, vec![3]);
    assert_eq!(items.len(), 3);
    let items = app.start_render(None);
    assert!(items.iter().all(|item| !item.wireframe));
}

#[test]
fn sent_events_reach_the_channel_of_the_virtual_tree() {
    let mut app = started();
    app.events.push(PlatformEvent::KeyDown { code: 4 });
    let forwarded = app.send_event(PlatformEvent::PointerDown { position: Point2D { x: 1, y: 1 } });
    assert_eq!(forwarded.len(), 2);
    assert_eq!(app.events.len(), 0);
    let first = app.event_receiver.try_recv().unwrap();
    let second = app.event_receiver.try_recv().unwrap();
    assert_eq!(first, forwarded[0]);
    assert_eq!(second, forwarded[1]);
    assert_eq!(first.event, PlatformEvent::KeyDown { code: 4 });
    assert_eq!(second.target, Some(2));
    assert!(app.event_receiver.try_recv().is_err());
    assert!(app.process_events().is_empty());
    assert!(app.event_receiver.try_recv().is_err());
}

#[test]
fn the_navigation_mode_follows_the_input() {
    let mut app = started();
    app.send_event(PlatformEvent::KeyDown { code: 9 });
    assert_eq!(app.navigator_state.get(), NavigationMode::Keyboard);
    app.send_event(PlatformEvent::WindowMoved(
        freya_host::events::window_moved::WindowMovedData::new(1, 1),
    ));
    assert_eq!(app.navigator_state.get(), NavigationMode::Keyboard);
    app.send_event(PlatformEvent::PointerMove { position: Point2D { x: 1, y: 1 } });
    assert_eq!(app.navigator_state.get(), NavigationMode::NotKeyboard);
    app.set_navigation_mode(NavigationMode::Keyboard);
    assert_eq!(app.navigator_state.get(), NavigationMode::Keyboard);
    app.send_event(PlatformEvent::Wheel {
        position: Point2D { x: 1, y: 1 },
        scroll: Point2D { x: 0, y: 1 },
    });
    assert_eq!(app.navigator_state.get(), NavigationMode::NotKeyboard);
}

#[test]
fn focus_is_published() {
    let mut app = started();
    let contexts = app.provide_vdom_contexts();
    assert_eq!(*contexts.focus_receiver.borrow(), ACCESSIBILITY_ROOT_ID);
    assert_eq!(app.focus_next_node(AccessibilityFocusDirection::Forward), 30);
    assert_eq!(*contexts.focus_receiver.borrow(), 30);
    assert_eq!(app.focus_next_node(AccessibilityFocusDirection::Forward), 20);
    assert_eq!(app.focus_next_node(AccessibilityFocusDirection::Forward), 30);
    assert_eq!(app.focus_next_node(AccessibilityFocusDirection::Backward), 20);
    assert_eq!(*app.focus_receiver.borrow(), 20);
    assert!(!app.focus_node(99));
    assert_eq!(app.accessibility.focused_id, 20);
    assert_eq!(*app.focus_receiver.borrow(), 20);
    assert!(app.focus_node(30));
    assert_eq!(*contexts.focus_receiver.borrow(), 30);
}

#[test]
fn contexts_carry_the_state_of_the_moment() {
    let mut app = started();
    app.set_navigation_mode(NavigationMode::Keyboard);
    app.resize(PhysicalSize { width: 5, height: 6 });
    let contexts = app.provide_vdom_contexts();
    assert_eq!(contexts.navigator_state.get(), NavigationMode::Keyboard);
    assert_eq!(contexts.platform_information, app.platform_information);
    assert_eq!(contexts.platform_information.window_size, Size2D { width: 5, height: 6 });
}

#[test]
fn ticks_reach_the_subscribers() {
    let app = started();
    let mut contexts = app.provide_vdom_contexts();
    let mut ticker = app.platform.new_ticker();
    assert!(contexts.ticker.try_recv().is_err());
    app.event_loop_tick();
    assert_eq!(contexts.ticker.try_recv(), Ok(()));
    assert_eq!(ticker.inner.try_recv(), Ok(()));
    assert!(ticker.inner.try_recv().is_err());
}

#[test]
fn a_text_group_is_found_by_its_identity() {
    let mut app = started();
    app.apply_vdom_changes(&vec![text(2, 4, 7), text(3, 5, 8), text(3, 6, 7)]);
    // Document order is now 1, 2, 4, 3, 5, 6.
    assert_eq!(app.measure_text_group(7), vec![2, 5]);
    assert_eq!(app.measure_text_group(8), vec![4]);
    assert_eq!(app.measure_text_group(9), Vec::<usize>::new());
    app.apply_vdom_changes(&vec![Mutation::Remove { id: 2 }]);
    assert_eq!(app.measure_text_group(7), vec![3]);
}

#[test]
fn shutdown_asks_the_host_to_exit() {
    let (emitter, mut receiver) = unbounded_channel::<EventMessage>();
    let app = Application::new(
        None,
        Some(emitter),
        None,
        PhysicalSize { width: 1, height: 1 },
        PhysicalPosition { x: 0, y: 0 },
        vec![],
    );
    assert_eq!(app.platform.transport(), Transport::Emitter);
    app.shutdown();
    assert!(matches!(receiver.try_recv(), Ok(EventMessage::ExitApp)));
    drop(receiver);
    app.shutdown();
    fresh().shutdown();
}
