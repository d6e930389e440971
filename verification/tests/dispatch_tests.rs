use freya_host::dispatch::{
    dispatch, find_hit, find_node_at, process_events, DomEvent, EventsQueue, NodesState,
    PlatformEvent,
};
use freya_host::events::window_moved::WindowMovedData;
use freya_host::geometry::{Area, Point2D, Size2D};
use freya_host::tree::NodeTree;

fn area(x: i32, y: i32, width: u32, height: u32) -> Area {
    Area { origin: Point2D { x, y }, size: Size2D { width, height } }
}

fn at(x: i32, y: i32) -> Point2D {
    Point2D { x, y }
}

/// A window of 100 x 100 (node 1) with node 2 on its left half and node 3,
/// a child of 2, in the top left corner.
fn laid_out() -> NodeTree {
    let mut tree = NodeTree::new();
    assert!(tree.append_child(None, 1, 0, None, None));
    assert!(tree.append_child(Some(1), 2, 0, None, None));
    assert!(tree.append_child(Some(2), 3, 0, None, None));
    tree.set_areas(&vec![area(0, 0, 100, 100), area(0, 0, 50, 100), area(0, 0, 10, 10)]);
    tree
}

#[test]
fn events_are_forwarded_in_the_order_pushed() {
    let tree = laid_out();
    let mut queue = EventsQueue::new();
    let pushed = vec![
        PlatformEvent::KeyDown { code: 1 },
        PlatformEvent::PointerMove { position: at(5, 5) },
        PlatformEvent::KeyUp { code: 1 },
        PlatformEvent::Wheel { position: at(60, 60), scroll: at(0, -3) },
        PlatformEvent::WindowMoved(WindowMovedData::new(3, 4)),
        PlatformEvent::PointerDown { position: at(20, 20) },
        PlatformEvent::PointerUp { position: at(20, 20) },
        PlatformEvent::KeyDown { code: 2 },
    ];
    for event in &pushed {
        queue.push(*event);
    }
    assert_eq!(queue.len(), pushed.len());
    let mut state = NodesState::new();
    let forwarded = process_events(&tree, &mut queue, &mut state);
    let events: Vec<PlatformEvent> = forwarded.iter().map(|e| e.event).collect();
    assert_eq!(events, pushed);
    assert_eq!(queue.len(), 0);
    let targets: Vec<Option<u64>> = forwarded.iter().map(|e| e.target).collect();
    assert_eq!(targets, vec![None, Some(3), None, Some(1), None, Some(2), Some(2), None]);
    let bubbles: Vec<bool> = forwarded.iter().map(|e| e.bubbles).collect();
    assert_eq!(bubbles, vec![false, true, false, true, false, true, true, false]);
}

#[test]
fn an_empty_queue_forwards_nothing() {
    let tree = laid_out();
    let mut queue = EventsQueue::new();
    let mut state = NodesState { hovered: Some(2), captured: Some(3) };
    assert!(process_events(&tree, &mut queue, &mut state).is_empty());
    assert_eq!(state, NodesState { hovered: Some(2), captured: Some(3) });
}

#[test]
fn drain_hands_the_events_out_oldest_first() {
    let mut queue = EventsQueue::new();
    queue.push(PlatformEvent::KeyDown { code: 1 });
    queue.push(PlatformEvent::KeyDown { code: 2 });
    assert_eq!(
        queue.drain(),
        vec![PlatformEvent::KeyDown { code: 1 }, PlatformEvent::KeyDown { code: 2 }]
    );
    assert_eq!(queue.len(), 0);
    assert!(queue.drain().is_empty());
}

#[test]
fn pointer_move_sets_the_hovered_node() {
    let tree = laid_out();
    let mut state = NodesState::new();
    let event = dispatch(&tree, &mut state, PlatformEvent::PointerMove { position: at(30, 30) });
    assert_eq!(state.hovered, Some(2));
    assert_eq!(event.target, Some(2));
    dispatch(&tree, &mut state, PlatformEvent::PointerMove { position: at(99, 99) });
    assert_eq!(state.hovered, Some(1));
    dispatch(&tree, &mut state, PlatformEvent::PointerMove { position: at(100, 100) });
    assert_eq!(state.hovered, None);
    assert_eq!(state.captured, None);
}

#[test]
fn keyboard_events_leave_the_state_alone() {
    let tree = laid_out();
    let mut state = NodesState { hovered: Some(3), captured: Some(2) };
    let event = dispatch(&tree, &mut state, PlatformEvent::KeyDown { code: 9 });
    assert_eq!(
        event,
        DomEvent { event: PlatformEvent::KeyDown { code: 9 }, target: None, bubbles: false }
    );
    assert_eq!(state, NodesState { hovered: Some(3), captured: Some(2) });
}

#[test]
fn the_pressed_node_holds_the_pointer_until_release() {
    let tree = laid_out();
    let mut state = NodesState::new();
    let down = dispatch(&tree, &mut state, PlatformEvent::PointerDown { position: at(5, 5) });
    assert_eq!(down.target, Some(3));
    assert_eq!(state.captured, Some(3));
    let moved = dispatch(&tree, &mut state, PlatformEvent::PointerMove { position: at(80, 80) });
    assert_eq!(moved.target, Some(3));
    assert_eq!(state.hovered, Some(1));
    let wheel = dispatch(
        &tree,
        &mut state,
        PlatformEvent::Wheel { position: at(80, 80), scroll: at(1, 1) },
    );
    assert_eq!(wheel.target, Some(1));
    let up = dispatch(&tree, &mut state, PlatformEvent::PointerUp { position: at(80, 80) });
    assert_eq!(up.target, Some(3));
    assert_eq!(state.captured, None);
    let up = dispatch(&tree, &mut state, PlatformEvent::PointerUp { position: at(80, 80) });
    assert_eq!(up.target, Some(1));
}

#[test]
fn the_node_that_paints_last_is_hit() {
    let mut tree = laid_out();
    assert_eq!(find_hit(&tree, at(5, 5)), Some(2));
    assert_eq!(find_node_at(&tree, at(5, 5)), Some(3));
    assert!(tree.set_layer(2, 4));
    assert_eq!(find_hit(&tree, at(5, 5)), Some(1));
    assert_eq!(find_node_at(&tree, at(5, 5)), Some(2));
    assert!(tree.set_layer(3, 4));
    assert_eq!(find_node_at(&tree, at(5, 5)), Some(3));
    assert_eq!(find_hit(&tree, at(-1, 5)), None);
    assert_eq!(find_node_at(&NodeTree::new(), at(0, 0)), None);
}

#[test]
fn positions_and_kinds_of_events() {
    assert_eq!(PlatformEvent::PointerMove { position: at(1, 2) }.position(), Some(at(1, 2)));
    assert_eq!(PlatformEvent::PointerDown { position: at(1, 2) }.position(), Some(at(1, 2)));
    assert_eq!(PlatformEvent::PointerUp { position: at(1, 2) }.position(), Some(at(1, 2)));
    assert_eq!(
        PlatformEvent::Wheel { position: at(1, 2), scroll: at(3, 4) }.position(),
        Some(at(1, 2))
    );
    assert_eq!(PlatformEvent::KeyDown { code: 1 }.position(), None);
    assert_eq!(PlatformEvent::WindowMoved(WindowMovedData::new(1, 2)).position(), None);
    assert!(PlatformEvent::KeyDown { code: 1 }.is_keyboard());
    assert!(PlatformEvent::KeyUp { code: 1 }.is_keyboard());
    assert!(!PlatformEvent::PointerMove { position: at(1, 2) }.is_keyboard());
    assert!(!PlatformEvent::WindowMoved(WindowMovedData::new(1, 2)).is_keyboard());
}
