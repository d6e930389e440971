use freya_host::events::window_moved::WindowMovedData;
use freya_host::geometry::{Area, Point2D, Size2D};
use freya_host::mutations::{apply, apply_one, changes_layout, Mutation};
use freya_host::tree::NodeTree;

fn append(tree: &mut NodeTree, parent: Option<u64>, id: u64) -> bool {
    tree.append_child(parent, id, 0, None, None)
}

/// root 1 with children 2 (children 4, 5) and 3.
fn sample() -> NodeTree {
    let mut tree = NodeTree::new();
    assert!(append(&mut tree, None, 1));
    assert!(append(&mut tree, Some(1), 2));
    assert!(append(&mut tree, Some(1), 3));
    assert!(append(&mut tree, Some(2), 4));
    assert!(append(&mut tree, Some(2), 5));
    tree
}

fn ids(tree: &NodeTree) -> Vec<u64> {
    (0..tree.len()).map(|i| tree.node(i).id).collect()
}

fn depths(tree: &NodeTree) -> Vec<usize> {
    (0..tree.len()).map(|i| tree.node(i).depth).collect()
}

#[test]
fn window_moved_keeps_its_coordinates() {
    let data = WindowMovedData::new(-7, 42);
    assert_eq!(data.get_x(), -7);
    assert_eq!(data.get_y(), 42);
    assert_eq!(data, WindowMovedData::new(-7, 42));
    assert_ne!(data, WindowMovedData::new(42, -7));
}

#[test]
fn window_moved_takes_the_extremes() {
    let data = WindowMovedData::new(i32::MIN, i32::MAX);
    assert_eq!(data.get_x(), i32::MIN);
    assert_eq!(data.get_y(), i32::MAX);
}

#[test]
fn area_holds_its_left_and_top_edge_only() {
    let area = Area { origin: Point2D { x: 10, y: 20 }, size: Size2D { width: 5, height: 2 } };
    assert!(area.contains(Point2D { x: 10, y: 20 }));
    assert!(area.contains(Point2D { x: 14, y: 21 }));
    assert!(!area.contains(Point2D { x: 15, y: 21 }));
    assert!(!area.contains(Point2D { x: 14, y: 22 }));
    assert!(!area.contains(Point2D { x: 9, y: 20 }));
    assert!(!area.contains(Point2D { x: 10, y: 19 }));
}

#[test]
fn area_at_the_limits_does_not_overflow() {
    let area = Area {
        origin: Point2D { x: i32::MAX, y: i32::MAX },
        size: Size2D { width: u32::MAX, height: u32::MAX },
    };
    assert!(area.contains(Point2D { x: i32::MAX, y: i32::MAX }));
    assert!(!area.contains(Point2D { x: i32::MIN, y: i32::MIN }));
    let empty = Area { origin: Point2D { x: 0, y: 0 }, size: Size2D { width: 0, height: 0 } };
    assert!(!empty.contains(Point2D { x: 0, y: 0 }));
}

#[test]
fn area_from_size_starts_at_the_origin() {
    let area = Area::from_size(Size2D { width: 800, height: 600 });
    assert_eq!(area.origin, Point2D { x: 0, y: 0 });
    assert_eq!(area.size, Size2D { width: 800, height: 600 });
}

#[test]
fn children_are_appended_in_document_order() {
    let tree = sample();
    assert_eq!(ids(&tree), vec![1, 2, 4, 5, 3]);
    assert_eq!(depths(&tree), vec![0, 1, 2, 2, 1]);
}

#[test]
fn a_second_root_and_an_unknown_parent_are_refused() {
    let mut tree = sample();
    assert!(!append(&mut tree, None, 9));
    assert!(!append(&mut tree, Some(77), 9));
    assert_eq!(ids(&tree), vec![1, 2, 4, 5, 3]);
}

#[test]
fn index_of_finds_the_first_node_of_an_identity() {
    let mut tree = sample();
    assert!(append(&mut tree, Some(3), 4));
    assert_eq!(tree.index_of(4), Some(2));
    assert_eq!(tree.index_of(3), Some(4));
    assert_eq!(tree.index_of(99), None);
}

#[test]
fn a_subtree_ends_before_the_next_node_that_is_not_deeper() {
    let tree = sample();
    assert_eq!(tree.end_of_subtree(0), 5);
    assert_eq!(tree.end_of_subtree(1), 4);
    assert_eq!(tree.end_of_subtree(2), 3);
    assert_eq!(tree.end_of_subtree(4), 5);
}

#[test]
fn remove_takes_the_descendants_along() {
    let mut tree = sample();
    assert!(tree.remove(2));
    assert_eq!(ids(&tree), vec![1, 3]);
    assert_eq!(depths(&tree), vec![0, 1]);
    assert!(!tree.remove(2));
    assert!(tree.remove(1));
    assert_eq!(tree.len(), 0);
    assert_eq!(tree.get(0), None);
}

#[test]
fn set_layer_and_accessibility_id_change_one_node() {
    let mut tree = sample();
    assert!(tree.set_layer(4, -3));
    assert!(tree.set_accessibility_id(5, Some(50)));
    assert!(!tree.set_layer(99, 1));
    assert!(!tree.set_accessibility_id(99, Some(1)));
    assert_eq!(tree.node(2).layer, -3);
    assert_eq!(tree.node(3).accessibility_id, Some(50));
    assert_eq!(tree.node(1).layer, 0);
    assert_eq!(tree.node(1).accessibility_id, None);
    assert_eq!(ids(&tree), vec![1, 2, 4, 5, 3]);
}

#[test]
fn set_areas_goes_by_position() {
    let mut tree = sample();
    let a = Area { origin: Point2D { x: 1, y: 2 }, size: Size2D { width: 3, height: 4 } };
    let b = Area { origin: Point2D { x: 5, y: 6 }, size: Size2D { width: 7, height: 8 } };
    tree.set_areas(&vec![a, b]);
    assert_eq!(tree.node(0).area, a);
    assert_eq!(tree.node(1).area, b);
    assert_eq!(tree.node(2).area, Area::from_size(Size2D { width: 0, height: 0 }));
    assert_eq!(depths(&tree), vec![0, 1, 2, 2, 1]);
}

#[test]
fn chains_run_from_the_root_to_each_node() {
    let tree = sample();
    let chains = tree.chains();
    assert_eq!(chains, vec![vec![0], vec![0, 1], vec![0, 1, 2], vec![0, 1, 3], vec![0, 4]]);
}

#[test]
fn paint_order_is_by_layer_then_document_order() {
    let mut tree = sample();
    assert_eq!(tree.paint_order(), vec![0, 1, 2, 3, 4]);
    // By position the layers become -1, 2, 0, 2, 0.
    assert!(tree.set_layer(2, 2));
    assert!(tree.set_layer(1, -1));
    assert!(tree.set_layer(5, 2));
    assert_eq!(tree.paint_order(), vec![0, 2, 4, 1, 3]);
    assert!(tree.set_layer(3, -5));
    assert_eq!(tree.paint_order(), vec![4, 0, 2, 1, 3]);
    assert_eq!(NodeTree::new().paint_order(), Vec::<usize>::new());
}

#[test]
fn empty_batch_asks_for_nothing() {
    let mut tree = sample();
    assert_eq!(apply(&mut tree, &vec![]), (false, false));
    assert_eq!(ids(&tree), vec![1, 2, 4, 5, 3]);
    let mut empty = NodeTree::new();
    assert_eq!(apply(&mut empty, &vec![]), (false, false));
    assert_eq!(empty.len(), 0);
}

#[test]
fn text_change_asks_for_repaint_and_relayout() {
    let mut tree = sample();
    assert_eq!(apply(&mut tree, &vec![Mutation::SetText { id: 4 }]), (true, true));
    assert_eq!(ids(&tree), vec![1, 2, 4, 5, 3]);
}

#[test]
fn paint_attribute_asks_for_repaint_only() {
    let mut tree = sample();
    assert_eq!(apply(&mut tree, &vec![Mutation::SetPaintAttribute { id: 3 }]), (true, false));
    assert_eq!(
        apply(
            &mut tree,
            &vec![Mutation::SetPaintAttribute { id: 3 }, Mutation::SetLayoutAttribute { id: 2 }]
        ),
        (true, true)
    );
}

#[test]
fn changes_to_nodes_that_are_gone_are_passed_over() {
    let mut tree = sample();
    let batch = vec![
        Mutation::SetText { id: 40 },
        Mutation::SetPaintAttribute { id: 41 },
        Mutation::SetLayoutAttribute { id: 42 },
        Mutation::Remove { id: 43 },
        Mutation::SetLayer { id: 44, layer: 1 },
        Mutation::SetAccessibilityId { id: 45, accessibility_id: Some(1) },
        Mutation::AppendChild {
            parent: Some(46),
            id: 47,
            layer: 0,
            accessibility_id: None,
            text_group: None,
        },
    ];
    assert_eq!(apply(&mut tree, &batch), (false, false));
    assert_eq!(ids(&tree), vec![1, 2, 4, 5, 3]);
}

#[test]
fn structural_changes_are_applied_in_order() {
    let mut tree = NodeTree::new();
    let batch = vec![
        Mutation::AppendChild {
            parent: None,
            id: 1,
            layer: 0,
            accessibility_id: None,
            text_group: None,
        },
        Mutation::AppendChild {
            parent: Some(1),
            id: 2,
            layer: 3,
            accessibility_id: Some(20),
            text_group: Some(7),
        },
        Mutation::AppendChild {
            parent: Some(2),
            id: 3,
            layer: 0,
            accessibility_id: None,
            text_group: None,
        },
        Mutation::Remove { id: 3 },
        Mutation::SetLayer { id: 1, layer: 9 },
        Mutation::SetAccessibilityId { id: 1, accessibility_id: Some(10) },
    ];
    assert_eq!(apply(&mut tree, &batch), (true, true));
    assert_eq!(ids(&tree), vec![1, 2]);
    assert_eq!(tree.node(0).layer, 9);
    assert_eq!(tree.node(0).accessibility_id, Some(10));
    assert_eq!(tree.node(1).layer, 3);
    assert_eq!(tree.node(1).depth, 1);
    assert_eq!(tree.node(1).accessibility_id, Some(20));
    assert_eq!(tree.node(1).text_group, Some(7));
}

#[test]
fn apply_one_says_whether_the_change_took_effect() {
    let mut tree = sample();
    assert!(apply_one(&mut tree, Mutation::Remove { id: 5 }));
    assert!(!apply_one(&mut tree, Mutation::Remove { id: 5 }));
    assert!(apply_one(&mut tree, Mutation::SetText { id: 4 }));
    assert_eq!(ids(&tree), vec![1, 2, 4, 3]);
}

#[test]
fn only_paint_attributes_leave_the_layout_alone() {
    assert!(!changes_layout(&Mutation::SetPaintAttribute { id: 1 }));
    assert!(changes_layout(&Mutation::SetText { id: 1 }));
    assert!(changes_layout(&Mutation::SetLayoutAttribute { id: 1 }));
    assert!(changes_layout(&Mutation::Remove { id: 1 }));
    assert!(changes_layout(&Mutation::SetLayer { id: 1, layer: 0 }));
    assert!(changes_layout(&Mutation::SetAccessibilityId { id: 1, accessibility_id: None }));
}
