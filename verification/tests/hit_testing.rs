use ares::{div, find_mouse_target, Div, Element, Size, Stylable, Touchable};
use taffy::prelude::TaffyMaxContent;

fn absolute(left: f32, top: f32, width: f32, height: f32) -> taffy::Style {
    taffy::Style {
        position: taffy::Position::Absolute,
        inset: taffy::Rect {
            left: taffy::LengthPercentageAuto::Length(left),
            top: taffy::LengthPercentageAuto::Length(top),
            right: taffy::LengthPercentageAuto::Auto,
            bottom: taffy::LengthPercentageAuto::Auto,
        },
        size: taffy::Size {
            width: taffy::Dimension::Length(width),
            height: taffy::Dimension::Length(height),
        },
        ..Default::default()
    }
}

fn handler_at(root: &Div<u32>, tree: &taffy::TaffyTree, node: u64, x: i32, y: i32) -> Option<u32> {
    find_mouse_target(root, tree, node, x, y).map(|target| target.click_handler.unwrap())
}

#[test]
fn click_on_child_with_handler_goes_to_the_child() {
    let child: Div<u32> = div().w(100).h(40).on_click(7);
    let root: Div<u32> = div().w(200).h(200).child(Element::Div(child));
    let mut tree = taffy::TaffyTree::new();
    let node = root.compute_layout(&mut tree, Size::definite(200, 200)).unwrap();
    let target = find_mouse_target(&root, &tree, node, 50, 20).unwrap();
    assert_eq!(target.click_handler, Some(7));
    assert_eq!(target.style.width, Some(100));
}

#[test]
fn click_beside_child_on_root_without_handler_goes_nowhere() {
    let child: Div<u32> = div().w(100).h(40).on_click(7);
    let root: Div<u32> = div().w(200).h(200).child(Element::Div(child));
    let mut tree = taffy::TaffyTree::new();
    let node = root.compute_layout(&mut tree, Size::definite(200, 200)).unwrap();
    assert!(find_mouse_target(&root, &tree, node, 150, 20).is_none());
    assert!(find_mouse_target(&root, &tree, node, 50, 100).is_none());
}

#[test]
fn later_of_two_overlapping_siblings_takes_the_click() {
    let mut tree = taffy::TaffyTree::new();
    let first = tree.new_leaf(absolute(0.0, 0.0, 100.0, 100.0)).unwrap();
    let second = tree.new_leaf(absolute(20.0, 20.0, 60.0, 60.0)).unwrap();
    let top = tree.new_with_children(absolute(0.0, 0.0, 200.0, 200.0), &[first, second]).unwrap();
    tree.compute_layout(top, taffy::Size::MAX_CONTENT).unwrap();
    let root: Div<u32> = div().children(vec![
        Element::Div(div().on_click(1)),
        Element::Div(div().on_click(2)),
    ]);
    let top = u64::from(top);
    assert_eq!(handler_at(&root, &tree, top, 30, 30), Some(2));
    assert_eq!(handler_at(&root, &tree, top, 80, 80), Some(2));
    assert_eq!(handler_at(&root, &tree, top, 10, 10), Some(1));
    assert_eq!(handler_at(&root, &tree, top, 90, 90), Some(1));
    assert_eq!(handler_at(&root, &tree, top, 150, 150), None);
}

#[test]
fn earlier_sibling_takes_the_click_when_it_was_added_last() {
    let mut tree = taffy::TaffyTree::new();
    let small = tree.new_leaf(absolute(20.0, 20.0, 60.0, 60.0)).unwrap();
    let large = tree.new_leaf(absolute(0.0, 0.0, 100.0, 100.0)).unwrap();
    let top = tree.new_with_children(absolute(0.0, 0.0, 200.0, 200.0), &[small, large]).unwrap();
    tree.compute_layout(top, taffy::Size::MAX_CONTENT).unwrap();
    let root: Div<u32> = div().children(vec![
        Element::Div(div().on_click(1)),
        Element::Div(div().on_click(2)),
    ]);
    assert_eq!(handler_at(&root, &tree, u64::from(top), 30, 30), Some(2));
}

#[test]
fn point_on_the_shared_edge_goes_to_the_later_sibling() {
    let root: Div<u32> = div().w(100).h(10).children(vec![
        Element::Div(div().w(50).h(10).on_click(1)),
        Element::Div(div().w(50).h(10).on_click(2)),
    ]);
    let mut tree = taffy::TaffyTree::new();
    let node = root.compute_layout(&mut tree, Size::definite(100, 10)).unwrap();
    assert_eq!(handler_at(&root, &tree, node, 49, 5), Some(1));
    assert_eq!(handler_at(&root, &tree, node, 50, 5), Some(2));
    assert_eq!(handler_at(&root, &tree, node, 51, 5), Some(2));
}

#[test]
fn box_with_handler_answers_for_a_leaf_without_one() {
    let leaf: Div<u32> = div().w(20).h(20);
    let root: Div<u32> = div().w(100).h(100).on_click(9).child(Element::Div(leaf));
    let mut tree = taffy::TaffyTree::new();
    let node = root.compute_layout(&mut tree, Size::definite(100, 100)).unwrap();
    let target = find_mouse_target(&root, &tree, node, 10, 10).unwrap();
    assert_eq!(target.click_handler, Some(9));
    assert_eq!(target.style.width, Some(100));
    assert_eq!(handler_at(&root, &tree, node, 60, 60), Some(9));
}

#[test]
fn point_outside_the_root_goes_nowhere() {
    let root: Div<u32> = div().w(100).h(100).on_click(9);
    let mut tree = taffy::TaffyTree::new();
    let node = root.compute_layout(&mut tree, Size::definite(100, 100)).unwrap();
    assert_eq!(handler_at(&root, &tree, node, 101, 50), None);
    assert_eq!(handler_at(&root, &tree, node, 50, 101), None);
    assert_eq!(handler_at(&root, &tree, node, -1, 50), None);
    assert_eq!(handler_at(&root, &tree, node, 50, -1), None);
    assert_eq!(handler_at(&root, &tree, node, i32::MAX, i32::MAX), None);
    assert_eq!(handler_at(&root, &tree, node, i32::MIN, i32::MIN), None);
}

#[test]
fn edges_of_a_rectangle_belong_to_it() {
    let root: Div<u32> = div().w(100).h(100).on_click(9);
    let mut tree = taffy::TaffyTree::new();
    let node = root.compute_layout(&mut tree, Size::definite(100, 100)).unwrap();
    assert_eq!(handler_at(&root, &tree, node, 0, 0), Some(9));
    assert_eq!(handler_at(&root, &tree, node, 100, 100), Some(9));
    assert_eq!(handler_at(&root, &tree, node, 100, 0), Some(9));
}

#[test]
fn ancestor_with_handler_answers_when_descendants_have_none() {
    let inner: Div<u32> = div().w(10).h(10);
    let middle: Div<u32> = div().w(50).h(50).child(Element::Div(inner));
    let root: Div<u32> = div().w(100).h(100).on_click(3).child(Element::Div(middle));
    let mut tree = taffy::TaffyTree::new();
    let node = root.compute_layout(&mut tree, Size::definite(100, 100)).unwrap();
    assert_eq!(handler_at(&root, &tree, node, 5, 5), Some(3));
}

#[test]
fn deepest_box_with_handler_takes_the_click() {
    let inner: Div<u32> = div().w(10).h(10).on_click(3);
    let middle: Div<u32> = div().w(50).h(50).on_click(2).child(Element::Div(inner));
    let root: Div<u32> = div().w(100).h(100).on_click(1).child(Element::Div(middle));
    let mut tree = taffy::TaffyTree::new();
    let node = root.compute_layout(&mut tree, Size::definite(100, 100)).unwrap();
    assert_eq!(handler_at(&root, &tree, node, 5, 5), Some(3));
    assert_eq!(handler_at(&root, &tree, node, 30, 30), Some(2));
    assert_eq!(handler_at(&root, &tree, node, 70, 70), Some(1));
}

#[test]
fn offsets_add_up_from_the_root() {
    let target: Div<u32> = div().w(10).h(10).on_click(5);
    let holder: Div<u32> = div().w(50).h(50).children(vec![
        Element::Div(div().w(20).h(50)),
        Element::Div(target),
    ]);
    let root: Div<u32> = div().w(200).h(50).children(vec![
        Element::Div(div().w(30).h(50)),
        Element::Div(holder),
    ]);
    let mut tree = taffy::TaffyTree::new();
    let node = root.compute_layout(&mut tree, Size::definite(200, 50)).unwrap();
    // The target lies 30 + 20 pixels from the left edge of the root.
    assert_eq!(handler_at(&root, &tree, node, 55, 5), Some(5));
    assert_eq!(handler_at(&root, &tree, node, 25, 5), None);
    assert_eq!(handler_at(&root, &tree, node, 45, 5), None);
    assert_eq!(handler_at(&root, &tree, node, 65, 5), None);
}

#[test]
fn on_click_replaces_the_handler() {
    let d: Div<u32> = div().on_click(1).on_click(2);
    assert_eq!(d.click_handler, Some(2));
    assert_eq!(d.click_handler(), Some(&2));
}

#[test]
fn set_click_handler_can_take_the_handler_away() {
    let mut d: Div<u32> = div().on_click(1);
    d.set_click_handler(None);
    assert_eq!(d.click_handler(), None);
    d.set_click_handler(Some(4));
    assert_eq!(d.click_handler(), Some(&4));
}

#[test]
fn handler_may_be_a_boxed_callback() {
    let hits = std::rc::Rc::new(std::cell::Cell::new(0));
    let seen = hits.clone();
    let child: Div<Box<dyn Fn(i32)>> = div().w(10).h(10).on_click(Box::new(move |x| seen.set(seen.get() + x)));
    let root: Div<Box<dyn Fn(i32)>> = div().w(20).h(20).child(Element::Div(child));
    let mut tree = taffy::TaffyTree::new();
    let node = root.compute_layout(&mut tree, Size::definite(20, 20)).unwrap();
    let target = find_mouse_target(&root, &tree, node, 5, 5).unwrap();
    (target.click_handler.as_ref().unwrap())(3);
    assert_eq!(hits.get(), 3);
}
