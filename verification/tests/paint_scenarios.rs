use ares::{div, Buffer, Color, Div, Element, Size, Stylable};

fn pixel(buffer: &Buffer, x: u32, y: u32) -> (u8, u8, u8, u8) {
    let i = ((y * buffer.width + x) * 4) as usize;
    (buffer.data[i], buffer.data[i + 1], buffer.data[i + 2], buffer.data[i + 3])
}

fn painted(root: &Div<u32>, width: u16, height: u16) -> Buffer {
    let mut tree = taffy::TaffyTree::new();
    let node = root.compute_layout(&mut tree, Size::definite(width, height)).unwrap();
    root.paint(&tree, node)
}

#[test]
fn red_child_in_transparent_root() {
    let child: Div<u32> = div().w(100).h(40).bg(Color::rgb(255, 0, 0));
    let root: Div<u32> = div().w(200).h(200).child(Element::Div(child));
    let buffer = painted(&root, 200, 200);
    assert_eq!(buffer.width, 200);
    assert_eq!(buffer.height, 200);
    assert_eq!(buffer.data.len(), 200 * 200 * 4);
    for y in 0..200 {
        for x in 0..200 {
            let expected = if y < 40 && x < 100 { (0, 0, 255, 255) } else { (0, 0, 0, 0) };
            assert_eq!(pixel(&buffer, x, y), expected, "pixel ({}, {})", x, y);
        }
    }
}

#[test]
fn box_with_background_paints_it_in_every_pixel() {
    let root: Div<u32> = div().w(7).h(5).bg(Color { r: 10, g: 20, b: 30, a: 40 });
    let buffer = painted(&root, 7, 5);
    assert_eq!((buffer.width, buffer.height), (7, 5));
    for y in 0..5 {
        for x in 0..7 {
            assert_eq!(pixel(&buffer, x, y), (30, 20, 10, 40));
        }
    }
}

#[test]
fn empty_box_paints_transparent_pixels() {
    let root: Div<u32> = div().w(6).h(4);
    let buffer = painted(&root, 6, 4);
    assert_eq!((buffer.width, buffer.height), (6, 4));
    assert_eq!(buffer.data, vec![0u8; 6 * 4 * 4]);
}

#[test]
fn box_without_size_and_content_paints_nothing() {
    let root: Div<u32> = div().bg(Color::rgb(1, 2, 3));
    let mut tree = taffy::TaffyTree::new();
    let node = root.compute_layout(&mut tree, Size::max_content()).unwrap();
    let buffer = root.paint(&tree, node);
    assert_eq!((buffer.width, buffer.height), (0, 0));
    assert!(buffer.data.is_empty());
}

#[test]
fn child_without_pixels_changes_nothing() {
    let child: Div<u32> = div().w(0).h(0).bg(Color::rgb(255, 0, 0));
    let root: Div<u32> = div().w(4).h(4).bg(Color::rgb(0, 0, 255)).child(Element::Div(child));
    let buffer = painted(&root, 4, 4);
    for y in 0..4 {
        for x in 0..4 {
            assert_eq!(pixel(&buffer, x, y), (255, 0, 0, 255));
        }
    }
}

#[test]
fn children_are_painted_side_by_side_in_order() {
    let root: Div<u32> = div().w(6).h(2).children(vec![
        Element::Div(div().w(2).h(2).bg(Color::rgb(255, 0, 0))),
        Element::Div(div().w(3).h(1).bg(Color::rgb(0, 255, 0))),
    ]);
    let buffer = painted(&root, 6, 2);
    for y in 0..2 {
        for x in 0..6 {
            let expected = if x < 2 {
                (0, 0, 255, 255)
            } else if x < 5 && y < 1 {
                (0, 255, 0, 255)
            } else {
                (0, 0, 0, 0)
            };
            assert_eq!(pixel(&buffer, x, y), expected, "pixel ({}, {})", x, y);
        }
    }
}

#[test]
fn grandchild_is_painted_at_the_sum_of_the_offsets() {
    let holder: Div<u32> = div().w(50).h(50).children(vec![
        Element::Div(div().w(20).h(50)),
        Element::Div(div().w(10).h(10).bg(Color::rgb(0, 0, 255))),
    ]);
    let root: Div<u32> = div().w(100).h(50).children(vec![
        Element::Div(div().w(30).h(50)),
        Element::Div(holder),
    ]);
    let buffer = painted(&root, 100, 50);
    for y in 0..50 {
        for x in 0..100 {
            let inside = (50..60).contains(&x) && y < 10;
            let expected = if inside { (255, 0, 0, 255) } else { (0, 0, 0, 0) };
            assert_eq!(pixel(&buffer, x, y), expected, "pixel ({}, {})", x, y);
        }
    }
}

#[test]
fn half_transparent_child_is_mixed_with_the_background_of_its_parent() {
    let child: Div<u32> = div().w(1).h(1).bg(Color { r: 200, g: 255, b: 0, a: 128 });
    let root: Div<u32> = div().w(2).h(1).bg(Color { r: 100, g: 0, b: 255, a: 200 }).child(Element::Div(child));
    let buffer = painted(&root, 2, 1);
    assert_eq!(pixel(&buffer, 0, 0), (127, 128, 150, 200));
    assert_eq!(pixel(&buffer, 1, 0), (255, 0, 100, 200));
}

#[test]
fn half_transparent_child_on_transparent_parent_is_dimmed() {
    let child: Div<u32> = div().w(1).h(1).bg(Color { r: 200, g: 255, b: 0, a: 128 });
    let root: Div<u32> = div().w(1).h(1).child(Element::Div(child));
    let buffer = painted(&root, 1, 1);
    // red: 200 * 128 / 255 = 100.4; green: 255 * 128 / 255 = 128
    assert_eq!(pixel(&buffer, 0, 0), (0, 128, 100, 128));
}

#[test]
fn child_is_clipped_by_its_parent() {
    let wide: Div<u32> = div().w(10).h(1).bg(Color::rgb(9, 9, 9));
    let holder: Div<u32> = div().w(4).h(2).display(ares::Display::Block).child(Element::Div(wide));
    let root: Div<u32> = div().w(8).h(2).display(ares::Display::Block).child(Element::Div(holder));
    let buffer = painted(&root, 8, 2);
    for y in 0..2 {
        for x in 0..8 {
            let expected = if x < 4 && y < 1 { (9, 9, 9, 255) } else { (0, 0, 0, 0) };
            assert_eq!(pixel(&buffer, x, y), expected, "pixel ({}, {})", x, y);
        }
    }
}

#[test]
fn painting_twice_gives_the_same_bytes() {
    let root: Div<u32> = div().w(30).h(20).bg(Color { r: 1, g: 2, b: 3, a: 77 }).children(vec![
        Element::Div(div().w(10).h(10).bg(Color { r: 200, g: 100, b: 50, a: 128 })),
        Element::Div(div().w(5).h(15).bg(Color::rgb(0, 255, 0))),
    ]);
    let mut tree = taffy::TaffyTree::new();
    let node = root.compute_layout(&mut tree, Size::definite(30, 20)).unwrap();
    let first = root.paint(&tree, node);
    let second = root.paint(&tree, node);
    assert_eq!(first.width, second.width);
    assert_eq!(first.height, second.height);
    assert_eq!(first.data, second.data);
}

#[test]
fn element_paints_as_its_box_does() {
    let make = || -> Div<u32> { div().w(3).h(3).bg(Color::rgb(4, 5, 6)) };
    let mut tree = taffy::TaffyTree::new();
    let root = make();
    let node = root.compute_layout(&mut tree, Size::max_content()).unwrap();
    let as_box = root.paint(&tree, node);
    let as_element = Element::Div(make()).paint(&tree, node);
    assert_eq!(as_box.data, as_element.data);
    assert_eq!(as_box.data.len(), 36);
}

#[test]
fn has_room_for_a_small_layout() {
    let root: Div<u32> = div().w(30).h(20).child(Element::Div(div().w(10).h(10)));
    let mut tree = taffy::TaffyTree::new();
    let node = root.compute_layout(&mut tree, Size::definite(30, 20)).unwrap();
    assert!(root.has_room(&tree, node));
    assert!(Element::Div(root).has_room(&tree, node));
}

#[test]
fn bg_replaces_the_background() {
    let d: Div<u32> = div().bg(Color::rgb(1, 1, 1)).bg(Color::rgb(2, 2, 2));
    assert_eq!(d.background_color, Some(Color::rgb(2, 2, 2)));
    let plain: Div<u32> = div();
    assert_eq!(plain.background_color, None);
}
