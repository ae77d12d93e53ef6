use ares::font::compose;
use ares::{
    div, text, Color, Div, Element, FontManager, Glyph, LayoutError, Paintable, Size, Stylable,
};

// A font of two glyphs: a box for unknown characters, and the letter A.
const FONT: [u8; 400] = [
    0x00, 0x01, 0x00, 0x00, 0x00, 0x07, 0x00, 0x40, 0x00, 0x02, 0x00, 0x30, 0x63, 0x6d, 0x61, 0x70,
    0x00, 0x09, 0x00, 0x76, 0x00, 0x00, 0x01, 0x00, 0x00, 0x00, 0x00, 0x2c, 0x67, 0x6c, 0x79, 0x66,
    0xf1, 0xcb, 0x66, 0x98, 0x00, 0x00, 0x01, 0x34, 0x00, 0x00, 0x00, 0x5c, 0x68, 0x65, 0x61, 0x64,
    0xf2, 0x35, 0xdd, 0xf8, 0x00, 0x00, 0x00, 0x7c, 0x00, 0x00, 0x00, 0x36, 0x68, 0x68, 0x65, 0x61,
    0x06, 0x61, 0x00, 0xca, 0x00, 0x00, 0x00, 0xb4, 0x00, 0x00, 0x00, 0x24, 0x68, 0x6d, 0x74, 0x78,
    0x04, 0x74, 0x00, 0x6a, 0x00, 0x00, 0x00, 0xf8, 0x00, 0x00, 0x00, 0x08, 0x6c, 0x6f, 0x63, 0x61,
    0x00, 0x2e, 0x00, 0x14, 0x00, 0x00, 0x01, 0x2c, 0x00, 0x00, 0x00, 0x06, 0x6d, 0x61, 0x78, 0x70,
    0x00, 0x05, 0x00, 0x0b, 0x00, 0x00, 0x00, 0xd8, 0x00, 0x00, 0x00, 0x20, 0x00, 0x01, 0x00, 0x00,
    0x00, 0x01, 0x00, 0x00, 0xf5, 0x9c, 0x29, 0x44, 0x5f, 0x0f, 0x3c, 0xf5, 0x00, 0x02, 0x03, 0xe8,
    0x00, 0x00, 0x00, 0x00, 0xb4, 0x92, 0xf4, 0x00, 0x00, 0x00, 0x00, 0x00, 0xdc, 0x2f, 0xa6, 0x5c,
    0x00, 0x06, 0x00, 0x00, 0x02, 0x58, 0x02, 0xbc, 0x00, 0x00, 0x00, 0x03, 0x00, 0x02, 0x00, 0x00,
    0x00, 0x00, 0x00, 0x00, 0x00, 0x01, 0x00, 0x00, 0x04, 0x00, 0xfe, 0x70, 0x00, 0x00, 0x02, 0x58,
    0x00, 0x06, 0xff, 0xff, 0x02, 0x58, 0x00, 0x01, 0x00, 0x00, 0x00, 0x00, 0x00, 0x00, 0x00, 0x00,
    0x00, 0x00, 0x00, 0x00, 0x00, 0x00, 0x00, 0x02, 0x00, 0x01, 0x00, 0x00, 0x00, 0x02, 0x00, 0x0b,
    0x00, 0x02, 0x00, 0x00, 0x00, 0x00, 0x00, 0x00, 0x00, 0x00, 0x00, 0x00, 0x00, 0x00, 0x00, 0x00,
    0x00, 0x00, 0x00, 0x00, 0x00, 0x00, 0x00, 0x00, 0x02, 0x58, 0x00, 0x64, 0x02, 0x1c, 0x00, 0x06,
    0x00, 0x00, 0x00, 0x01, 0x00, 0x00, 0x00, 0x03, 0x00, 0x00, 0x00, 0x0c, 0x00, 0x04, 0x00, 0x20,
    0x00, 0x00, 0x00, 0x04, 0x00, 0x04, 0x00, 0x01, 0x00, 0x00, 0x00, 0x41, 0xff, 0xff, 0x00, 0x00,
    0x00, 0x41, 0xff, 0xff, 0xff, 0xc0, 0x00, 0x01, 0x00, 0x00, 0x00, 0x00, 0x00, 0x00, 0x00, 0x14,
    0x00, 0x2e, 0x00, 0x00, 0x00, 0x02, 0x00, 0x64, 0x00, 0x00, 0x02, 0x58, 0x02, 0xbc, 0x00, 0x03,
    0x00, 0x07, 0x00, 0x00, 0x33, 0x11, 0x21, 0x11, 0x25, 0x21, 0x11, 0x21, 0x64, 0x01, 0xf4, 0xfe,
    0x34, 0x01, 0xa4, 0xfe, 0x5c, 0x02, 0xbc, 0xfd, 0x44, 0x28, 0x02, 0x6c, 0x00, 0x02, 0x00, 0x06,
    0x00, 0x00, 0x02, 0x1d, 0x02, 0x90, 0x00, 0x02, 0x00, 0x0a, 0x00, 0x00, 0x13, 0x33, 0x03, 0x01,
    0x13, 0x33, 0x13, 0x23, 0x27, 0x23, 0x07, 0xad, 0xc4, 0x63, 0xfe, 0xf8, 0xda, 0x60, 0xdd, 0x59,
    0x3e, 0xef, 0x42, 0x01, 0x0b, 0x01, 0x40, 0xfd, 0xb5, 0x02, 0x90, 0xfd, 0x70, 0xc8, 0xc8, 0x00,
];

fn font() -> FontManager {
    FontManager::new(fontdue::Font::from_bytes(&FONT[..], fontdue::FontSettings::default()).unwrap())
}

fn glyph(width: usize, height: usize, ymin: i32, advance: u32, coverage: Vec<u8>) -> Glyph {
    Glyph { width, height, ymin, advance, coverage }
}

#[test]
fn glyph_metrics_follow_the_size() {
    let font = font();
    let small = font.glyphs("A", 10);
    assert_eq!(small.len(), 1);
    assert_eq!((small[0].width, small[0].height, small[0].ymin, small[0].advance), (6, 7, 0, 6));
    assert_eq!(small[0].coverage.len(), 42);
    let large = font.glyphs("A", 24);
    assert_eq!((large[0].width, large[0].height, large[0].ymin, large[0].advance), (13, 16, 0, 13));
    assert_eq!(large[0].coverage.len(), 13 * 16);
}

#[test]
fn unknown_character_gets_the_fallback_glyph() {
    let font = font();
    let glyphs = font.glyphs("B", 16);
    assert_eq!((glyphs[0].width, glyphs[0].height, glyphs[0].advance), (9, 12, 10));
}

#[test]
fn one_glyph_for_each_character() {
    let font = font();
    let glyphs = font.glyphs("ABA", 16);
    assert_eq!(glyphs.len(), 3);
    assert_eq!(glyphs[0].coverage, glyphs[2].coverage);
    assert_eq!(glyphs[1].height, 12);
    assert!(font.glyphs("", 16).is_empty());
}

#[test]
fn size_zero_gives_glyphs_without_pixels() {
    let font = font();
    let glyphs = font.glyphs("A", 0);
    assert_eq!((glyphs[0].width, glyphs[0].height, glyphs[0].advance), (0, 0, 0));
    assert!(glyphs[0].coverage.is_empty());
}

#[test]
fn bitmap_is_as_wide_as_the_advances_and_as_high_as_the_tallest_glyph() {
    let font = font();
    let bitmap = font.render_text("AB", 16, Color::rgb(0, 0, 0)).unwrap();
    assert_eq!((bitmap.width, bitmap.height), (19, 12));
    assert_eq!(bitmap.buffer.len(), 19 * 12 * 4);
    let bitmap = font.render_text("AA", 16, Color::rgb(0, 0, 0)).unwrap();
    assert_eq!((bitmap.width, bitmap.height), (18, 11));
}

#[test]
fn bitmap_of_no_text_has_no_pixels() {
    let bitmap = font().render_text("", 16, Color::rgb(0, 0, 0)).unwrap();
    assert_eq!((bitmap.width, bitmap.height), (0, 0));
    assert!(bitmap.buffer.is_empty());
}

#[test]
fn bitmap_holds_the_color_with_the_coverage_as_alpha() {
    let font = font();
    let glyphs = font.glyphs("AA", 16);
    let bitmap = font.render_text("AA", 16, Color { r: 10, g: 20, b: 30, a: 99 }).unwrap();
    for y in 0..11 {
        for x in 0..18 {
            let g = &glyphs[x / 9];
            let i = (y * 18 + x) * 4;
            let expected = vec![30, 20, 10, g.coverage[y * 9 + x % 9]];
            assert_eq!(&bitmap.buffer[i..i + 4], &expected[..], "pixel ({}, {})", x, y);
        }
    }
    assert!(bitmap.buffer.iter().skip(3).step_by(4).any(|a| *a == 255));
}

#[test]
fn compose_writes_glyphs_from_left_to_right() {
    let glyphs = vec![glyph(1, 2, 0, 1, vec![10, 20]), glyph(2, 1, 0, 2, vec![30, 40])];
    let bitmap = compose(&glyphs, Color { r: 1, g: 2, b: 3, a: 4 }).unwrap();
    assert_eq!((bitmap.width, bitmap.height), (3, 2));
    assert_eq!(
        bitmap.buffer,
        vec![
            3, 2, 1, 10, 3, 2, 1, 30, 3, 2, 1, 40, //
            3, 2, 1, 20, 0, 0, 0, 0, 0, 0, 0, 0,
        ]
    );
}

#[test]
fn compose_puts_a_glyph_as_many_rows_down_as_it_reaches_from_the_baseline() {
    let glyphs = vec![glyph(1, 1, -2, 1, vec![50]), glyph(1, 1, 1, 1, vec![60])];
    let bitmap = compose(&glyphs, Color::rgb(7, 8, 9)).unwrap();
    assert_eq!((bitmap.width, bitmap.height), (2, 3));
    assert_eq!(
        bitmap.buffer,
        vec![
            0, 0, 0, 0, 0, 0, 0, 0, //
            0, 0, 0, 0, 9, 8, 7, 60, //
            9, 8, 7, 50, 0, 0, 0, 0,
        ]
    );
}

#[test]
fn compose_lets_a_later_glyph_overwrite_an_earlier_one() {
    let glyphs = vec![glyph(2, 1, 0, 1, vec![10, 20]), glyph(1, 1, 0, 1, vec![0])];
    let bitmap = compose(&glyphs, Color::rgb(1, 1, 1)).unwrap();
    assert_eq!((bitmap.width, bitmap.height), (2, 1));
    assert_eq!(bitmap.buffer, vec![1, 1, 1, 10, 1, 1, 1, 0]);
}

#[test]
fn compose_drops_pixels_behind_the_end_of_the_bitmap() {
    let glyphs = vec![glyph(1, 1, 0, 1, vec![10]), glyph(2, 1, 0, 1, vec![20, 30])];
    let bitmap = compose(&glyphs, Color::rgb(1, 1, 1)).unwrap();
    assert_eq!((bitmap.width, bitmap.height), (2, 1));
    assert_eq!(bitmap.buffer, vec![1, 1, 1, 10, 1, 1, 1, 20]);
}

#[test]
fn compose_runs_a_glyph_wider_than_the_bitmap_into_the_next_row() {
    let glyphs = vec![glyph(3, 2, 0, 2, vec![10, 20, 30, 40, 50, 60])];
    let bitmap = compose(&glyphs, Color::rgb(1, 1, 1)).unwrap();
    assert_eq!((bitmap.width, bitmap.height), (2, 2));
    assert_eq!(
        bitmap.buffer,
        vec![
            1, 1, 1, 10, 1, 1, 1, 20, //
            1, 1, 1, 40, 1, 1, 1, 50,
        ]
    );
}

#[test]
fn compose_of_no_glyphs_is_empty() {
    let bitmap = compose(&Vec::new(), Color::rgb(1, 1, 1)).unwrap();
    assert_eq!((bitmap.width, bitmap.height), (0, 0));
    assert!(bitmap.buffer.is_empty());
}

#[test]
fn compose_refuses_a_bitmap_that_cannot_be_held() {
    let huge = || glyph(0, 0, i32::MIN, u32::MAX, Vec::new());
    let glyphs = vec![huge(), huge(), huge(), huge()];
    assert!(compose(&glyphs, Color::rgb(1, 1, 1)).is_none());
}

#[test]
fn text_starts_black_at_sixteen_pixels() {
    let t = text("hello", font());
    assert_eq!(t.content, "hello");
    assert_eq!(t.size, 16);
    assert_eq!(t.color, Color { r: 0, g: 0, b: 0, a: 255 });
}

#[test]
fn text_setters_change_one_thing_each() {
    let t = text("A", font()).size(24);
    assert_eq!((t.size, t.color), (24, Color::rgb(0, 0, 0)));
    let t = t.color(Color::rgb(9, 8, 7));
    assert_eq!((t.size, t.color), (24, Color::rgb(9, 8, 7)));
    let t = t.size(10).size(12);
    assert_eq!(t.size, 12);
    assert_eq!(t.content, "A");
}

#[test]
fn text_too_wide_for_a_length_can_still_be_painted() {
    let long = "A".repeat(1300);
    let t = text(&long, font()).size(100);
    let bitmap = t.font_manager.render_text(&long, 100, t.color).unwrap();
    assert_eq!(bitmap.width, 54 * 1300);
    let mut tree = taffy::TaffyTree::new();
    let node = u64::from(tree.new_leaf(taffy::Style::default()).unwrap());
    let buffer = t.paint(&tree, node);
    assert_eq!((buffer.width, buffer.height), (0, 0));
}

#[test]
fn text_measures_as_its_bitmap() {
    assert_eq!(text("AB", font()).intrinsic_size(), Some((19, 12)));
    assert_eq!(text("", font()).intrinsic_size(), Some((0, 0)));
    assert_eq!(text("A", font()).size(24).intrinsic_size(), Some((13, 16)));
}

#[test]
fn text_node_has_the_fixed_size_of_its_bitmap() {
    let root: Div<u32> = div().w(100).h(100).child(Element::Text(text("AB", font())));
    let mut tree = taffy::TaffyTree::new();
    let node = taffy::NodeId::from(root.compute_layout(&mut tree, Size::definite(100, 100)).unwrap());
    assert_eq!(tree.total_node_count(), 2);
    let children = tree.children(node).unwrap();
    assert_eq!(children.len(), 1);
    let style = tree.style(children[0]).unwrap();
    assert_eq!(style.size.width, taffy::Dimension::Length(19.0));
    assert_eq!(style.size.height, taffy::Dimension::Length(12.0));
    let layout = tree.layout(children[0]).unwrap();
    assert_eq!((layout.size.width, layout.size.height), (19.0, 12.0));
    assert_eq!(tree.children(children[0]).unwrap().len(), 0);
}

#[test]
fn text_alone_paints_its_bitmap() {
    let t: Element<u32> = Element::Text(text("A", font()).color(Color::rgb(200, 100, 50)));
    let mut tree = taffy::TaffyTree::new();
    let node = t.compute_layout(&mut tree, Size::max_content()).unwrap();
    let buffer = t.paint(&tree, node);
    assert_eq!((buffer.width, buffer.height), (9, 11));
    let glyphs = font().glyphs("A", 16);
    for y in 0..11 {
        for x in 0..9 {
            let a = glyphs[0].coverage[y * 9 + x] as u32;
            let mix = |c: u32| ((c * a + 127) / 255) as u8;
            let i = (y * 9 + x) * 4;
            let expected = vec![mix(50), mix(100), mix(200), a as u8];
            assert_eq!(&buffer.data[i..i + 4], &expected[..], "pixel ({}, {})", x, y);
        }
    }
}

#[test]
fn text_is_laid_over_the_background_of_its_box() {
    let root: Div<u32> = div().w(12).h(12).bg(Color::rgb(255, 255, 255)).child(Element::Text(text("A", font())));
    let mut tree = taffy::TaffyTree::new();
    let node = root.compute_layout(&mut tree, Size::definite(12, 12)).unwrap();
    let buffer = root.paint(&tree, node);
    let glyphs = font().glyphs("A", 16);
    for y in 0..12usize {
        for x in 0..12usize {
            let a = if x < 9 && y < 11 { glyphs[0].coverage[y * 9 + x] as u32 } else { 0 };
            let white = ((255 * (255 - a) + 127) / 255) as u8;
            let i = (y * 12 + x) * 4;
            let expected = vec![white, white, white, 255];
            assert_eq!(&buffer.data[i..i + 4], &expected[..], "pixel ({}, {})", x, y);
        }
    }
}

#[test]
fn painting_text_twice_gives_the_same_bytes() {
    let root: Div<u32> = div().w(40).h(20).child(Element::Text(text("ABA", font())));
    let mut tree = taffy::TaffyTree::new();
    let node = root.compute_layout(&mut tree, Size::definite(40, 20)).unwrap();
    assert_eq!(root.paint(&tree, node).data, root.paint(&tree, node).data);
}

#[test]
fn text_too_wide_for_a_length_fails_the_layout() {
    let long = "A".repeat(1300);
    let root: Div<u32> = div().child(Element::Text(text(&long, font()).size(100)));
    let mut tree = taffy::TaffyTree::new();
    assert_eq!(root.compute_layout(&mut tree, Size::max_content()), Err(LayoutError::TextTooLarge));
    assert_eq!(text(&long, font()).size(100).intrinsic_size(), None);
}

#[test]
fn failed_layout_leaves_earlier_nodes_as_they_were() {
    let first: Div<u32> = div().w(10).h(10).child(Element::Div(div().w(1).h(1)));
    let mut tree = taffy::TaffyTree::new();
    let a = taffy::NodeId::from(first.compute_layout(&mut tree, Size::max_content()).unwrap());
    let kids = tree.children(a).unwrap();
    let long = "A".repeat(1300);
    let failing: Div<u32> = div().children(vec![
        Element::Div(div().w(2).h(2)),
        Element::Text(text(&long, font()).size(100)),
    ]);
    assert_eq!(failing.compute_layout(&mut tree, Size::max_content()), Err(LayoutError::TextTooLarge));
    assert_eq!(tree.children(a).unwrap(), kids);
    assert_eq!(tree.style(a).unwrap().size.width, taffy::Dimension::Length(10.0));
    assert_eq!(tree.layout(a).unwrap().size.width, 10.0);
}

#[test]
fn text_that_cannot_be_measured_fails_the_window() {
    let long = "A".repeat(1300);
    let content: Element<u32> = Element::Text(text(&long, font()).size(100));
    let opened = ares::AppContext::open(content, ares::WindowSettings::new(100, 100));
    assert_eq!(opened.err(), Some(ares::OpenError::Layout(LayoutError::TextTooLarge)));
}

#[test]
fn text_takes_no_click() {
    let root: Div<u32> = div().w(50).h(50).child(Element::Text(text("A", font())));
    let mut tree = taffy::TaffyTree::new();
    let node = root.compute_layout(&mut tree, Size::definite(50, 50)).unwrap();
    assert!(ares::find_mouse_target(&root, &tree, node, 3, 3).is_none());
    let root = ares::Touchable::on_click(root, 8);
    assert_eq!(ares::find_mouse_target(&root, &tree, node, 3, 3).unwrap().click_handler, Some(8));
}

#[test]
fn a_text_is_laid_out_and_painted_by_itself() {
    let t = text("A", font());
    let mut tree = taffy::TaffyTree::new();
    let node = Paintable::<u32>::compute_layout(&t, &mut tree, Size::max_content()).unwrap();
    assert_eq!(tree.total_node_count(), 1);
    let layout = tree.layout(taffy::NodeId::from(node)).unwrap();
    assert_eq!((layout.size.width, layout.size.height), (9.0, 11.0));
    let buffer = Paintable::<u32>::paint(&t, &tree, node);
    assert_eq!((buffer.width, buffer.height), (9, 11));
    assert!(Paintable::<u32>::as_childable(&t).is_none());
}

#[test]
fn a_text_becomes_an_element() {
    let e: Element<u32> = Element::from(text("A", font()));
    assert!(e.as_childable().is_none());
    assert_eq!(e.count_within(1), Some(1));
}

#[test]
fn font_manager_clone_draws_the_same() {
    let first = font();
    let second = first.clone();
    assert_eq!(first.glyphs("A", 16)[0].coverage, second.glyphs("A", 16)[0].coverage);
}
