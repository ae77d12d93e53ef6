use ares::{div, AppContext, Color, Div, Element, MouseButton, MouseEvent, OpenError, Stylable, Touchable, WindowSettings};

fn click(x: i32, y: i32) -> MouseEvent {
    MouseEvent { x, y, button: MouseButton::Left }
}

fn content() -> Element<u32> {
    let button: Div<u32> = div().w(100).h(40).bg(Color::rgb(255, 0, 0)).on_click(7);
    Element::Div(div().w(200).h(200).child(Element::Div(button)))
}

#[test]
fn window_is_painted_at_its_size() {
    let ctx = AppContext::open(content(), WindowSettings::new(512, 384)).ok().unwrap();
    let buffer = ctx.paint();
    assert_eq!((buffer.width, buffer.height), (512, 384));
    assert_eq!(buffer.data.len(), 512 * 384 * 4);
    for y in 0..384u32 {
        for x in 0..512u32 {
            let i = ((y * 512 + x) * 4) as usize;
            let expected = if x < 100 && y < 40 { [0, 0, 255, 255] } else { [0, 0, 0, 0] };
            assert_eq!(buffer.data[i..i + 4], expected, "pixel ({}, {})", x, y);
        }
    }
}

#[test]
fn window_paints_the_same_each_time() {
    let ctx = AppContext::open(content(), WindowSettings::new(64, 64)).ok().unwrap();
    assert_eq!(ctx.paint().data, ctx.paint().data);
}

#[test]
fn click_is_dispatched_to_the_handler_under_the_pointer() {
    let ctx = AppContext::open(content(), WindowSettings::new(512, 384)).ok().unwrap();
    assert_eq!(ctx.dispatch(&click(50, 20)), Some(&7));
    assert_eq!(ctx.dispatch(&click(150, 20)), None);
    assert_eq!(ctx.dispatch(&click(600, 20)), None);
    assert_eq!(ctx.dispatch(&click(-5, 20)), None);
}

#[test]
fn click_target_is_the_box_with_the_handler() {
    let ctx = AppContext::open(content(), WindowSettings::new(512, 384)).ok().unwrap();
    let target = ctx.find_mouse_target(50, 20).unwrap();
    assert_eq!(target.style.width, Some(100));
    assert_eq!(target.background_color, Some(Color::rgb(255, 0, 0)));
    assert!(ctx.find_mouse_target(150, 150).is_none());
}

#[test]
fn window_longer_than_a_length_is_refused() {
    assert_eq!(AppContext::open(content(), WindowSettings::new(65536, 10)).err(), Some(OpenError::WindowTooLarge));
    assert_eq!(AppContext::open(content(), WindowSettings::new(10, 70000)).err(), Some(OpenError::WindowTooLarge));
}

#[test]
fn window_without_pixels_is_painted_empty() {
    let ctx = AppContext::open(content(), WindowSettings::new(0, 0)).ok().unwrap();
    let buffer = ctx.paint();
    assert_eq!((buffer.width, buffer.height), (0, 0));
    assert!(buffer.data.is_empty());
}

#[test]
fn to_buffer_renders_into_the_given_room() {
    let buffer = content().to_buffer(ares::Size::definite(300, 100)).ok().unwrap();
    assert_eq!((buffer.width, buffer.height), (300, 100));
    for y in 0..100u32 {
        for x in 0..300u32 {
            let i = ((y * 300 + x) * 4) as usize;
            let expected = if x < 100 && y < 40 { [0, 0, 255, 255] } else { [0, 0, 0, 0] };
            assert_eq!(buffer.data[i..i + 4], expected, "pixel ({}, {})", x, y);
        }
    }
}

#[test]
fn to_buffer_without_definite_room_has_no_pixels() {
    let buffer = content().to_buffer(ares::Size::max_content()).ok().unwrap();
    assert_eq!((buffer.width, buffer.height), (0, 0));
    assert!(buffer.data.is_empty());
}

#[test]
fn context_within_a_room_dispatches_as_a_window_does() {
    let ctx = AppContext::within(content(), ares::Size::definite(200, 200)).ok().unwrap();
    assert_eq!(ctx.dispatch(&click(99, 39)), Some(&7));
    assert_eq!(ctx.dispatch(&click(101, 41)), None);
}

struct Greeting;

impl ares::Render for Greeting {
    type Handler = u32;

    fn render(&self) -> Element<u32> {
        content()
    }
}

#[test]
fn rendered_tree_can_be_opened() {
    let ctx = AppContext::open(ares::Render::render(&Greeting), WindowSettings::new(200, 200)).ok().unwrap();
    assert_eq!(ctx.dispatch(&click(1, 1)), Some(&7));
}
