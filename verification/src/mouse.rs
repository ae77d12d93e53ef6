use vstd::prelude::*;

verus! {

/// The button of a pointer event.
#[derive(Clone, Copy, Debug, PartialEq, Eq, Structural)]
pub enum MouseButton {
    Left,
    Right,
}

/// A pointer event in the coordinates of the root buffer, in whole pixels.
#[derive(Clone, Copy, Debug, PartialEq, Eq, Structural)]
pub struct MouseEvent {
    pub x: i32,
    pub y: i32,
    pub button: MouseButton,
}

/// Code that the Linux input layer gives the primary button.
pub const BTN_LEFT: u32 = 0x110;

/// Code that the Linux input layer gives the secondary button.
pub const BTN_RIGHT: u32 = 0x111;

impl MouseButton {
    /// The button that an input-layer button code stands for.
    pub open spec fn of_code(code: u32) -> Option<MouseButton> {
        if code == BTN_LEFT {
            Some(MouseButton::Left)
        } else if code == BTN_RIGHT {
            Some(MouseButton::Right)
        } else {
            None
        }
    }

    /// Decodes an input-layer button code; codes of other buttons give `None`.
    pub fn from_code(code: u32) -> (b: Option<MouseButton>)
        ensures
            b == Self::of_code(code),
    {
        if code == BTN_LEFT {
            Some(MouseButton::Left)
        } else if code == BTN_RIGHT {
            Some(MouseButton::Right)
        } else {
            None
        }
    }
}

/// What a platform's pointer has told so far: the position of the last motion.
///
/// The platform reports motion and button changes separately; a click is the
/// release of a known button at the position last reported.
#[derive(Clone, Copy, Debug, PartialEq, Eq, Structural)]
pub struct PointerState {
    pub x: i32,
    pub y: i32,
}

impl PointerState {
    /// A pointer that has not moved yet rests at the origin.
    pub fn new() -> (s: Self)
        ensures
            s == (PointerState { x: 0, y: 0 }),
    {
        PointerState { x: 0, y: 0 }
    }

    /// The pointer moved to `(x, y)`.
    pub fn motion(&mut self, x: i32, y: i32)
        ensures
            *final(self) == (PointerState { x, y }),
    {
        self.x = x;
        self.y = y;
    }

    /// The click, if any, that a button change stands for.
    pub open spec fn click(self, code: u32, released: bool) -> Option<MouseEvent> {
        match MouseButton::of_code(code) {
            Some(button) if released => Some(MouseEvent { x: self.x, y: self.y, button }),
            _ => None,
        }
    }

    /// A button changed. Gives the event to dispatch when a known button was
    /// released, and nothing on a press or for an unknown button. The
    /// position is not changed.
    pub fn button(&self, code: u32, released: bool) -> (e: Option<MouseEvent>)
        ensures
            e == self.click(code, released),
    {
        if !released {
            return None;
        }
        match MouseButton::from_code(code) {
            Some(button) => Some(MouseEvent { x: self.x, y: self.y, button }),
            None => None,
        }
    }
}

} // verus!
