use vstd::prelude::*;

verus! {

/// The size in pixels at which a window is opened.
#[derive(Clone, Copy, Debug, PartialEq, Eq, Structural)]
pub struct WindowSettings {
    pub width: u32,
    pub height: u32,
}

impl WindowSettings {
    pub fn new(width: u32, height: u32) -> (s: Self)
        ensures
            s == (WindowSettings { width, height }),
    {
        Self { width, height }
    }
}

impl Default for WindowSettings {
    /// An 800 by 600 window.
    fn default() -> (s: Self)
        ensures
            s == (WindowSettings { width: 800, height: 600 }),
    {
        Self { width: 800, height: 600 }
    }
}

} // verus!
