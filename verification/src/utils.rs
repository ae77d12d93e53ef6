use vstd::prelude::*;

verus! {

/// A color of four 8-bit channels with straight (not premultiplied) alpha.
#[derive(Clone, Copy, Debug, PartialEq, Eq, Structural)]
pub struct Color {
    pub r: u8,
    pub g: u8,
    pub b: u8,
    pub a: u8,
}

impl Color {
    /// An opaque color.
    pub fn rgb(r: u8, g: u8, b: u8) -> (c: Self)
        ensures
            c == (Color { r, g, b, a: 255 }),
    {
        Self { r, g, b, a: 255 }
    }

    /// The byte that this color stores in channel `c` of a pixel, whose
    /// channels are ordered blue, green, red, alpha.
    pub open spec fn channel(self, c: int) -> u8 {
        if c == 0 {
            self.b
        } else if c == 1 {
            self.g
        } else if c == 2 {
            self.r
        } else {
            self.a
        }
    }
}

} // verus!
