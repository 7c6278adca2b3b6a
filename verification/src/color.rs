//! An opaque 4-channel RGBA color value.

use vstd::prelude::*;

verus! {

/// One cell's color; equality is componentwise.
#[derive(Clone, Copy, PartialEq, Eq, Structural, Debug)]
pub struct Color {
    pub r: u8,
    pub g: u8,
    pub b: u8,
    pub a: u8,
}

/// The sentinel written for every canvas pixel whose source cell lies
/// outside the grid: opaque black.
pub open spec fn sentinel_spec() -> Color {
    Color { r: 0, g: 0, b: 0, a: 255 }
}

impl Color {
    /// Build a color from its four channels.
    pub fn new(r: u8, g: u8, b: u8, a: u8) -> (c: Color)
        ensures
            c == (Color { r, g, b, a }),
    {
        Color { r, g, b, a }
    }

    /// The out-of-bounds sentinel: opaque black.
    pub fn sentinel() -> (c: Color)
        ensures
            c == sentinel_spec(),
    {
        Color { r: 0, g: 0, b: 0, a: 255 }
    }

    /// The channel at index `k`, in R, G, B, A order.
    pub open spec fn channel(self, k: int) -> u8 {
        if k == 0 {
            self.r
        } else if k == 1 {
            self.g
        } else if k == 2 {
            self.b
        } else {
            self.a
        }
    }
}

} // verus!
