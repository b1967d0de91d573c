//! Solid colors with three 8-bit channels, packed into one 32-bit pixel
//! value in `0x00RRGGBB` layout.

use vstd::prelude::*;

verus! {

/// A solid color: red, green and blue channels, each in `[0, 255]`.
#[derive(Clone, Copy, PartialEq, Eq, Structural, Debug)]
pub struct Color {
    pub r: u8,
    pub g: u8,
    pub b: u8,
}

impl Color {
    /// The packed 32-bit pixel value of this color: `0x00RRGGBB`.
    pub open spec fn packed(self) -> u32 {
        (self.r as int * 0x10000 + self.g as int * 0x100 + self.b as int) as u32
    }

    pub fn new(r: u8, g: u8, b: u8) -> (c: Color)
        ensures
            c.r == r,
            c.g == g,
            c.b == b,
    {
        Color { r, g, b }
    }

    /// Packs the three channels into one `0x00RRGGBB` value.
    pub fn to_u32(&self) -> (p: u32)
        ensures
            p == self.packed(),
    {
        (self.r as u32) * 0x10000 + (self.g as u32) * 0x100 + (self.b as u32)
    }
}

} // verus!
