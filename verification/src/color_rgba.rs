//! An RGBA color with 8-bit channels, used by the style settings.

use vstd::prelude::*;

verus! {

/// A color with red, green, blue and alpha channels.
#[derive(Debug, Clone, Copy, Eq, PartialEq, Ord, PartialOrd, Hash, Default)]
pub struct ColorRGBA {
    pub r: u8,
    pub g: u8,
    pub b: u8,
    pub a: u8,
}

impl ColorRGBA {
    /// A color from all four channels.
    pub fn new(r: u8, g: u8, b: u8, a: u8) -> (c: ColorRGBA)
        ensures
            c.r == r,
            c.g == g,
            c.b == b,
            c.a == a,
    {
        ColorRGBA { r, g, b, a }
    }

    /// A fully opaque color.
    pub fn opaque(r: u8, g: u8, b: u8) -> (c: ColorRGBA)
        ensures
            c.r == r,
            c.g == g,
            c.b == b,
            c.a == 255,
    {
        ColorRGBA { r, g, b, a: 255 }
    }
}

} // verus!
