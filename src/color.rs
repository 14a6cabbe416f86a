use vstd::prelude::*;

use crate::random::random_channel;

verus! {

/// An 8-bit RGBA color.
#[derive(Clone, Copy, Debug, PartialEq, Eq, Structural)]
pub struct Color {
    pub r: u8,
    pub g: u8,
    pub b: u8,
    pub a: u8,
}

/// Alpha value of a fully opaque color.
pub const OPAQUE: u8 = 255;

impl Color {
    /// A fully opaque color with the given red, green and blue channels.
    pub fn opaque(r: u8, g: u8, b: u8) -> (c: Color)
        ensures
            c == (Color { r, g, b, a: OPAQUE }),
    {
        Color { r, g, b, a: OPAQUE }
    }

    /// A fully opaque color whose red, green and blue channels are drawn
    /// independently and uniformly from `0..=255`.
    pub fn random() -> (c: Color)
        ensures
            c.a == OPAQUE,
            0 <= c.r <= 255 && 0 <= c.g <= 255 && 0 <= c.b <= 255,
    {
        let r = random_channel();
        let g = random_channel();
        let b = random_channel();
        Color::opaque(r, g, b)
    }
}

} // verus!
