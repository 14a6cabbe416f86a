use vstd::prelude::*;

use crate::color::{Color, OPAQUE};

verus! {

/// One pixel write: a position and the color to put there.
#[derive(Clone, Copy, Debug, PartialEq, Eq, Structural)]
pub struct Pixel {
    pub x: i32,
    pub y: i32,
    pub color: Color,
}

/// Whether some pixel of `s` lies at `(x, y)`.
pub open spec fn has_pixel(s: Seq<Pixel>, x: int, y: int) -> bool {
    exists|i: int| 0 <= i < s.len() && s[i].x == x && s[i].y == y
}

/// A pixel of either part is a pixel of their concatenation.
pub proof fn lemma_has_pixel_concat(a: Seq<Pixel>, b: Seq<Pixel>, x: int, y: int)
    ensures
        has_pixel(a, x, y) ==> has_pixel(a + b, x, y),
        has_pixel(b, x, y) ==> has_pixel(a + b, x, y),
{
    if has_pixel(a, x, y) {
        let i = choose|i: int| 0 <= i < a.len() && a[i].x == x && a[i].y == y;
        assert((a + b)[i] == a[i]);
    }
    if has_pixel(b, x, y) {
        let i = choose|i: int| 0 <= i < b.len() && b[i].x == x && b[i].y == y;
        assert((a + b)[a.len() + i] == b[i]);
    }
}

/// A surface that pixels can be written to.
///
/// Writes outside the surface are the implementation's to clip or ignore;
/// they must not panic.
pub trait Displayable {
    fn display(&mut self, x: i32, y: i32, color: Color);
}

/// A shape that can render itself onto a surface.
pub trait Drawable {
    fn draw<S: Displayable>(&self, image: &mut S);

    /// The color used for a draw: by default a fresh random opaque color.
    fn color(&self) -> (c: Color)
        default_ensures
            c.a == OPAQUE,
    {
        Color::random()
    }
}

/// Writes each pixel of `pixels` to `image`, in order.
pub fn emit<S: Displayable>(image: &mut S, pixels: &Vec<Pixel>) {
    let mut i: usize = 0;
    while i < pixels.len()
        invariant
            i <= pixels@.len(),
        decreases pixels@.len() - i,
    {
        let p = pixels[i];
        image.display(p.x, p.y, p.color);
        i = i + 1;
    }
}

} // verus!
