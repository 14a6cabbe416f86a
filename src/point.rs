use vstd::prelude::*;

use crate::color::Color;
use crate::draw::{Displayable, Drawable, Pixel};
use crate::random::random_below;

verus! {

/// A point with signed integer coordinates.
#[derive(Clone, Copy, Debug, PartialEq, Eq, Structural)]
pub struct Point {
    pub x: i32,
    pub y: i32,
}

impl Point {
    pub fn new(x: i32, y: i32) -> (p: Point)
        ensures
            p == (Point { x, y }),
    {
        Point { x, y }
    }

    /// A point drawn uniformly from `[1, width) x [1, height)`, which must
    /// not be empty.
    pub fn random(width: i32, height: i32) -> (p: Point)
        requires
            width > 1,
            height > 1,
        ensures
            1 <= p.x < width,
            1 <= p.y < height,
    {
        let x = random_below(1, width);
        let y = random_below(1, height);
        Point::new(x, y)
    }

    /// The single pixel that this point covers, in the given color.
    pub fn pixel(&self, color: Color) -> (r: Pixel)
        ensures
            r == (Pixel { x: self.x, y: self.y, color }),
    {
        Pixel { x: self.x, y: self.y, color }
    }
}

impl Drawable for Point {
    fn draw<S: Displayable>(&self, image: &mut S) {
        let p = self.pixel(self.color());
        image.display(p.x, p.y, p.color);
    }
}

} // verus!
