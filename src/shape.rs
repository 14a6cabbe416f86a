use vstd::prelude::*;

use crate::circle::Circle;
use crate::cube::Cube;
use crate::draw::{Displayable, Drawable};
use crate::line::Line;
use crate::pentagon::Pentagon;
use crate::point::Point;
use crate::polygon::{Rectangle, Triangle};

verus! {

/// Any one of the drawable shapes, so that mixed shapes can be kept together
/// and drawn alike.
pub enum Shape {
    Point(Point),
    Line(Line),
    Rectangle(Rectangle),
    Triangle(Triangle),
    Circle(Circle),
    Cube(Cube),
    Pentagon(Pentagon),
}

impl Drawable for Shape {
    fn draw<S: Displayable>(&self, image: &mut S) {
        match self {
            Shape::Point(s) => s.draw(image),
            Shape::Line(s) => s.draw(image),
            Shape::Rectangle(s) => s.draw(image),
            Shape::Triangle(s) => s.draw(image),
            Shape::Circle(s) => s.draw(image),
            Shape::Cube(s) => s.draw(image),
            Shape::Pentagon(s) => s.draw(image),
        }
    }
}

/// Draws every shape of `shapes` onto `image`, in order.
pub fn draw_all<S: Displayable>(shapes: &Vec<Shape>, image: &mut S) {
    let mut i: usize = 0;
    while i < shapes.len()
        invariant
            i <= shapes@.len(),
        decreases shapes@.len() - i,
    {
        shapes[i].draw(image);
        i = i + 1;
    }
}

} // verus!
