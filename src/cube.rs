use vstd::prelude::*;

use crate::arith::{trunc_div, trunc_div_exec};
use crate::color::Color;
use crate::draw::{emit, Displayable, Drawable, Pixel};
use crate::line::{chain_pixels, rasterize_lines, Line};
use crate::point::Point;
use crate::polygon::{rect_edges, Rectangle};

verus! {

/// The offset from the front face to the back face: half the signed
/// difference of the corners, truncated toward zero, with `y` inverted.
pub open spec fn cube_depth(a: Point, b: Point) -> (int, int) {
    (trunc_div(a.x - b.x, 2), -trunc_div(a.y - b.y, 2))
}

pub open spec fn in_i32(v: int) -> bool {
    i32::MIN <= v <= i32::MAX
}

/// The back face of a cube with front corners `a` and `b` has `i32` corners.
pub open spec fn cube_fits(a: Point, b: Point) -> bool {
    let d = cube_depth(a, b);
    &&& in_i32(a.x + d.0) && in_i32(b.x + d.0)
    &&& in_i32(a.y + d.1) && in_i32(b.y + d.1)
}

/// `p` moved by the cube's depth offset.
pub open spec fn shifted(p: Point, d: (int, int)) -> Point {
    Point { x: (p.x + d.0) as i32, y: (p.y + d.1) as i32 }
}

pub open spec fn corner_c(a: Point, b: Point) -> Point {
    Point { x: a.x, y: b.y }
}

pub open spec fn corner_d(a: Point, b: Point) -> Point {
    Point { x: b.x, y: a.y }
}

/// The four lines joining corresponding corners `a, b, c, d` of the front
/// face (corners `a`, `b`) and the back face (corners `a2`, `b2`).
pub open spec fn connector_lines(a: Point, b: Point, a2: Point, b2: Point, color: Color) -> Seq<Line> {
    seq![
        Line { start: a, end: a2, color },
        Line { start: b, end: b2, color },
        Line { start: corner_c(a, b), end: corner_c(a2, b2), color },
        Line { start: corner_d(a, b), end: corner_d(a2, b2), color },
    ]
}

/// Every line of a cube drawing: the front outline, the back outline, then
/// the four connectors.
pub open spec fn cube_edges(a: Point, b: Point, color: Color) -> Seq<Line> {
    let d = cube_depth(a, b);
    let a2 = shifted(a, d);
    let b2 = shifted(b, d);
    rect_edges(a, b, color) + rect_edges(a2, b2, color) + connector_lines(a, b, a2, b2, color)
}

/// A wireframe cube: a front rectangle, a back rectangle offset from it, and
/// lines joining their corners.
pub struct Cube {
    a: Point,
    b: Point,
}

impl Cube {
    #[verifier::type_invariant]
    spec fn back_fits(self) -> bool {
        cube_fits(self.a, self.b)
    }

    pub closed spec fn spec_a(self) -> Point {
        self.a
    }

    pub closed spec fn spec_b(self) -> Point {
        self.b
    }

    pub open spec fn spec_back_a(self) -> Point {
        shifted(self.spec_a(), cube_depth(self.spec_a(), self.spec_b()))
    }

    pub open spec fn spec_back_b(self) -> Point {
        shifted(self.spec_b(), cube_depth(self.spec_a(), self.spec_b()))
    }

    /// Whether a cube with front corners `a` and `b` can be built.
    pub fn fits(a: &Point, b: &Point) -> (r: bool)
        ensures
            r == cube_fits(*a, *b),
    {
        let dx = trunc_div_exec(a.x as i64 - b.x as i64, 2);
        let dy = -trunc_div_exec(a.y as i64 - b.y as i64, 2);
        let lo = i32::MIN as i64;
        let hi = i32::MAX as i64;
        let ax = a.x as i64 + dx;
        let bx = b.x as i64 + dx;
        let ay = a.y as i64 + dy;
        let by = b.y as i64 + dy;
        lo <= ax && ax <= hi && lo <= bx && bx <= hi && lo <= ay && ay <= hi && lo <= by && by <= hi
    }

    /// The cube whose front face has opposite corners `a` and `b`.
    pub fn new(a: &Point, b: &Point) -> (c: Cube)
        requires
            cube_fits(*a, *b),
        ensures
            c.spec_a() == *a,
            c.spec_b() == *b,
    {
        Cube { a: *a, b: *b }
    }

    /// The depth offset `(dx, dy)` from the front face to the back face.
    pub fn depth(&self) -> (d: (i32, i32))
        ensures
            d.0 == cube_depth(self.spec_a(), self.spec_b()).0,
            d.1 == cube_depth(self.spec_a(), self.spec_b()).1,
    {
        let dx = trunc_div_exec(self.a.x as i64 - self.b.x as i64, 2);
        let dy = -trunc_div_exec(self.a.y as i64 - self.b.y as i64, 2);
        (dx as i32, dy as i32)
    }

    /// The front face in `color`.
    pub fn front(&self, color: Color) -> (r: Rectangle)
        ensures
            r.spec_a() == self.spec_a(),
            r.spec_b() == self.spec_b(),
            r.spec_color() == color,
    {
        Rectangle::colored(&self.a, &self.b, color)
    }

    /// The back face in `color`: the front face moved by the depth offset.
    pub fn back(&self, color: Color) -> (r: Rectangle)
        ensures
            r.spec_a() == self.spec_back_a(),
            r.spec_b() == self.spec_back_b(),
            r.spec_color() == color,
    {
        proof {
            use_type_invariant(self);
        }
        let (dx, dy) = self.depth();
        let a2 = Point::new((self.a.x as i64 + dx as i64) as i32, (self.a.y as i64 + dy as i64) as i32);
        let b2 = Point::new((self.b.x as i64 + dx as i64) as i32, (self.b.y as i64 + dy as i64) as i32);
        Rectangle::colored(&a2, &b2, color)
    }

    /// The four lines joining corresponding corners of the two faces.
    pub fn connectors(&self, color: Color) -> (r: Vec<Line>)
        ensures
            r@ == connector_lines(self.spec_a(), self.spec_b(), self.spec_back_a(), self.spec_back_b(), color),
    {
        let front = self.front(color);
        let back = self.back(color);
        let r = vec![
            Line::new(front.a(), back.a(), color),
            Line::new(front.b(), back.b(), color),
            Line::new(front.c(), back.c(), color),
            Line::new(front.d(), back.d(), color),
        ];
        proof {
            assert(r@ =~= connector_lines(self.spec_a(), self.spec_b(), self.spec_back_a(), self.spec_back_b(), color));
        }
        r
    }

    /// All twelve lines: front outline, back outline, connectors.
    pub fn edges(&self, color: Color) -> (r: Vec<Line>)
        ensures
            r@ == cube_edges(self.spec_a(), self.spec_b(), color),
    {
        let mut r = self.front(color).edges();
        let mut back = self.back(color).edges();
        let mut links = self.connectors(color);
        r.append(&mut back);
        r.append(&mut links);
        r
    }

    /// The pixels of all twelve lines in one color, line after line.
    pub fn pixels(&self, color: Color) -> (r: Vec<Pixel>)
        ensures
            r@ == chain_pixels(cube_edges(self.spec_a(), self.spec_b(), color)),
    {
        rasterize_lines(&self.edges(color))
    }
}

impl Drawable for Cube {
    fn draw<S: Displayable>(&self, image: &mut S) {
        let color = self.color();
        emit(image, &self.pixels(color));
    }
}

/// A cube is drawn as two rectangle outlines in one shared color, the back one
/// the front one moved by the depth offset, plus four connectors, each from a
/// corner of the front face to the same corner of the back face.
pub proof fn lemma_cube_structure(a: Point, b: Point, color: Color)
    requires
        cube_fits(a, b),
    ensures
        ({
            let e = cube_edges(a, b, color);
            let d = cube_depth(a, b);
            let a2 = shifted(a, d);
            let b2 = shifted(b, d);
            &&& e.len() == 12
            &&& e.subrange(0, 4) == rect_edges(a, b, color)
            &&& e.subrange(4, 8) == rect_edges(a2, b2, color)
            &&& e.subrange(8, 12) == connector_lines(a, b, a2, b2, color)
            &&& forall|i: int| 0 <= i < 12 ==> (#[trigger] e[i]).color == color
            &&& a2.x == a.x + d.0 && a2.y == a.y + d.1
            &&& b2.x == b.x + d.0 && b2.y == b.y + d.1
            &&& corner_c(a2, b2) == shifted(corner_c(a, b), d)
            &&& corner_d(a2, b2) == shifted(corner_d(a, b), d)
        }),
{
    let e = cube_edges(a, b, color);
    let d = cube_depth(a, b);
    let a2 = shifted(a, d);
    let b2 = shifted(b, d);
    assert(e.subrange(0, 4) =~= rect_edges(a, b, color));
    assert(e.subrange(4, 8) =~= rect_edges(a2, b2, color));
    assert(e.subrange(8, 12) =~= connector_lines(a, b, a2, b2, color));
}

} // verus!
