use vstd::prelude::*;

use crate::color::Color;
use crate::draw::{emit, has_pixel, Displayable, Drawable, Pixel};
use crate::line::{
    chain_pixels, lemma_chain_covers, lemma_horizontal_line_covers, lemma_vertical_line_covers,
    rasterize_lines, Line,
};
use crate::point::Point;

verus! {

/// The outline of the axis-aligned rectangle with opposite corners `a` and
/// `b`, walked `a -> c -> b -> d -> a` with `c = (a.x, b.y)`, `d = (b.x, a.y)`.
pub open spec fn rect_edges(a: Point, b: Point, color: Color) -> Seq<Line> {
    let c = Point { x: a.x, y: b.y };
    let d = Point { x: b.x, y: a.y };
    seq![
        Line { start: a, end: c, color },
        Line { start: c, end: b, color },
        Line { start: b, end: d, color },
        Line { start: d, end: a, color },
    ]
}

pub open spec fn between(v: int, lo_or_hi: int, hi_or_lo: int) -> bool {
    lo_or_hi <= v <= hi_or_lo || hi_or_lo <= v <= lo_or_hi
}

/// `(x, y)` lies on the border of the rectangle with opposite corners `a`, `b`.
pub open spec fn on_perimeter(a: Point, b: Point, x: int, y: int) -> bool {
    ||| (x == a.x || x == b.x) && between(y, a.y as int, b.y as int)
    ||| (y == a.y || y == b.y) && between(x, a.x as int, b.x as int)
}

/// An axis-aligned rectangle outline with one color for all four sides.
pub struct Rectangle {
    a: Point,
    b: Point,
    c: Point,
    d: Point,
    color: Color,
}

impl Rectangle {
    #[verifier::type_invariant]
    spec fn axis_aligned(self) -> bool {
        &&& self.c == (Point { x: self.a.x, y: self.b.y })
        &&& self.d == (Point { x: self.b.x, y: self.a.y })
    }

    pub closed spec fn spec_a(self) -> Point {
        self.a
    }

    pub closed spec fn spec_b(self) -> Point {
        self.b
    }

    pub closed spec fn spec_color(self) -> Color {
        self.color
    }

    pub open spec fn spec_c(self) -> Point {
        Point { x: self.spec_a().x, y: self.spec_b().y }
    }

    pub open spec fn spec_d(self) -> Point {
        Point { x: self.spec_b().x, y: self.spec_a().y }
    }

    pub open spec fn spec_edges(self) -> Seq<Line> {
        rect_edges(self.spec_a(), self.spec_b(), self.spec_color())
    }

    /// The rectangle with opposite corners `a` and `b`, in `color`.
    pub fn colored(a: &Point, b: &Point, color: Color) -> (r: Rectangle)
        ensures
            r.spec_a() == *a,
            r.spec_b() == *b,
            r.spec_color() == color,
    {
        Rectangle {
            a: *a,
            b: *b,
            c: Point::new(a.x, b.y),
            d: Point::new(b.x, a.y),
            color,
        }
    }

    /// The rectangle with opposite corners `a` and `b`, in a random opaque color.
    pub fn new(a: &Point, b: &Point) -> (r: Rectangle)
        ensures
            r.spec_a() == *a,
            r.spec_b() == *b,
            r.spec_color().a == 255,
    {
        Rectangle::colored(a, b, Color::random())
    }

    /// The same rectangle in another color.
    pub fn with_color(&self, color: Color) -> (r: Rectangle)
        ensures
            r.spec_a() == self.spec_a(),
            r.spec_b() == self.spec_b(),
            r.spec_color() == color,
    {
        Rectangle::colored(&self.a, &self.b, color)
    }

    pub fn a(&self) -> (p: Point)
        ensures
            p == self.spec_a(),
    {
        self.a
    }

    pub fn b(&self) -> (p: Point)
        ensures
            p == self.spec_b(),
    {
        self.b
    }

    /// The corner `(a.x, b.y)`.
    pub fn c(&self) -> (p: Point)
        ensures
            p == self.spec_c(),
    {
        proof {
            use_type_invariant(self);
        }
        self.c
    }

    /// The corner `(b.x, a.y)`.
    pub fn d(&self) -> (p: Point)
        ensures
            p == self.spec_d(),
    {
        proof {
            use_type_invariant(self);
        }
        self.d
    }

    pub fn color(&self) -> (c: Color)
        ensures
            c == self.spec_color(),
    {
        self.color
    }

    /// The four sides, `a -> c -> b -> d -> a`.
    pub fn edges(&self) -> (r: Vec<Line>)
        ensures
            r@ == self.spec_edges(),
    {
        proof {
            use_type_invariant(self);
        }
        let r = vec![
            Line::new(self.a, self.c, self.color),
            Line::new(self.c, self.b, self.color),
            Line::new(self.b, self.d, self.color),
            Line::new(self.d, self.a, self.color),
        ];
        proof {
            assert(r@ =~= self.spec_edges());
        }
        r
    }

    /// The pixels of the outline, side after side.
    pub fn pixels(&self) -> (r: Vec<Pixel>)
        ensures
            r@ == chain_pixels(self.spec_edges()),
    {
        rasterize_lines(&self.edges())
    }
}

impl Drawable for Rectangle {
    fn draw<S: Displayable>(&self, image: &mut S) {
        emit(image, &self.pixels());
    }

    fn color(&self) -> Color {
        self.color
    }
}

/// The outline of a rectangle covers every integer point of its border.
pub proof fn lemma_rectangle_outline_covers(a: Point, b: Point, color: Color, x: int, y: int)
    requires
        on_perimeter(a, b, x, y),
    ensures
        has_pixel(chain_pixels(rect_edges(a, b, color)), x, y),
{
    let e = rect_edges(a, b, color);
    if x == a.x && between(y, a.y as int, b.y as int) {
        lemma_vertical_line_covers(e[0].start, e[0].end, color, y);
        lemma_chain_covers(e, 0, x, y);
    } else if x == b.x && between(y, a.y as int, b.y as int) {
        lemma_vertical_line_covers(e[2].start, e[2].end, color, y);
        lemma_chain_covers(e, 2, x, y);
    } else if y == b.y {
        lemma_horizontal_line_covers(e[1].start, e[1].end, color, x);
        lemma_chain_covers(e, 1, x, y);
    } else {
        lemma_horizontal_line_covers(e[3].start, e[3].end, color, x);
        lemma_chain_covers(e, 3, x, y);
    }
}

/// The sides of a triangle, walked `a -> c -> b -> a`.
pub open spec fn triangle_edges(a: Point, b: Point, c: Point, color: Color) -> Seq<Line> {
    seq![
        Line { start: a, end: c, color },
        Line { start: c, end: b, color },
        Line { start: b, end: a, color },
    ]
}

/// A triangle outline, given by its three vertices.
pub struct Triangle {
    a: Point,
    b: Point,
    c: Point,
}

impl Triangle {
    pub closed spec fn spec_vertices(self) -> (Point, Point, Point) {
        (self.a, self.b, self.c)
    }

    pub fn new(point_a: &Point, point_b: &Point, point_c: &Point) -> (t: Triangle)
        ensures
            t.spec_vertices() == (*point_a, *point_b, *point_c),
    {
        Triangle { a: *point_a, b: *point_b, c: *point_c }
    }

    /// The vertices `(a, b, c)`.
    pub fn vertices(&self) -> (r: (Point, Point, Point))
        ensures
            r == self.spec_vertices(),
    {
        (self.a, self.b, self.c)
    }

    /// The three sides in one color: `a -> c`, `c -> b`, `b -> a`.
    pub fn edges(&self, color: Color) -> (r: Vec<Line>)
        ensures
            r@ == triangle_edges(self.spec_vertices().0, self.spec_vertices().1, self.spec_vertices().2, color),
    {
        let r = vec![
            Line::new(self.a, self.c, color),
            Line::new(self.c, self.b, color),
            Line::new(self.b, self.a, color),
        ];
        proof {
            assert(r@ =~= triangle_edges(self.a, self.b, self.c, color));
        }
        r
    }

    /// The pixels of the outline in one color, side after side.
    pub fn pixels(&self, color: Color) -> (r: Vec<Pixel>)
        ensures
            r@ == chain_pixels(
                triangle_edges(self.spec_vertices().0, self.spec_vertices().1, self.spec_vertices().2, color),
            ),
    {
        rasterize_lines(&self.edges(color))
    }
}

impl Drawable for Triangle {
    fn draw<S: Displayable>(&self, image: &mut S) {
        let color = self.color();
        emit(image, &self.pixels(color));
    }
}

} // verus!
