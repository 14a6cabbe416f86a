use vstd::prelude::*;

use crate::color::Color;
use crate::draw::{emit, has_pixel, lemma_has_pixel_concat, Displayable, Drawable, Pixel};
use crate::point::Point;
use crate::random::random_below;

verus! {

/// Whether the row through `y + 1/2` passes outside radius `r` at column `x`,
/// i.e. `x^2 + (y + 1/2)^2 > r^2`, scaled by 4 to stay in integers.
pub open spec fn midpoint_outside(r: int, x: int, y: int) -> bool {
    4 * (x * x) + (2 * y + 1) * (2 * y + 1) > 4 * (r * r)
}

/// How many columns a walk at `(x, y)` has at most left to go.
pub open spec fn walk_left(x: int, y: int) -> nat {
    if x < -y {
        (-y - x) as nat
    } else {
        0
    }
}

/// The first-octant offsets visited by the contour walk that starts at
/// `(x, y)`: each step moves one column right and, when the half-row mark is
/// outside the radius, one row down; it stops once `x >= -y`.
pub open spec fn circle_walk(r: int, x: int, y: int) -> Seq<(int, int)>
    decreases walk_left(x, y),
{
    if x < -y {
        let ny = if midpoint_outside(r, x, y) {
            y + 1
        } else {
            y
        };
        seq![(x, ny)] + circle_walk(r, x + 1, ny)
    } else {
        seq![]
    }
}

/// The offset `(x, y)` under the `j`-th of the eight symmetries of the square.
pub open spec fn reflect(j: int, x: int, y: int) -> (int, int) {
    if j == 0 {
        (x, y)
    } else if j == 1 {
        (-x, y)
    } else if j == 2 {
        (-x, -y)
    } else if j == 3 {
        (x, -y)
    } else if j == 4 {
        (-y, -x)
    } else if j == 5 {
        (-y, x)
    } else if j == 6 {
        (y, -x)
    } else {
        (y, x)
    }
}

/// The eight pixels mirrored from offset `o` about the center `(cx, cy)`.
pub open spec fn octet(cx: int, cy: int, o: (int, int), color: Color) -> Seq<Pixel> {
    Seq::new(
        8,
        |j: int|
            Pixel {
                x: (cx + reflect(j, o.0, o.1).0) as i32,
                y: (cy + reflect(j, o.0, o.1).1) as i32,
                color,
            },
    )
}

/// The octets of all offsets of `w`, in order.
pub open spec fn octets(cx: int, cy: int, w: Seq<(int, int)>, color: Color) -> Seq<Pixel>
    decreases w.len(),
{
    if w.len() == 0 {
        seq![]
    } else {
        octets(cx, cy, w.drop_last(), color) + octet(cx, cy, w.last(), color)
    }
}

/// The pixels of a circle: the center alone for radius 0, else the eight
/// reflections of each offset of the contour walk from `(0, -r)`.
pub open spec fn circle_pixels(cx: int, cy: int, r: int, color: Color) -> Seq<Pixel> {
    if r == 0 {
        seq![Pixel { x: cx as i32, y: cy as i32, color }]
    } else {
        octets(cx, cy, circle_walk(r, 0, -r), color)
    }
}

/// A circle of radius `r` about `(cx, cy)` has all its pixels in `i32` range.
pub open spec fn circle_fits(cx: int, cy: int, r: int) -> bool {
    &&& 0 <= r
    &&& i32::MIN <= cx - r && cx + r <= i32::MAX
    &&& i32::MIN <= cy - r && cy + r <= i32::MAX
}

/// Every offset of a walk that starts inside the first octant stays in
/// `[0, r] x [-r, 0]`.
proof fn lemma_walk_bounded(r: int, x: int, y: int)
    requires
        0 <= x,
        -r <= y <= 0,
    ensures
        forall|i: int|
            0 <= i < circle_walk(r, x, y).len() ==> {
                let o = #[trigger] circle_walk(r, x, y)[i];
                0 <= o.0 <= r && -r <= o.1 <= 0
            },
    decreases walk_left(x, y),
{
    if x < -y {
        let ny = if midpoint_outside(r, x, y) {
            y + 1
        } else {
            y
        };
        lemma_walk_bounded(r, x + 1, ny);
        assert forall|i: int| 0 <= i < circle_walk(r, x, y).len() implies {
            let o = #[trigger] circle_walk(r, x, y)[i];
            0 <= o.0 <= r && -r <= o.1 <= 0
        } by {
            if i > 0 {
                assert(circle_walk(r, x, y)[i] == circle_walk(r, x + 1, ny)[i - 1]);
            }
        }
    }
}

/// `p`'s seven mirror images about `(cx, cy)`, across both axes and both
/// diagonals, are all pixels of `s`.
pub open spec fn mirrored(s: Seq<Pixel>, cx: int, cy: int, p: Pixel) -> bool {
    let dx = p.x - cx;
    let dy = p.y - cy;
    &&& has_pixel(s, cx - dx, cy + dy)
    &&& has_pixel(s, cx + dx, cy - dy)
    &&& has_pixel(s, cx - dx, cy - dy)
    &&& has_pixel(s, cx + dy, cy + dx)
    &&& has_pixel(s, cx - dy, cy + dx)
    &&& has_pixel(s, cx + dy, cy - dx)
    &&& has_pixel(s, cx - dy, cy - dx)
}

proof fn lemma_mirrored_concat(a: Seq<Pixel>, b: Seq<Pixel>, cx: int, cy: int, p: Pixel)
    ensures
        mirrored(a, cx, cy, p) ==> mirrored(a + b, cx, cy, p),
        mirrored(b, cx, cy, p) ==> mirrored(a + b, cx, cy, p),
{
    let dx = p.x - cx;
    let dy = p.y - cy;
    lemma_has_pixel_concat(a, b, cx - dx, cy + dy);
    lemma_has_pixel_concat(a, b, cx + dx, cy - dy);
    lemma_has_pixel_concat(a, b, cx - dx, cy - dy);
    lemma_has_pixel_concat(a, b, cx + dy, cy + dx);
    lemma_has_pixel_concat(a, b, cx - dy, cy + dx);
    lemma_has_pixel_concat(a, b, cx + dy, cy - dx);
    lemma_has_pixel_concat(a, b, cx - dy, cy - dx);
}

/// Each pixel of one octet has all its mirror images in that octet.
proof fn lemma_octet_symmetric(cx: int, cy: int, r: int, o: (int, int), color: Color)
    requires
        circle_fits(cx, cy, r),
        0 <= o.0 <= r,
        -r <= o.1 <= 0,
    ensures
        forall|j: int| 0 <= j < 8 ==> mirrored(octet(cx, cy, o, color), cx, cy, #[trigger] octet(cx, cy, o, color)[j]),
{
    let s = octet(cx, cy, o, color);
    let (x, y) = o;
    assert(s[0].x == cx + x && s[0].y == cy + y);
    assert(s[1].x == cx - x && s[1].y == cy + y);
    assert(s[2].x == cx - x && s[2].y == cy - y);
    assert(s[3].x == cx + x && s[3].y == cy - y);
    assert(s[4].x == cx - y && s[4].y == cy - x);
    assert(s[5].x == cx - y && s[5].y == cy + x);
    assert(s[6].x == cx + y && s[6].y == cy - x);
    assert(s[7].x == cx + y && s[7].y == cy + x);
}

/// Every pixel of the octets of a bounded walk has its mirror images there.
proof fn lemma_octets_symmetric(cx: int, cy: int, r: int, w: Seq<(int, int)>, color: Color)
    requires
        circle_fits(cx, cy, r),
        forall|i: int| 0 <= i < w.len() ==> 0 <= (#[trigger] w[i]).0 <= r && -r <= w[i].1 <= 0,
    ensures
        forall|i: int|
            0 <= i < octets(cx, cy, w, color).len() ==> mirrored(
                octets(cx, cy, w, color),
                cx,
                cy,
                #[trigger] octets(cx, cy, w, color)[i],
            ),
    decreases w.len(),
{
    if w.len() > 0 {
        let a = octets(cx, cy, w.drop_last(), color);
        let b = octet(cx, cy, w.last(), color);
        lemma_octets_symmetric(cx, cy, r, w.drop_last(), color);
        lemma_octet_symmetric(cx, cy, r, w.last(), color);
        assert forall|i: int|
            0 <= i < octets(cx, cy, w, color).len() implies mirrored(
            octets(cx, cy, w, color),
            cx,
            cy,
            #[trigger] octets(cx, cy, w, color)[i],
        ) by {
            if i < a.len() {
                assert((a + b)[i] == a[i]);
                lemma_mirrored_concat(a, b, cx, cy, a[i]);
            } else {
                assert((a + b)[i] == b[i - a.len()]);
                lemma_mirrored_concat(a, b, cx, cy, b[i - a.len()]);
            }
        }
    }
}

/// Eight-fold symmetry: every pixel of a circle of positive radius comes with
/// its mirror images about the center across both axes and both diagonals.
pub proof fn lemma_circle_symmetric(cx: int, cy: int, r: int, color: Color)
    requires
        circle_fits(cx, cy, r),
        r >= 1,
    ensures
        forall|i: int|
            0 <= i < circle_pixels(cx, cy, r, color).len() ==> mirrored(
                circle_pixels(cx, cy, r, color),
                cx,
                cy,
                #[trigger] circle_pixels(cx, cy, r, color)[i],
            ),
{
    lemma_walk_bounded(r, 0, -r);
    lemma_octets_symmetric(cx, cy, r, circle_walk(r, 0, -r), color);
}

/// A circle of radius 0 covers exactly its center.
pub proof fn lemma_circle_radius_zero(cx: int, cy: int, color: Color)
    requires
        circle_fits(cx, cy, 0),
    ensures
        circle_pixels(cx, cy, 0, color) == seq![Pixel { x: cx as i32, y: cy as i32, color }],
        circle_pixels(cx, cy, 0, color)[0].x == cx && circle_pixels(cx, cy, 0, color)[0].y == cy,
{
}

/// Every circle that `Circle::random(width, height)` may pick has its pixels
/// in `i32` range: the farthest right or down it reaches is
/// `(side - 1) + (min(width, height) / 2 - 1)`.
pub open spec fn random_circle_room(width: int, height: int) -> bool {
    let bound = if width < height {
        width / 2
    } else {
        height / 2
    };
    width + bound - 2 <= i32::MAX && height + bound - 2 <= i32::MAX
}

/// A circle with an integer center and radius.
pub struct Circle {
    center: Point,
    radius: i32,
}

impl Circle {
    #[verifier::type_invariant]
    spec fn fits(self) -> bool {
        circle_fits(self.center.x as int, self.center.y as int, self.radius as int)
    }

    pub closed spec fn spec_center(self) -> Point {
        self.center
    }

    pub closed spec fn spec_radius(self) -> int {
        self.radius as int
    }

    /// A circle about `center`; its radius is non-negative and every pixel of
    /// its contour has `i32` coordinates.
    pub fn new(center: Point, radius: i32) -> (c: Circle)
        requires
            circle_fits(center.x as int, center.y as int, radius as int),
        ensures
            c.spec_center() == center,
            c.spec_radius() == radius,
    {
        Circle { center, radius }
    }

    /// A circle about a random point of `[1, width) x [1, height)` with a
    /// random radius in `[0, min(width, height) / 2)`; both ranges must be
    /// non-empty, and every circle they allow must stay in the `i32` plane.
    pub fn random(width: i32, height: i32) -> (c: Circle)
        requires
            width >= 2,
            height >= 2,
            random_circle_room(width as int, height as int),
        ensures
            1 <= c.spec_center().x < width,
            1 <= c.spec_center().y < height,
            0 <= c.spec_radius(),
            2 * c.spec_radius() < width && 2 * c.spec_radius() < height,
    {
        let p = Point::random(width, height);
        let bound: i32 = if width < height {
            width / 2
        } else {
            height / 2
        };
        let r = random_below(0, bound);
        Circle::new(p, r)
    }

    pub fn center(&self) -> (p: Point)
        ensures
            p == self.spec_center(),
    {
        self.center
    }

    pub fn radius(&self) -> (r: i32)
        ensures
            r == self.spec_radius(),
            r >= 0,
    {
        proof {
            use_type_invariant(self);
        }
        self.radius
    }

    /// The pixels of this circle's contour in the given color.
    pub fn pixels(&self, color: Color) -> (out: Vec<Pixel>)
        ensures
            out@ == circle_pixels(
                self.spec_center().x as int,
                self.spec_center().y as int,
                self.spec_radius(),
                color,
            ),
    {
        proof {
            use_type_invariant(self);
        }
        let cx = self.center.x;
        let cy = self.center.y;
        let r = self.radius;
        let mut out: Vec<Pixel> = Vec::new();
        if r == 0 {
            out.push(Pixel { x: cx, y: cy, color });
            proof {
                assert(out@ =~= circle_pixels(cx as int, cy as int, r as int, color));
            }
            return out;
        }
        let ghost full = circle_walk(r as int, 0, -r);
        let ghost done: Seq<(int, int)> = seq![];
        let mut x: i32 = 0;
        let mut y: i32 = -r;
        proof {
            lemma_walk_bounded(r as int, 0, -r);
            assert(done + circle_walk(r as int, x as int, y as int) =~= full);
        }
        while x < -y
            invariant
                circle_fits(cx as int, cy as int, r as int),
                r > 0,
                0 <= x <= r,
                -r <= y <= 0,
                full == circle_walk(r as int, 0, -r),
                full == done + circle_walk(r as int, x as int, y as int),
                out@ == octets(cx as int, cy as int, done, color),
            decreases r - x,
        {
            let ghost y0 = y as int;
            let xx = x as i128;
            let yy = y as i128;
            let rr = r as i128;
            proof {
                assert(0 <= (2 * yy + 1) * (2 * yy + 1) <= 4 * (rr * rr)) by (nonlinear_arith)
                    requires
                        -rr <= yy < 0,
                ;
                assert(4 * (xx * xx) <= 4 * (rr * rr)) by (nonlinear_arith)
                    requires
                        0 <= xx <= rr,
                ;
                assert(rr * rr <= 0x4000_0000_0000_0000) by (nonlinear_arith)
                    requires
                        0 < rr <= 0x8000_0000,
                ;
            }
            if 4 * (xx * xx) + (2 * yy + 1) * (2 * yy + 1) > 4 * (rr * rr) {
                y = y + 1;
            }
            let ghost o = (x as int, y as int);
            proof {
                assert(circle_walk(r as int, x as int, y0) == seq![o] + circle_walk(r as int, x + 1, y as int));
            }
            out.push(Pixel { x: cx + x, y: cy + y, color });
            out.push(Pixel { x: cx - x, y: cy + y, color });
            out.push(Pixel { x: cx - x, y: cy - y, color });
            out.push(Pixel { x: cx + x, y: cy - y, color });
            out.push(Pixel { x: cx - y, y: cy - x, color });
            out.push(Pixel { x: cx - y, y: cy + x, color });
            out.push(Pixel { x: cx + y, y: cy - x, color });
            out.push(Pixel { x: cx + y, y: cy + x, color });
            proof {
                let old_done = done;
                done = done.push(o);
                assert(done.drop_last() =~= old_done);
                assert(out@ =~= octets(cx as int, cy as int, done, color));
                assert(full =~= done + circle_walk(r as int, x + 1, y as int));
            }
            x = x + 1;
        }
        out
    }
}

impl Drawable for Circle {
    fn draw<S: Displayable>(&self, image: &mut S) {
        let color = self.color();
        emit(image, &self.pixels(color));
    }
}

} // verus!
