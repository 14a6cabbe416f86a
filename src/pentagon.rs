use vstd::prelude::*;

use crate::arith::{abs, trunc_div, trunc_div_exec};
use crate::color::Color;
use crate::cube::in_i32;
use crate::draw::{emit, Displayable, Drawable, Pixel};
use crate::line::{chain_pixels, rasterize_lines, Line};
use crate::point::Point;

verus! {

/// Fixed-point scale of the direction table: one unit is `10^-9`.
pub const DIRECTION_SCALE: i64 = 1_000_000_000;

/// Cosine of `72 * k` degrees, `k` in `0..5`, in units of `10^-9`.
pub open spec fn heading_cos(k: int) -> int {
    if k == 0 {
        1_000_000_000
    } else if k == 1 || k == 4 {
        309_016_994
    } else {
        -809_016_994
    }
}

/// Sine of `72 * k` degrees, `k` in `0..5`, in units of `10^-9`.
pub open spec fn heading_sin(k: int) -> int {
    if k == 0 {
        0
    } else if k == 1 {
        951_056_516
    } else if k == 2 {
        587_785_252
    } else if k == 3 {
        -587_785_252
    } else {
        -951_056_516
    }
}

/// The `k`-th side as an offset: `side` along heading `72 * k` degrees, each
/// coordinate truncated toward zero.
pub open spec fn side_offset(side: int, k: int) -> (int, int) {
    (
        trunc_div(side * heading_cos(k), DIRECTION_SCALE as int),
        trunc_div(side * heading_sin(k), DIRECTION_SCALE as int),
    )
}

/// The `k`-th vertex: the start moved by the first `k` side offsets.
pub open spec fn pentagon_vertex(start: Point, side: int, k: int) -> (int, int)
    decreases k,
{
    if k <= 0 {
        (start.x as int, start.y as int)
    } else {
        let p = pentagon_vertex(start, side, k - 1);
        let o = side_offset(side, k - 1);
        (p.0 + o.0, p.1 + o.1)
    }
}

/// All six vertices (the start and the five side ends) have `i32` coordinates.
pub open spec fn pentagon_fits(start: Point, side: int) -> bool {
    forall|k: int|
        0 <= k <= 5 ==> in_i32(#[trigger] pentagon_vertex(start, side, k).0) && in_i32(
            pentagon_vertex(start, side, k).1,
        )
}

pub open spec fn vertex_point(start: Point, side: int, k: int) -> Point {
    Point { x: pentagon_vertex(start, side, k).0 as i32, y: pentagon_vertex(start, side, k).1 as i32 }
}

/// The five sides: side `k` runs from vertex `k` to vertex `k + 1`.
pub open spec fn pentagon_lines(start: Point, side: int, color: Color) -> Seq<Line> {
    Seq::new(
        5,
        |k: int|
            Line { start: vertex_point(start, side, k), end: vertex_point(start, side, k + 1), color },
    )
}

proof fn lemma_trunc_within(n: int)
    requires
        -0x8000_0000 * 1_000_000_000 <= n <= 0x8000_0000 * 1_000_000_000,
    ensures
        -0x8000_0000 <= trunc_div(n, DIRECTION_SCALE as int) <= 0x8000_0000,
{
    let bound: int = 0x8000_0000int * 1_000_000_000int;
    let d: int = 1_000_000_000;
    vstd::arithmetic::div_mod::lemma_div_by_multiple(0x8000_0000, d);
    if n >= 0 {
        vstd::arithmetic::div_mod::lemma_div_is_ordered(n, bound, d);
        vstd::arithmetic::div_mod::lemma_div_pos_is_pos(n, d);
    } else {
        vstd::arithmetic::div_mod::lemma_div_is_ordered(-n, bound, d);
        vstd::arithmetic::div_mod::lemma_div_pos_is_pos(-n, d);
    }
}

/// Executable `side_offset`.
fn side_offset_exec(side: i32, k: usize) -> (r: (i64, i64))
    requires
        k < 5,
    ensures
        r.0 == side_offset(side as int, k as int).0,
        r.1 == side_offset(side as int, k as int).1,
        -0x8000_0000 <= r.0 <= 0x8000_0000,
        -0x8000_0000 <= r.1 <= 0x8000_0000,
{
    let c: i64 = if k == 0 {
        1_000_000_000
    } else if k == 1 || k == 4 {
        309_016_994
    } else {
        -809_016_994
    };
    let s: i64 = if k == 0 {
        0
    } else if k == 1 {
        951_056_516
    } else if k == 2 {
        587_785_252
    } else if k == 3 {
        -587_785_252
    } else {
        -951_056_516
    };
    let sd = side as i64;
    proof {
        assert(-0x8000_0000 * 1_000_000_000 <= sd * c <= 0x8000_0000 * 1_000_000_000) by (nonlinear_arith)
            requires
                -0x8000_0000 <= sd <= 0x8000_0000,
                -1_000_000_000 <= c <= 1_000_000_000,
        ;
        assert(-0x8000_0000 * 1_000_000_000 <= sd * s <= 0x8000_0000 * 1_000_000_000) by (nonlinear_arith)
            requires
                -0x8000_0000 <= sd <= 0x8000_0000,
                -1_000_000_000 <= s <= 1_000_000_000,
        ;
    }
    let ox = trunc_div_exec(sd * c, DIRECTION_SCALE);
    let oy = trunc_div_exec(sd * s, DIRECTION_SCALE);
    proof {
        lemma_trunc_within(sd * c);
        lemma_trunc_within(sd * s);
    }
    (ox, oy)
}

/// Each side offset is at most `|side|` along either axis.
proof fn lemma_side_offset_within(side: int, k: int)
    ensures
        abs(side_offset(side, k).0) <= abs(side),
        abs(side_offset(side, k).1) <= abs(side),
{
    let d: int = 1_000_000_000;
    let m = abs(side);
    vstd::arithmetic::div_mod::lemma_div_by_multiple(m, d);
    let c = heading_cos(k);
    let s = heading_sin(k);
    assert(abs(side * c) <= m * d) by (nonlinear_arith)
        requires
            -d <= c <= d,
            m == abs(side),
    ;
    assert(abs(side * s) <= m * d) by (nonlinear_arith)
        requires
            -d <= s <= d,
            m == abs(side),
    ;
    vstd::arithmetic::div_mod::lemma_div_is_ordered(abs(side * c), m * d, d);
    vstd::arithmetic::div_mod::lemma_div_pos_is_pos(abs(side * c), d);
    vstd::arithmetic::div_mod::lemma_div_is_ordered(abs(side * s), m * d, d);
    vstd::arithmetic::div_mod::lemma_div_pos_is_pos(abs(side * s), d);
}

/// The `k`-th vertex is at most `k * |side|` from the start along either axis.
proof fn lemma_vertex_within(start: Point, side: int, k: int)
    requires
        0 <= k,
    ensures
        abs(pentagon_vertex(start, side, k).0 - start.x) <= k * abs(side),
        abs(pentagon_vertex(start, side, k).1 - start.y) <= k * abs(side),
    decreases k,
{
    if k > 0 {
        lemma_vertex_within(start, side, k - 1);
        lemma_side_offset_within(side, k - 1);
        assert(k * abs(side) == (k - 1) * abs(side) + abs(side)) by (nonlinear_arith);
    }
}

/// A pentagon fits whenever the start is at least `5 * |side|` away from
/// every edge of the `i32` range.
pub proof fn lemma_pentagon_fits_with_room(start: Point, side: int)
    requires
        i32::MIN + 5 * abs(side) <= start.x <= i32::MAX - 5 * abs(side),
        i32::MIN + 5 * abs(side) <= start.y <= i32::MAX - 5 * abs(side),
    ensures
        pentagon_fits(start, side),
{
    assert forall|k: int| 0 <= k <= 5 implies in_i32(#[trigger] pentagon_vertex(start, side, k).0) && in_i32(
        pentagon_vertex(start, side, k).1,
    ) by {
        lemma_vertex_within(start, side, k);
        assert(k * abs(side) <= 5 * abs(side)) by (nonlinear_arith)
            requires
                0 <= k <= 5,
        ;
    }
}

/// A regular-ish pentagon outline: five sides of one color, each turned 72
/// degrees from the previous one.
pub struct Pentagon {
    lines: Vec<Line>,
}

impl Pentagon {
    pub closed spec fn spec_lines(self) -> Seq<Line> {
        self.lines@
    }

    /// Whether a pentagon from `start` with sides of `side_length` stays in
    /// the `i32` plane.
    pub fn fits(start: &Point, side_length: i32) -> (r: bool)
        ensures
            r == pentagon_fits(*start, side_length as int),
    {
        let lo = i32::MIN as i64;
        let hi = i32::MAX as i64;
        let mut x = start.x as i64;
        let mut y = start.y as i64;
        let mut k: usize = 0;
        while k < 5
            invariant
                k <= 5,
                x == pentagon_vertex(*start, side_length as int, k as int).0,
                y == pentagon_vertex(*start, side_length as int, k as int).1,
                lo == i32::MIN,
                hi == i32::MAX,
                forall|j: int|
                    0 <= j <= k ==> in_i32(#[trigger] pentagon_vertex(*start, side_length as int, j).0)
                        && in_i32(pentagon_vertex(*start, side_length as int, j).1),
                lo <= x <= hi && lo <= y <= hi,
            decreases 5 - k,
        {
            let (ox, oy) = side_offset_exec(side_length, k);
            x = x + ox;
            y = y + oy;
            k = k + 1;
            if x < lo || x > hi || y < lo || y > hi {
                proof {
                    assert(!(in_i32(pentagon_vertex(*start, side_length as int, k as int).0) && in_i32(
                        pentagon_vertex(*start, side_length as int, k as int).1,
                    )));
                }
                return false;
            }
        }
        true
    }

    /// The pentagon walked from `start` with sides of `side_length`, all in `color`.
    pub fn with_color(start: &Point, side_length: i32, color: Color) -> (p: Pentagon)
        requires
            pentagon_fits(*start, side_length as int),
        ensures
            p.spec_lines() == pentagon_lines(*start, side_length as int, color),
    {
        let ghost side = side_length as int;
        let ghost want = pentagon_lines(*start, side, color);
        let mut lines: Vec<Line> = Vec::new();
        let mut current = *start;
        let mut k: usize = 0;
        while k < 5
            invariant
                k <= 5,
                pentagon_fits(*start, side),
                side == side_length,
                want == pentagon_lines(*start, side, color),
                current.x == pentagon_vertex(*start, side, k as int).0,
                current.y == pentagon_vertex(*start, side, k as int).1,
                lines@ == want.take(k as int),
            decreases 5 - k,
        {
            let (ox, oy) = side_offset_exec(side_length, k);
            proof {
                assert(in_i32(pentagon_vertex(*start, side, k + 1).0));
            }
            let next = Point::new((current.x as i64 + ox) as i32, (current.y as i64 + oy) as i32);
            lines.push(Line::new(current, next, color));
            proof {
                assert(in_i32(pentagon_vertex(*start, side, k as int).0));
                assert(lines@ =~= want.take(k + 1));
            }
            current = next;
            k = k + 1;
        }
        proof {
            assert(lines@ =~= want);
        }
        Pentagon { lines }
    }

    /// The pentagon walked from `start` with sides of `side_length`, in a
    /// random opaque color.
    pub fn new(start: &Point, side_length: i32) -> (p: Pentagon)
        requires
            pentagon_fits(*start, side_length as int),
        ensures
            p.spec_lines() == pentagon_lines(*start, side_length as int, p.spec_lines()[0].color),
            p.spec_lines()[0].color.a == 255,
    {
        Pentagon::with_color(start, side_length, Color::random())
    }

    /// The five sides, in walking order.
    pub fn lines(&self) -> (r: &Vec<Line>)
        ensures
            r@ == self.spec_lines(),
    {
        &self.lines
    }

    /// The pixels of the five sides, side after side.
    pub fn pixels(&self) -> (r: Vec<Pixel>)
        ensures
            r@ == chain_pixels(self.spec_lines()),
    {
        rasterize_lines(&self.lines)
    }
}

impl Drawable for Pentagon {
    fn draw<S: Displayable>(&self, image: &mut S) {
        emit(image, &self.pixels());
    }
}

/// A pentagon is a chain of exactly five sides in one color, the first
/// starting at the start point and each other one where the previous one ends.
pub proof fn lemma_pentagon_chain(start: Point, side: int, color: Color)
    requires
        pentagon_fits(start, side),
    ensures
        pentagon_lines(start, side, color).len() == 5,
        pentagon_lines(start, side, color)[0].start == start,
        forall|i: int| 0 <= i < 5 ==> (#[trigger] pentagon_lines(start, side, color)[i]).color == color,
        forall|i: int|
            1 <= i < 5 ==> (#[trigger] pentagon_lines(start, side, color)[i]).start == pentagon_lines(
                start,
                side,
                color,
            )[i - 1].end,
{
}

} // verus!
