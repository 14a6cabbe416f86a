use vstd::prelude::*;

use crate::arith::{
    abs, lemma_round_div_exact, lemma_round_div_odd, lemma_round_step_between, max, round_div,
    round_div_exec,
};
use crate::color::Color;
use crate::draw::{emit, has_pixel, lemma_has_pixel_concat, Displayable, Drawable, Pixel};
use crate::point::Point;

verus! {

/// Number of steps a line from `s` to `e` is walked in: the larger of its
/// horizontal and vertical extents.
pub open spec fn line_steps(s: Point, e: Point) -> int {
    max(abs(e.x - s.x), abs(e.y - s.y))
}

/// The coordinate reached after `k` of `steps` equal increments from `from`
/// toward `from + delta`, rounded to the nearest integer.
pub open spec fn line_coord(from: int, delta: int, k: int, steps: int) -> int {
    from + round_div(k * delta, steps)
}

/// The pixels of a line from `s` to `e`, in walking order: one pixel when the
/// endpoints coincide, else `line_steps + 1` pixels from `s` to `e`.
pub open spec fn line_pixels(s: Point, e: Point, color: Color) -> Seq<Pixel> {
    let steps = line_steps(s, e);
    if steps == 0 {
        seq![Pixel { x: s.x, y: s.y, color }]
    } else {
        Seq::new(
            (steps + 1) as nat,
            |k: int|
                Pixel {
                    x: line_coord(s.x as int, e.x - s.x, k, steps) as i32,
                    y: line_coord(s.y as int, e.y - s.y, k, steps) as i32,
                    color,
                },
        )
    }
}

/// The pixels of each line of `lines`, one line after the other.
pub open spec fn chain_pixels(lines: Seq<Line>) -> Seq<Pixel>
    decreases lines.len(),
{
    if lines.len() == 0 {
        seq![]
    } else {
        chain_pixels(lines.drop_last()) + line_pixels(
            lines.last().start,
            lines.last().end,
            lines.last().color,
        )
    }
}

/// A pixel of any one line of `lines` is a pixel of the whole chain.
pub proof fn lemma_chain_covers(lines: Seq<Line>, i: int, x: int, y: int)
    requires
        0 <= i < lines.len(),
        has_pixel(line_pixels(lines[i].start, lines[i].end, lines[i].color), x, y),
    ensures
        has_pixel(chain_pixels(lines), x, y),
    decreases lines.len(),
{
    let last = lines.last();
    let tail = line_pixels(last.start, last.end, last.color);
    if i < lines.len() - 1 {
        lemma_chain_covers(lines.drop_last(), i, x, y);
    }
    lemma_has_pixel_concat(chain_pixels(lines.drop_last()), tail, x, y);
}

/// The `k`-th pixel coordinate stays between the endpoints, so it fits in `i32`.
proof fn lemma_line_coord_between(from: int, to: int, k: int, steps: int)
    requires
        steps > 0,
        0 <= k <= steps,
    ensures
        from <= to ==> from <= line_coord(from, to - from, k, steps) <= to,
        to < from ==> to <= line_coord(from, to - from, k, steps) <= from,
{
    lemma_round_step_between(k, to - from, steps);
}

/// Rasterizes the segment from `s` to `e` with a digital differential analyzer.
pub fn rasterize_line(s: Point, e: Point, color: Color) -> (r: Vec<Pixel>)
    ensures
        r@ == line_pixels(s, e, color),
{
    let dx: i64 = e.x as i64 - s.x as i64;
    let dy: i64 = e.y as i64 - s.y as i64;
    let adx: i64 = if dx < 0 {
        -dx
    } else {
        dx
    };
    let ady: i64 = if dy < 0 {
        -dy
    } else {
        dy
    };
    let steps: i64 = if adx >= ady {
        adx
    } else {
        ady
    };
    let mut out: Vec<Pixel> = Vec::new();
    if steps == 0 {
        out.push(Pixel { x: s.x, y: s.y, color });
        proof {
            assert(out@ =~= line_pixels(s, e, color));
        }
        return out;
    }
    let ghost want = line_pixels(s, e, color);
    let mut k: i64 = 0;
    while k <= steps
        invariant
            steps == line_steps(s, e),
            0 < steps <= 0x1_0000_0000,
            dx == e.x - s.x,
            dy == e.y - s.y,
            0 <= k <= steps + 1,
            want == line_pixels(s, e, color),
            want.len() == steps + 1,
            out@.len() == k,
            forall|j: int| 0 <= j < k ==> out@[j] == want[j],
        decreases steps + 1 - k,
    {
        assert(-0x1_0000_0000_0000_0000 <= k * dx <= 0x1_0000_0000_0000_0000) by (nonlinear_arith)
            requires
                0 <= k <= 0x1_0000_0000,
                -0x1_0000_0000 <= dx <= 0x1_0000_0000,
        ;
        assert(-0x1_0000_0000_0000_0000 <= k * dy <= 0x1_0000_0000_0000_0000) by (nonlinear_arith)
            requires
                0 <= k <= 0x1_0000_0000,
                -0x1_0000_0000 <= dy <= 0x1_0000_0000,
        ;
        let ox = round_div_exec(k as i128 * dx as i128, steps as i128);
        let oy = round_div_exec(k as i128 * dy as i128, steps as i128);
        proof {
            lemma_line_coord_between(s.x as int, e.x as int, k as int, steps as int);
            lemma_line_coord_between(s.y as int, e.y as int, k as int, steps as int);
        }
        let x = (s.x as i128 + ox) as i32;
        let y = (s.y as i128 + oy) as i32;
        out.push(Pixel { x, y, color });
        k = k + 1;
    }
    proof {
        assert(out@ =~= want);
    }
    out
}

/// The pixels of each line of `lines` in turn, each in its own color.
pub fn rasterize_lines(lines: &Vec<Line>) -> (r: Vec<Pixel>)
    ensures
        r@ == chain_pixels(lines@),
{
    let mut out: Vec<Pixel> = Vec::new();
    let mut i: usize = 0;
    while i < lines.len()
        invariant
            i <= lines@.len(),
            out@ == chain_pixels(lines@.take(i as int)),
        decreases lines@.len() - i,
    {
        let l = lines[i];
        let mut px = rasterize_line(l.start, l.end, l.color);
        out.append(&mut px);
        proof {
            assert(lines@.take(i + 1).drop_last() =~= lines@.take(i as int));
        }
        i = i + 1;
    }
    proof {
        assert(lines@.take(i as int) =~= lines@);
    }
    out
}

/// Along an axis of a line (its extent is `0` or the step count), the `k`-th
/// coordinate is exactly `k` pixels from the start.
proof fn lemma_line_coord_axis(from: int, delta: int, k: int, steps: int)
    requires
        steps > 0,
        delta == 0 || abs(delta) == steps,
    ensures
        delta == 0 ==> line_coord(from, delta, k, steps) == from,
        delta > 0 ==> line_coord(from, delta, k, steps) == from + k,
        delta < 0 ==> line_coord(from, delta, k, steps) == from - k,
{
    if delta == 0 {
        lemma_round_div_exact(0, steps);
    } else if delta > 0 {
        lemma_round_div_exact(k, steps);
    } else {
        assert(k * delta == -(k * steps)) by (nonlinear_arith)
            requires
                delta == -steps,
        ;
        lemma_round_div_exact(k, steps);
        lemma_round_div_odd(k * steps, steps);
    }
}

/// Along its longer axis a line advances exactly one pixel per step: pixel
/// `k` is `k` pixels from the start toward the end on that axis.
pub proof fn lemma_line_major_axis(s: Point, e: Point, color: Color, k: int)
    requires
        0 <= k < line_pixels(s, e, color).len(),
    ensures
        abs(e.x - s.x) >= abs(e.y - s.y) ==> line_pixels(s, e, color)[k].x == if e.x >= s.x {
            s.x + k
        } else {
            s.x - k
        },
        abs(e.y - s.y) >= abs(e.x - s.x) ==> line_pixels(s, e, color)[k].y == if e.y >= s.y {
            s.y + k
        } else {
            s.y - k
        },
{
    let steps = line_steps(s, e);
    if steps > 0 {
        lemma_round_step_between(k, e.x - s.x, steps);
        lemma_round_step_between(k, e.y - s.y, steps);
        if abs(e.x - s.x) >= abs(e.y - s.y) {
            lemma_line_coord_axis(s.x as int, e.x - s.x, k, steps);
        }
        if abs(e.y - s.y) >= abs(e.x - s.x) {
            lemma_line_coord_axis(s.y as int, e.y - s.y, k, steps);
        }
    }
}

/// A vertical line covers every integer point between its endpoints.
pub proof fn lemma_vertical_line_covers(s: Point, e: Point, color: Color, y: int)
    requires
        s.x == e.x,
        s.y <= y <= e.y || e.y <= y <= s.y,
    ensures
        has_pixel(line_pixels(s, e, color), s.x as int, y),
{
    let px = line_pixels(s, e, color);
    let steps = line_steps(s, e);
    if steps == 0 {
        assert(px[0].x == s.x && px[0].y == y);
    } else {
        let k = abs(y - s.y);
        lemma_line_coord_axis(s.x as int, e.x - s.x, k, steps);
        lemma_line_coord_axis(s.y as int, e.y - s.y, k, steps);
        assert(px[k].x == s.x && px[k].y == y);
    }
}

/// A horizontal line covers every integer point between its endpoints.
pub proof fn lemma_horizontal_line_covers(s: Point, e: Point, color: Color, x: int)
    requires
        s.y == e.y,
        s.x <= x <= e.x || e.x <= x <= s.x,
    ensures
        has_pixel(line_pixels(s, e, color), x, s.y as int),
{
    let px = line_pixels(s, e, color);
    let steps = line_steps(s, e);
    if steps == 0 {
        assert(px[0].x == x && px[0].y == s.y);
    } else {
        let k = abs(x - s.x);
        lemma_line_coord_axis(s.x as int, e.x - s.x, k, steps);
        lemma_line_coord_axis(s.y as int, e.y - s.y, k, steps);
        assert(px[k].x == x && px[k].y == s.y);
    }
}

/// A straight segment between two points, drawn in its own stored color.
#[derive(Clone, Copy, Debug, PartialEq, Eq, Structural)]
pub struct Line {
    pub start: Point,
    pub end: Point,
    pub color: Color,
}

impl Line {
    pub fn new(start: Point, end: Point, color: Color) -> (l: Line)
        ensures
            l == (Line { start, end, color }),
    {
        Line { start, end, color }
    }

    /// A line between two random points of `[1, width) x [1, height)`, which
    /// must not be empty, in a random opaque color.
    pub fn random(width: i32, height: i32) -> (l: Line)
        requires
            width > 1,
            height > 1,
        ensures
            1 <= l.start.x < width && 1 <= l.start.y < height,
            1 <= l.end.x < width && 1 <= l.end.y < height,
            l.color.a == 255,
    {
        let a = Point::random(width, height);
        let b = Point::random(width, height);
        Line::new(a, b, Color::random())
    }

    /// The pixels of this line in its stored color.
    pub fn pixels(&self) -> (r: Vec<Pixel>)
        ensures
            r@ == line_pixels(self.start, self.end, self.color),
    {
        rasterize_line(self.start, self.end, self.color)
    }

    /// Draws this line's pixels onto `image` in `color` instead of the stored one.
    pub fn draw_color<S: Displayable>(&self, image: &mut S, color: &Color) {
        let px = rasterize_line(self.start, self.end, *color);
        emit(image, &px);
    }
}

impl Drawable for Line {
    fn draw<S: Displayable>(&self, image: &mut S) {
        emit(image, &self.pixels());
    }

    fn color(&self) -> Color {
        self.color
    }
}

/// A line whose endpoints coincide covers exactly one pixel, at its start.
pub proof fn lemma_degenerate_line(l: Line)
    requires
        l.start == l.end,
    ensures
        line_pixels(l.start, l.end, l.color) == seq![Pixel { x: l.start.x, y: l.start.y, color: l.color }],
{
}

} // verus!
