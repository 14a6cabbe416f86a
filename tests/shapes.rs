use std::collections::HashSet;

use geometrical_shapes::circle::Circle;
use geometrical_shapes::color::Color;
use geometrical_shapes::cube::Cube;
use geometrical_shapes::draw::{Displayable, Drawable, Pixel};
use geometrical_shapes::line::Line;
use geometrical_shapes::pentagon::Pentagon;
use geometrical_shapes::point::Point;
use geometrical_shapes::polygon::{Rectangle, Triangle};
use geometrical_shapes::shape::{draw_all, Shape};

struct Recorder {
    seen: Vec<(i32, i32, Color)>,
}

impl Recorder {
    fn new() -> Recorder {
        Recorder { seen: Vec::new() }
    }

    fn positions(&self) -> Vec<(i32, i32)> {
        self.seen.iter().map(|&(x, y, _)| (x, y)).collect()
    }
}

impl Displayable for Recorder {
    fn display(&mut self, x: i32, y: i32, color: Color) {
        self.seen.push((x, y, color));
    }
}

fn red() -> Color {
    Color::opaque(255, 0, 0)
}

fn positions(px: &[Pixel]) -> Vec<(i32, i32)> {
    px.iter().map(|p| (p.x, p.y)).collect()
}

fn position_set(px: &[Pixel]) -> HashSet<(i32, i32)> {
    px.iter().map(|p| (p.x, p.y)).collect()
}

#[test]
fn degenerate_line_emits_one_pixel() {
    for &(x, y) in &[(0, 0), (-7, 12), (i32::MAX, i32::MIN)] {
        let p = Point::new(x, y);
        let line = Line::new(p, p, red());
        let mut r = Recorder::new();
        line.draw(&mut r);
        assert_eq!(r.seen, vec![(x, y, red())]);
    }
}

#[test]
fn horizontal_line_emits_six_pixels() {
    let color = Color::opaque(10, 20, 30);
    let line = Line::new(Point::new(0, 0), Point::new(5, 0), color);
    let mut r = Recorder::new();
    line.draw(&mut r);
    let want: Vec<(i32, i32, Color)> = (0..=5).map(|x| (x, 0, color)).collect();
    assert_eq!(r.seen, want);
}

#[test]
fn shallow_line_rounds_to_nearest() {
    let line = Line::new(Point::new(0, 0), Point::new(5, 2), red());
    assert_eq!(positions(&line.pixels()), vec![(0, 0), (1, 0), (2, 1), (3, 1), (4, 2), (5, 2)]);
}

#[test]
fn line_rounds_halves_away_from_zero() {
    let up = Line::new(Point::new(0, 0), Point::new(4, 1), red());
    assert_eq!(positions(&up.pixels()), vec![(0, 0), (1, 0), (2, 1), (3, 1), (4, 1)]);
    let down = Line::new(Point::new(0, 0), Point::new(-4, -1), red());
    assert_eq!(positions(&down.pixels()), vec![(0, 0), (-1, 0), (-2, -1), (-3, -1), (-4, -1)]);
}

#[test]
fn steep_line_walks_rows() {
    let line = Line::new(Point::new(3, 10), Point::new(1, 4), red());
    let px = line.pixels();
    assert_eq!(px.len(), 7);
    assert_eq!((px[0].x, px[0].y), (3, 10));
    assert_eq!((px[6].x, px[6].y), (1, 4));
    let ys: Vec<i32> = px.iter().map(|p| p.y).collect();
    assert_eq!(ys, vec![10, 9, 8, 7, 6, 5, 4]);
}

#[test]
fn line_across_whole_range_has_endpoints() {
    let line = Line::new(Point::new(i32::MIN, i32::MAX), Point::new(i32::MIN + 3, i32::MAX - 1), red());
    let px = line.pixels();
    assert_eq!(px.len(), 4);
    assert_eq!((px[0].x, px[0].y), (i32::MIN, i32::MAX));
    assert_eq!((px[3].x, px[3].y), (i32::MIN + 3, i32::MAX - 1));
}

#[test]
fn draw_color_overrides_stored_color() {
    let line = Line::new(Point::new(0, 0), Point::new(2, 2), red());
    let blue = Color::opaque(0, 0, 255);
    let mut r = Recorder::new();
    line.draw_color(&mut r, &blue);
    assert_eq!(r.seen, vec![(0, 0, blue), (1, 1, blue), (2, 2, blue)]);
}

#[test]
fn circle_radius_zero_is_center() {
    let c = Circle::new(Point::new(4, -9), 0);
    assert_eq!(positions(&c.pixels(red())), vec![(4, -9)]);
    let mut r = Recorder::new();
    c.draw(&mut r);
    assert_eq!(r.positions(), vec![(4, -9)]);
}

#[test]
fn circle_radius_one_octet() {
    let c = Circle::new(Point::new(0, 0), 1);
    assert_eq!(
        positions(&c.pixels(red())),
        vec![(0, -1), (0, -1), (0, 1), (0, 1), (1, 0), (1, 0), (-1, 0), (-1, 0)]
    );
}

#[test]
fn circle_radius_three_contour() {
    let c = Circle::new(Point::new(10, 20), 3);
    let px = c.pixels(red());
    assert_eq!(px.len(), 24);
    let offsets: HashSet<(i32, i32)> = px.iter().map(|p| (p.x - 10, p.y - 20)).collect();
    let mut want = HashSet::new();
    for &(a, b) in &[(0, 3), (1, 3), (2, 2)] {
        for &(x, y) in &[(a, b), (b, a)] {
            for &(sx, sy) in &[(1, 1), (1, -1), (-1, 1), (-1, -1)] {
                want.insert((sx * x, sy * y));
            }
        }
    }
    assert_eq!(offsets, want);
    assert_eq!(want.len(), 16);
}

#[test]
fn circle_is_eightfold_symmetric() {
    for r in 1..40 {
        let (cx, cy) = (5, -3);
        let px = Circle::new(Point::new(cx, cy), r).pixels(red());
        let set = position_set(&px);
        for p in &px {
            let (dx, dy) = (p.x - cx, p.y - cy);
            for &(mx, my) in &[(-dx, dy), (dx, -dy), (-dx, -dy), (dy, dx), (-dy, dx), (dy, -dx), (-dy, -dx)] {
                assert!(set.contains(&(cx + mx, cy + my)));
            }
            assert!(p.color == red());
        }
    }
}

#[test]
fn circle_draw_uses_one_opaque_color() {
    let c = Circle::new(Point::new(50, 50), 10);
    let mut r = Recorder::new();
    c.draw(&mut r);
    assert_eq!(r.seen.len(), c.pixels(red()).len());
    let first = r.seen[0].2;
    assert_eq!(first.a, 255);
    assert!(r.seen.iter().all(|&(_, _, col)| col == first));
}

#[test]
fn rectangle_corners_are_derived() {
    let rect = Rectangle::new(&Point::new(0, 0), &Point::new(4, 4));
    assert_eq!(rect.a(), Point::new(0, 0));
    assert_eq!(rect.b(), Point::new(4, 4));
    assert_eq!(rect.c(), Point::new(0, 4));
    assert_eq!(rect.d(), Point::new(4, 0));
    assert_eq!(rect.color().a, 255);
}

#[test]
fn rectangle_outline_covers_perimeter() {
    let rect = Rectangle::colored(&Point::new(0, 0), &Point::new(4, 4), red());
    let px = rect.pixels();
    assert_eq!(px.len(), 20);
    let set = position_set(&px);
    let mut want = HashSet::new();
    for i in 0..=4 {
        want.insert((0, i));
        want.insert((4, i));
        want.insert((i, 0));
        want.insert((i, 4));
    }
    assert_eq!(set, want);
    assert!(px.iter().all(|p| p.color == red()));
}

#[test]
fn rectangle_edges_follow_corner_order() {
    let rect = Rectangle::colored(&Point::new(1, 2), &Point::new(6, 9), red());
    let e = rect.edges();
    let ends: Vec<((i32, i32), (i32, i32))> =
        e.iter().map(|l| ((l.start.x, l.start.y), (l.end.x, l.end.y))).collect();
    assert_eq!(ends, vec![((1, 2), (1, 9)), ((1, 9), (6, 9)), ((6, 9), (6, 2)), ((6, 2), (1, 2))]);
}

#[test]
fn rectangle_with_color_keeps_corners() {
    let blue = Color::opaque(0, 0, 255);
    let rect = Rectangle::colored(&Point::new(1, 2), &Point::new(6, 9), red()).with_color(blue);
    assert_eq!(rect.color(), blue);
    assert_eq!(rect.a(), Point::new(1, 2));
    assert_eq!(rect.b(), Point::new(6, 9));
    let mut r = Recorder::new();
    rect.draw(&mut r);
    assert!(r.seen.iter().all(|&(_, _, c)| c == blue));
}

#[test]
fn triangle_edges_go_a_c_b() {
    let t = Triangle::new(&Point::new(0, 0), &Point::new(10, 0), &Point::new(5, 5));
    let e = t.edges(red());
    let ends: Vec<((i32, i32), (i32, i32))> =
        e.iter().map(|l| ((l.start.x, l.start.y), (l.end.x, l.end.y))).collect();
    assert_eq!(ends, vec![((0, 0), (5, 5)), ((5, 5), (10, 0)), ((10, 0), (0, 0))]);
    assert_eq!(t.pixels(red()).len(), 6 + 6 + 11);
}

#[test]
fn triangle_draw_uses_one_opaque_color() {
    let t = Triangle::new(&Point::new(0, 0), &Point::new(10, 0), &Point::new(5, 5));
    let mut r = Recorder::new();
    t.draw(&mut r);
    assert_eq!(r.seen.len(), 23);
    let first = r.seen[0].2;
    assert_eq!(first.a, 255);
    assert!(r.seen.iter().all(|&(_, _, c)| c == first));
}

#[test]
fn random_colors_are_opaque_and_vary() {
    let colors: Vec<Color> = (0..200).map(|_| Color::random()).collect();
    assert!(colors.iter().all(|c| c.a == 255));
    let reds: HashSet<u8> = colors.iter().map(|c| c.r).collect();
    assert!(reds.len() > 1);
}

#[test]
fn point_draw_is_one_opaque_pixel() {
    let mut r = Recorder::new();
    Point::new(3, 4).draw(&mut r);
    assert_eq!(r.seen.len(), 1);
    assert_eq!((r.seen[0].0, r.seen[0].1), (3, 4));
    assert_eq!(r.seen[0].2.a, 255);
}

#[test]
fn random_points_stay_in_box() {
    assert_eq!(Point::random(2, 2), Point::new(1, 1));
    let mut xs = HashSet::new();
    for _ in 0..200 {
        let p = Point::random(20, 30);
        assert!(1 <= p.x && p.x < 20 && 1 <= p.y && p.y < 30);
        xs.insert(p.x);
    }
    assert!(xs.len() > 1);
}

#[test]
fn random_lines_and_circles() {
    for _ in 0..100 {
        let l = Line::random(50, 60);
        assert!(1 <= l.start.x && l.start.x < 50 && 1 <= l.start.y && l.start.y < 60);
        assert!(1 <= l.end.x && l.end.x < 50 && 1 <= l.end.y && l.end.y < 60);
        assert_eq!(l.color.a, 255);
    }
    let tiny = Circle::random(2, 2);
    assert_eq!((tiny.center(), tiny.radius()), (Point::new(1, 1), 0));
    let mut radii = HashSet::new();
    for _ in 0..100 {
        let c = Circle::random(40, 10);
        assert!(1 <= c.center().x && c.center().x < 40);
        assert!(1 <= c.center().y && c.center().y < 10);
        assert!(0 <= c.radius() && c.radius() < 5);
        radii.insert(c.radius());
    }
    assert!(radii.len() > 1);
}

#[test]
fn default_color_is_opaque() {
    let t = Triangle::new(&Point::new(0, 0), &Point::new(1, 0), &Point::new(0, 1));
    let c = Circle::new(Point::new(0, 0), 2);
    for _ in 0..50 {
        assert_eq!(Point::new(1, 2).color().a, 255);
        assert_eq!(t.color().a, 255);
        assert_eq!(c.color().a, 255);
    }
    let line = Line::new(Point::new(0, 0), Point::new(1, 1), Color { r: 1, g: 2, b: 3, a: 4 });
    assert_eq!(line.color(), Color { r: 1, g: 2, b: 3, a: 4 });
}

#[test]
fn cube_faces_and_connectors() {
    let cube = Cube::new(&Point::new(0, 0), &Point::new(4, 4));
    assert_eq!(cube.depth(), (-2, 2));
    let color = Color::opaque(1, 2, 3);
    let front = cube.front(color);
    let back = cube.back(color);
    assert_eq!((front.a(), front.b()), (Point::new(0, 0), Point::new(4, 4)));
    assert_eq!((back.a(), back.b()), (Point::new(-2, 2), Point::new(2, 6)));
    assert_eq!((back.c(), back.d()), (Point::new(-2, 6), Point::new(2, 2)));
    assert_eq!(front.color(), color);
    assert_eq!(back.color(), color);
    let links = cube.connectors(color);
    let ends: Vec<((i32, i32), (i32, i32))> =
        links.iter().map(|l| ((l.start.x, l.start.y), (l.end.x, l.end.y))).collect();
    assert_eq!(ends, vec![((0, 0), (-2, 2)), ((4, 4), (2, 6)), ((0, 4), (-2, 6)), ((4, 0), (2, 2))]);
    let all = cube.edges(color);
    assert_eq!(all.len(), 12);
    assert!(all.iter().all(|l| l.color == color));
}

#[test]
fn cube_depth_truncates_toward_zero() {
    let cube = Cube::new(&Point::new(0, 0), &Point::new(3, 5));
    assert_eq!(cube.depth(), (-1, 2));
    let cube = Cube::new(&Point::new(3, 5), &Point::new(0, 0));
    assert_eq!(cube.depth(), (1, -2));
}

#[test]
fn cube_fits_rejects_overflow() {
    assert!(Cube::fits(&Point::new(0, 0), &Point::new(4, 4)));
    assert!(!Cube::fits(&Point::new(i32::MAX, 0), &Point::new(i32::MIN, 0)));
}

#[test]
fn cube_draw_is_one_color() {
    let cube = Cube::new(&Point::new(10, 10), &Point::new(20, 30));
    let mut r = Recorder::new();
    cube.draw(&mut r);
    assert_eq!(r.seen.len(), cube.pixels(red()).len());
    let first = r.seen[0].2;
    assert_eq!(first.a, 255);
    assert!(r.seen.iter().all(|&(_, _, c)| c == first));
}

fn chain(p: &Pentagon) -> Vec<((i32, i32), (i32, i32))> {
    p.lines().iter().map(|l| ((l.start.x, l.start.y), (l.end.x, l.end.y))).collect()
}

#[test]
fn pentagon_side_hundred() {
    let p = Pentagon::with_color(&Point::new(100, 100), 100, red());
    assert_eq!(
        chain(&p),
        vec![
            ((100, 100), (200, 100)),
            ((200, 100), (230, 195)),
            ((230, 195), (150, 253)),
            ((150, 253), (70, 195)),
            ((70, 195), (100, 100)),
        ]
    );
    assert!(p.lines().iter().all(|l| l.color == red()));
}

#[test]
fn pentagon_closure_is_approximate() {
    let p = Pentagon::with_color(&Point::new(0, 0), 3, red());
    assert_eq!(
        chain(&p),
        vec![((0, 0), (3, 0)), ((3, 0), (3, 2)), ((3, 2), (1, 3)), ((1, 3), (-1, 2)), ((-1, 2), (-1, 0))]
    );
}

#[test]
fn pentagon_is_a_chain_of_five() {
    let p = Pentagon::new(&Point::new(400, 300), 120);
    let lines = p.lines();
    assert_eq!(lines.len(), 5);
    assert_eq!(lines[0].start, Point::new(400, 300));
    assert_eq!(lines[0].color.a, 255);
    for i in 1..5 {
        assert_eq!(lines[i].start, lines[i - 1].end);
        assert_eq!(lines[i].color, lines[0].color);
    }
    let mut r = Recorder::new();
    p.draw(&mut r);
    assert_eq!(r.seen.len(), p.pixels().len());
}

#[test]
fn pentagon_fits_rejects_overflow() {
    assert!(Pentagon::fits(&Point::new(0, 0), 100));
    assert!(!Pentagon::fits(&Point::new(i32::MAX, 0), 100));
    assert!(!Pentagon::fits(&Point::new(0, i32::MAX - 50), 100));
}

#[test]
fn shapes_draw_together() {
    let shapes = vec![
        Shape::Point(Point::new(1, 1)),
        Shape::Line(Line::new(Point::new(0, 0), Point::new(3, 0), red())),
        Shape::Circle(Circle::new(Point::new(10, 10), 0)),
    ];
    let mut r = Recorder::new();
    draw_all(&shapes, &mut r);
    assert_eq!(r.positions(), vec![(1, 1), (0, 0), (1, 0), (2, 0), (3, 0), (10, 10)]);
}
