use termdraw::render::{rasterize, render_canvas};
use termdraw::shapes::{LineShape, Point, RectangleShape, Shape};
use termdraw::State;

fn has_cell(pts: &[Point], x: u16, y: u16) -> bool {
    pts.iter().any(|p| p.x == x && p.y == y)
}

#[test]
fn filled_box_covers_six_cells() {
    // rows [2, 4) crossed with columns [2, 5): exactly 6 points, all filled
    let rect = RectangleShape::new(Point::new(2, 2, None), Point::new(4, 5, None));
    let pts = rasterize(&Shape::Box(rect));
    assert_eq!(pts.len(), 6);
    for p in &pts {
        assert_eq!(p.value, Some('█'));
        assert!(2 <= p.x && p.x < 4);
        assert!(2 <= p.y && p.y < 5);
    }
    for x in 2..4u16 {
        for y in 2..5u16 {
            assert!(has_cell(&pts, x, y));
        }
    }
}

#[test]
fn border_of_three_by_three_has_eight_points() {
    let rect = RectangleShape::new(Point::new(0, 0, None), Point::new(3, 3, None));
    let pts = rasterize(&Shape::Border(rect));
    assert_eq!(pts.len(), 8);
    assert!(!has_cell(&pts, 1, 1));
    for p in &pts {
        assert_eq!(p.value, Some('█'));
        assert!(p.x == 0 || p.x == 2 || p.y == 0 || p.y == 2);
    }
}

#[test]
fn border_has_no_duplicates_and_stays_within_box() {
    let rect = RectangleShape::new(Point::new(1, 1, None), Point::new(4, 6, None));
    let border = rasterize(&Shape::Border(rect));
    let full = rasterize(&Shape::Box(rect));
    for (i, p) in border.iter().enumerate() {
        for q in &border[i + 1..] {
            assert!(!(p.x == q.x && p.y == q.y));
        }
        assert!(has_cell(&full, p.x, p.y));
    }
}

#[test]
fn box_raster_is_drag_order_independent() {
    let a = Point::new(6, 1, None);
    let b = Point::new(2, 4, None);
    let one = rasterize(&Shape::Box(RectangleShape::new(a, b)));
    let two = rasterize(&Shape::Box(RectangleShape::new(b, a)));
    assert_eq!(one.len(), two.len());
    for p in &one {
        assert!(has_cell(&two, p.x, p.y));
    }
}

#[test]
fn degenerate_rectangles_rasterize_to_nothing() {
    let flat = RectangleShape::new(Point::new(2, 2, None), Point::new(2, 9, None));
    assert_eq!(rasterize(&Shape::Box(flat)).len(), 0);
    assert_eq!(rasterize(&Shape::Border(flat)).len(), 0);
    let dot = RectangleShape::new(Point::new(5, 5, None), Point::new(5, 5, None));
    assert_eq!(rasterize(&Shape::Box(dot)).len(), 0);
    assert_eq!(rasterize(&Shape::Border(dot)).len(), 0);
}

#[test]
fn arrow_sweeps_to_a_head() {
    let line = LineShape::new(Point::new(0, 0, None), Point::new(0, 3, None));
    let pts = rasterize(&Shape::Arrow(line));
    assert_eq!(pts.len(), 4);
    for y in 0..3u16 {
        assert!(has_cell(&pts, 0, y));
    }
    for p in &pts {
        assert_eq!(p.x, 0);
        if p.y == 3 {
            assert_eq!(p.value, Some('►'));
        } else {
            assert_eq!(p.value, Some('─'));
        }
    }
}

#[test]
fn backward_arrow_keeps_only_the_head() {
    let line = LineShape::new(Point::new(0, 3, None), Point::new(0, 0, None));
    let pts = rasterize(&Shape::Arrow(line));
    assert_eq!(pts.len(), 1);
    assert_eq!((pts[0].x, pts[0].y), (0, 0));
    assert_eq!(pts[0].value, Some('►'));
}

#[test]
fn line_renders_as_arrow_minus_the_head() {
    let line = LineShape::new(Point::new(2, 1, None), Point::new(2, 4, None));
    let pts = rasterize(&Shape::Line(line));
    assert_eq!(pts.len(), 4);
    for p in &pts {
        assert_eq!(p.x, 2);
        assert_eq!(p.value, Some('─'));
    }
}

#[test]
fn later_insertion_wins_at_shared_cells() {
    let mut state = State::new();
    let head = Point::new(1, 1, None);
    state.insert(Shape::Arrow(LineShape::new(Point::new(1, 0, None), head)));
    state.insert(Shape::Box(RectangleShape::new(
        Point::new(0, 0, None),
        Point::new(3, 3, None),
    )));
    let v = state.sample(1, 1);
    assert_eq!(v.center.unwrap().value, Some('█'));

    let mut reversed = State::new();
    reversed.insert(Shape::Box(RectangleShape::new(
        Point::new(0, 0, None),
        Point::new(3, 3, None),
    )));
    reversed.insert(Shape::Arrow(LineShape::new(Point::new(1, 0, None), head)));
    let v = reversed.sample(1, 1);
    assert_eq!(v.center.unwrap().value, Some('►'));
}

#[test]
fn sample_at_origin_reports_absent_outer_neighbors() {
    let mut state = State::new();
    state.insert(Shape::Box(RectangleShape::new(
        Point::new(0, 0, None),
        Point::new(2, 2, None),
    )));
    let v = state.sample(0, 0);
    assert_eq!(v.top, None);
    assert_eq!(v.left, None);
    assert!(v.center.is_some());
    assert!(v.bottom.is_some());
    assert!(v.right.is_some());
}

#[test]
fn sample_at_the_far_corner_does_not_wrap() {
    let state = State::new();
    let v = state.sample(u16::MAX, u16::MAX);
    assert_eq!(v.center, None);
    assert_eq!(v.bottom, None);
    assert_eq!(v.right, None);
}

#[test]
fn sample_reports_all_four_neighbors() {
    let mut state = State::new();
    state.insert(Shape::Box(RectangleShape::new(
        Point::new(0, 0, None),
        Point::new(3, 3, None),
    )));
    let v = state.sample(1, 1);
    assert_eq!((v.top.unwrap().x, v.top.unwrap().y), (0, 1));
    assert_eq!((v.bottom.unwrap().x, v.bottom.unwrap().y), (2, 1));
    assert_eq!((v.left.unwrap().x, v.left.unwrap().y), (1, 0));
    assert_eq!((v.right.unwrap().x, v.right.unwrap().y), (1, 2));
}

#[test]
fn render_is_idempotent_without_insertions() {
    let mut state = State::new();
    state.insert(Shape::Border(RectangleShape::new(
        Point::new(0, 0, None),
        Point::new(4, 4, None),
    )));
    state.insert(Shape::Arrow(LineShape::new(
        Point::new(2, 1, None),
        Point::new(2, 3, None),
    )));
    let first = render_canvas(&state, 5, 5);
    let second = render_canvas(&state, 5, 5);
    assert_eq!(first, second);
}

#[test]
fn render_zero_size_is_empty_whatever_was_inserted() {
    let mut state = State::new();
    state.insert(Shape::Box(RectangleShape::new(
        Point::new(0, 0, None),
        Point::new(9, 9, None),
    )));
    assert_eq!(render_canvas(&state, 0, 0).len(), 0);
    assert_eq!(render_canvas(&state, 0, 7).len(), 0);
    assert_eq!(render_canvas(&state, 7, 0).len(), 0);
}

#[test]
fn render_writes_glyphs_row_major() {
    let mut state = State::new();
    state.insert(Shape::Box(RectangleShape::new(
        Point::new(0, 0, None),
        Point::new(2, 2, None),
    )));
    let buffer = render_canvas(&state, 3, 3);
    let expected = vec!['█', '█', ' ', '█', '█', ' ', ' ', ' ', ' '];
    assert_eq!(buffer, expected);
}

#[test]
fn empty_canvas_renders_blanks() {
    let state = State::new();
    let buffer = render_canvas(&state, 2, 4);
    assert_eq!(buffer.len(), 8);
    assert!(buffer.iter().all(|&g| g == ' '));
}
