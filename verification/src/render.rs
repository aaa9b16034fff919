//! The rasterizer: converts each shape variant into the concrete sequence of
//! glyph-carrying points it covers. Rasterization is pure and deterministic;
//! degenerate shapes (zero-area rectangles, backwards sweeps) yield empty or
//! minimal results rather than errors.

use vstd::prelude::*;

use crate::shapes::{line_cell, shape_cell, LineShape, Point, RectangleShape, Shape};
use crate::{cell_at, State};

verus! {

/// Two points occupy the same grid cell (glyphs are not part of identity).
pub open spec fn same_cell(a: Point, b: Point) -> bool {
    a.x == b.x && a.y == b.y
}

/// Some point of `pts` occupies cell `(row, column)`.
pub open spec fn seq_has_cell(pts: Seq<Point>, row: u16, column: u16) -> bool {
    exists|i: int| 0 <= i < pts.len() && pts[i].x == row && pts[i].y == column
}

/// No two points of `pts` occupy the same cell.
pub open spec fn no_duplicate_cells(pts: Seq<Point>) -> bool {
    forall|i: int, j: int|
        0 <= i < j < pts.len() ==> !same_cell(#[trigger] pts[i], #[trigger] pts[j])
}

/// `pts` is a faithful raster of `shape`: each point is exactly the point
/// `shape` shows at that point's own cell, every cell the shape covers is
/// represented, and no cell is represented twice. The order of the points is
/// left to the rasterizer: since no cell appears twice, composition cannot
/// observe it.
pub open spec fn raster_matches(pts: Seq<Point>, shape: Shape) -> bool {
    &&& forall|i: int|
        0 <= i < pts.len() ==> Some(#[trigger] pts[i]) == shape_cell(shape, pts[i].x, pts[i].y)
    &&& forall|r: u16, c: u16|
        (#[trigger] shape_cell(shape, r, c)).is_some() ==> seq_has_cell(pts, r, c)
    &&& no_duplicate_cells(pts)
}

proof fn lemma_has_cell_push(pts: Seq<Point>, p: Point, row: u16, column: u16)
    requires
        seq_has_cell(pts, row, column) || (p.x == row && p.y == column),
    ensures
        seq_has_cell(pts.push(p), row, column),
{
    if p.x == row && p.y == column {
        assert(pts.push(p)[pts.len() as int].x == row && pts.push(p)[pts.len() as int].y
            == column);
    } else {
        let i = choose|i: int| 0 <= i < pts.len() && pts[i].x == row && pts[i].y == column;
        assert(pts.push(p)[i].x == row && pts.push(p)[i].y == column);
    }
}

proof fn lemma_no_dup_push(pts: Seq<Point>, p: Point)
    requires
        no_duplicate_cells(pts),
        forall|i: int| 0 <= i < pts.len() ==> !same_cell(#[trigger] pts[i], p),
    ensures
        no_duplicate_cells(pts.push(p)),
{
    let post = pts.push(p);
    assert forall|i: int, j: int| 0 <= i < j < post.len() implies !same_cell(
        #[trigger] post[i],
        #[trigger] post[j],
    ) by {
        if j < pts.len() {
            assert(post[i] == pts[i] && post[j] == pts[j]);
        } else {
            assert(post[i] == pts[i] && post[j] == p);
        }
    }
}

/// How many rows a filled box over `rect` spans: the length of the half-open
/// row range, or zero where the range is backwards.
pub open spec fn box_row_count(rect: RectangleShape) -> int {
    if rect.top_left.x <= rect.top_right.x {
        rect.top_right.x - rect.top_left.x
    } else {
        0
    }
}

/// How many columns a filled box over `rect` spans.
pub open spec fn box_col_count(rect: RectangleShape) -> int {
    if rect.bottom_left.y <= rect.top_left.y {
        rect.top_left.y - rect.bottom_left.y
    } else {
        0
    }
}

/// Every cell of the half-open row range crossed with the half-open column
/// range, each stamped with the solid fill glyph — exactly rows times
/// columns points. Empty ranges yield no points.
#[verifier::loop_isolation(false)]
fn calculte_box(rect: &RectangleShape) -> (out: Vec<Point>)
    ensures
        raster_matches(out@, Shape::Box(*rect)),
        out@.len() == box_row_count(*rect) * box_col_count(*rect),
{
    let ghost sh = Shape::Box(*rect);
    let mut out: Vec<Point> = Vec::new();
    let mut x: u16 = rect.top_left.x;
    while x < rect.top_right.x
        invariant
            rect.top_left.x <= x,
            x <= rect.top_right.x || x == rect.top_left.x,
            out@.len() == (x - rect.top_left.x) * box_col_count(*rect),
            forall|i: int|
                0 <= i < out@.len() ==> Some(#[trigger] out@[i]) == shape_cell(
                    sh,
                    out@[i].x,
                    out@[i].y,
                ) && out@[i].x < x,
            forall|r: u16, c: u16|
                (#[trigger] shape_cell(sh, r, c)).is_some() && r < x ==> seq_has_cell(out@, r, c),
            no_duplicate_cells(out@),
        decreases rect.top_right.x - x,
    {
        let mut y: u16 = rect.bottom_left.y;
        while y < rect.top_left.y
            invariant
                rect.top_left.x <= x < rect.top_right.x,
                rect.bottom_left.y <= y,
                y <= rect.top_left.y || y == rect.bottom_left.y,
                out@.len() == (x - rect.top_left.x) * box_col_count(*rect) + (if y
                    <= rect.top_left.y {
                    y - rect.bottom_left.y
                } else {
                    0
                }),
                forall|i: int|
                    0 <= i < out@.len() ==> Some(#[trigger] out@[i]) == shape_cell(
                        sh,
                        out@[i].x,
                        out@[i].y,
                    ) && (out@[i].x < x || (out@[i].x == x && out@[i].y < y)),
                forall|r: u16, c: u16|
                    (#[trigger] shape_cell(sh, r, c)).is_some() && (r < x || (r == x && c < y))
                        ==> seq_has_cell(out@, r, c),
                no_duplicate_cells(out@),
            decreases rect.top_left.y - y,
        {
            let ghost prev = out@;
            let p = Point { x, y, value: Some('█') };
            out.push(p);
            proof {
                assert forall|i: int| 0 <= i < prev.len() implies !same_cell(
                    #[trigger] prev[i],
                    p,
                ) by {}
                lemma_no_dup_push(prev, p);
                assert forall|r: u16, c: u16|
                    (#[trigger] shape_cell(sh, r, c)).is_some() && (r < x || (r == x && c < y
                        + 1)) implies seq_has_cell(out@, r, c) by {
                    lemma_has_cell_push(prev, p, r, c);
                }
            }
            y = y + 1;
        }
        proof {
            let r0 = rect.top_left.x as int;
            let cols = box_col_count(*rect);
            assert((x - r0) * cols + cols == (x + 1 - r0) * cols) by (nonlinear_arith);
        }
        x = x + 1;
    }
    out
}

/// Only the perimeter cells of the filled box over `rect`: each covered cell
/// lying on the first or last covered row or column, visited once each, so
/// the result carries no duplicate cells by construction. A rectangle too
/// thin to have an interior is all perimeter; a zero-area rectangle yields
/// no points.
#[verifier::loop_isolation(false)]
fn calculte_border(rect: &RectangleShape) -> (out: Vec<Point>)
    ensures
        raster_matches(out@, Shape::Border(*rect)),
{
    let ghost sh = Shape::Border(*rect);
    let mut out: Vec<Point> = Vec::new();
    let mut x: u16 = rect.top_left.x;
    while x < rect.top_right.x
        invariant
            rect.top_left.x <= x,
            forall|i: int|
                0 <= i < out@.len() ==> Some(#[trigger] out@[i]) == shape_cell(
                    sh,
                    out@[i].x,
                    out@[i].y,
                ) && out@[i].x < x,
            forall|r: u16, c: u16|
                (#[trigger] shape_cell(sh, r, c)).is_some() && r < x ==> seq_has_cell(out@, r, c),
            no_duplicate_cells(out@),
        decreases rect.top_right.x - x,
    {
        let mut y: u16 = rect.bottom_left.y;
        while y < rect.top_left.y
            invariant
                rect.top_left.x <= x < rect.top_right.x,
                rect.bottom_left.y <= y,
                forall|i: int|
                    0 <= i < out@.len() ==> Some(#[trigger] out@[i]) == shape_cell(
                        sh,
                        out@[i].x,
                        out@[i].y,
                    ) && (out@[i].x < x || (out@[i].x == x && out@[i].y < y)),
                forall|r: u16, c: u16|
                    (#[trigger] shape_cell(sh, r, c)).is_some() && (r < x || (r == x && c < y))
                        ==> seq_has_cell(out@, r, c),
                no_duplicate_cells(out@),
            decreases rect.top_left.y - y,
        {
            if x == rect.top_left.x || x == rect.top_right.x - 1 || y == rect.bottom_left.y || y
                == rect.top_left.y - 1 {
                let ghost prev = out@;
                let p = Point { x, y, value: Some('█') };
                out.push(p);
                proof {
                    assert forall|i: int| 0 <= i < prev.len() implies !same_cell(
                        #[trigger] prev[i],
                        p,
                    ) by {}
                    lemma_no_dup_push(prev, p);
                    assert forall|r: u16, c: u16|
                        (#[trigger] shape_cell(sh, r, c)).is_some() && (r < x || (r == x && c < y
                            + 1)) implies seq_has_cell(out@, r, c) by {
                        lemma_has_cell_push(prev, p, r, c);
                    }
                }
            }
            y = y + 1;
        }
        x = x + 1;
    }
    out
}

/// How many points a drag segment rasterizes to: one per swept column plus
/// the cap at the release cell, which is always emitted.
pub open spec fn line_point_count(line: LineShape) -> int {
    (if line.start.y <= line.end.y {
        line.end.y - line.start.y
    } else {
        0
    }) + 1
}

/// The shared sweep of `Line` and `Arrow`: a horizontal rule along row
/// `start.x` over the half-open column range `[start.y, end.y)`, closed by
/// `cap` at the release cell `(start.x, end.y)`. A release at or before the
/// press column leaves only the cap.
#[verifier::loop_isolation(false)]
fn line_points(start: &Point, end: &Point, cap: char) -> (out: Vec<Point>)
    ensures
        forall|i: int|
            0 <= i < out@.len() ==> Some(#[trigger] out@[i]) == line_cell(
                LineShape { start: *start, end: *end },
                cap,
                out@[i].x,
                out@[i].y,
            ),
        forall|r: u16, c: u16|
            (#[trigger] line_cell(LineShape { start: *start, end: *end }, cap, r, c)).is_some()
                ==> seq_has_cell(out@, r, c),
        no_duplicate_cells(out@),
        out@.len() == line_point_count(LineShape { start: *start, end: *end }),
{
    let ghost line = LineShape { start: *start, end: *end };
    let mut out: Vec<Point> = Vec::new();
    let mut y: u16 = start.y;
    while y < end.y
        invariant
            start.y <= y,
            y <= end.y || y == start.y,
            out@.len() == y - start.y,
            forall|i: int|
                0 <= i < out@.len() ==> Some(#[trigger] out@[i]) == line_cell(
                    line,
                    cap,
                    out@[i].x,
                    out@[i].y,
                ) && out@[i].y < y && out@[i].y < end.y,
            forall|c: u16| start.y <= c < y && c < end.y ==> seq_has_cell(out@, start.x, c),
            no_duplicate_cells(out@),
        decreases end.y - y,
    {
        let ghost prev = out@;
        let p = Point { x: start.x, y, value: Some('─') };
        out.push(p);
        proof {
            assert forall|i: int| 0 <= i < prev.len() implies !same_cell(#[trigger] prev[i], p) by {}
            lemma_no_dup_push(prev, p);
            assert forall|c: u16| start.y <= c < y + 1 && c < end.y implies seq_has_cell(
                out@,
                start.x,
                c,
            ) by {
                lemma_has_cell_push(prev, p, start.x, c);
            }
        }
        y = y + 1;
    }
    let ghost prev = out@;
    let p = Point { x: start.x, y: end.y, value: Some(cap) };
    out.push(p);
    proof {
        assert forall|i: int| 0 <= i < prev.len() implies !same_cell(#[trigger] prev[i], p) by {}
        lemma_no_dup_push(prev, p);
        assert forall|r: u16, c: u16|
            (#[trigger] line_cell(line, cap, r, c)).is_some() implies seq_has_cell(out@, r, c) by {
            if !(r == start.x && c == end.y) {
                assert(r == start.x && start.y <= c < end.y);
                assert(seq_has_cell(prev, r, c));
            }
            lemma_has_cell_push(prev, p, r, c);
        }
    }
    out
}

/// A horizontal rule closed by an arrowhead encoding the drag direction.
fn calculte_arrow(start: &Point, end: &Point) -> (out: Vec<Point>)
    ensures
        raster_matches(out@, Shape::Arrow(LineShape { start: *start, end: *end })),
        out@.len() == line_point_count(LineShape { start: *start, end: *end }),
{
    let out = line_points(start, end, '►');
    proof {
        let line = LineShape { start: *start, end: *end };
        let sh = Shape::Arrow(line);
        assert forall|i: int| 0 <= i < out@.len() implies Some(#[trigger] out@[i]) == shape_cell(
            sh,
            out@[i].x,
            out@[i].y,
        ) by {
            assert(Some(out@[i]) == line_cell(line, '►', out@[i].x, out@[i].y));
        }
        assert forall|r: u16, c: u16| (#[trigger] shape_cell(sh, r, c)).is_some()
            implies seq_has_cell(out@, r, c) by {
            assert(line_cell(line, '►', r, c).is_some());
        }
    }
    out
}

/// A horizontal rule closed by a plain rule cap: a `Line` renders exactly as
/// an `Arrow` does, minus the head.
fn calculte_line(start: &Point, end: &Point) -> (out: Vec<Point>)
    ensures
        raster_matches(out@, Shape::Line(LineShape { start: *start, end: *end })),
        out@.len() == line_point_count(LineShape { start: *start, end: *end }),
{
    let out = line_points(start, end, '─');
    proof {
        let line = LineShape { start: *start, end: *end };
        let sh = Shape::Line(line);
        assert forall|i: int| 0 <= i < out@.len() implies Some(#[trigger] out@[i]) == shape_cell(
            sh,
            out@[i].x,
            out@[i].y,
        ) by {
            assert(Some(out@[i]) == line_cell(line, '─', out@[i].x, out@[i].y));
        }
        assert forall|r: u16, c: u16| (#[trigger] shape_cell(sh, r, c)).is_some()
            implies seq_has_cell(out@, r, c) by {
            assert(line_cell(line, '─', r, c).is_some());
        }
    }
    out
}

/// Converts a shape into the ordered sequence of glyph-carrying points it
/// covers: exactly one point per covered cell, each as `shape_cell` gives it.
pub fn rasterize(shape: &Shape) -> (out: Vec<Point>)
    ensures
        raster_matches(out@, *shape),
        *shape matches Shape::Box(rect) ==> out@.len() == box_row_count(rect) * box_col_count(
            rect,
        ),
        *shape matches Shape::Arrow(line) ==> out@.len() == line_point_count(line),
        *shape matches Shape::Line(line) ==> out@.len() == line_point_count(line),
{
    match shape {
        Shape::Box(rect) => calculte_box(rect),
        Shape::Border(rect) => calculte_border(rect),
        Shape::Arrow(line) => {
            let out = calculte_arrow(&line.start, &line.end);
            proof {
                assert(LineShape { start: line.start, end: line.end } == *line);
            }
            out
        },
        Shape::Line(line) => {
            let out = calculte_line(&line.start, &line.end);
            proof {
                assert(LineShape { start: line.start, end: line.end } == *line);
            }
            out
        },
    }
}

/// What the compositor writes for one sampled cell: the occupying point's
/// glyph, or a blank where the cell is empty or its point carries no glyph.
pub open spec fn cell_char(cell: Option<Point>) -> char {
    match cell {
        Some(p) => match p.value {
            Some(g) => g,
            None => ' ',
        },
        None => ' ',
    }
}

/// The full contract of `render_canvas`: the buffer holds exactly
/// `theight * twith` characters, row-major, and the character for each cell
/// of `[0, theight) x [0, twith)` is the sampled glyph of that cell.
pub open spec fn render_post(
    shapes: Seq<Shape>,
    theight: u16,
    twith: u16,
    out: Seq<char>,
) -> bool {
    &&& out.len() == theight as int * twith as int
    &&& forall|r: u16, c: u16|
        r < theight && c < twith ==> out[r as int * twith as int + c as int] == cell_char(
            cell_at(shapes, r, c),
        )
}

proof fn lemma_row_major_bound(rr: int, cc: int, r: int, w: int)
    requires
        0 <= rr < r,
        0 <= cc < w,
    ensures
        0 <= rr * w + cc < r * w,
{
    assert(0 <= rr * w + cc < r * w) by (nonlinear_arith)
        requires
            0 <= rr < r,
            0 <= cc < w,
    ;
}

/// Composites every placed shape into one row-major character buffer over
/// the grid `[0, theight) x [0, twith)`: each cell gets the glyph of the most
/// recently inserted shape covering it, or a blank where none does. A zero
/// height or width yields an empty buffer.
#[verifier::loop_isolation(false)]
pub fn render_canvas(state: &State, theight: u16, twith: u16) -> (out: Vec<char>)
    ensures
        render_post(state@, theight, twith, out@),
{
    let mut out: Vec<char> = Vec::new();
    let mut r: u16 = 0;
    while r < theight
        invariant
            r <= theight,
            out@.len() == r as int * twith as int,
            forall|rr: u16, cc: u16|
                rr < r && cc < twith ==> out@[rr as int * twith as int + cc as int] == cell_char(
                    cell_at(state@, rr, cc),
                ),
        decreases theight - r,
    {
        let mut c: u16 = 0;
        while c < twith
            invariant
                r < theight,
                c <= twith,
                out@.len() == r as int * twith as int + c as int,
                forall|rr: u16, cc: u16|
                    rr < r && cc < twith ==> out@[rr as int * twith as int + cc as int]
                        == cell_char(cell_at(state@, rr, cc)),
                forall|cc: u16|
                    cc < c ==> out@[r as int * twith as int + cc as int] == cell_char(
                        cell_at(state@, r, cc),
                    ),
            decreases twith - c,
        {
            let ghost prev = out@;
            let center = state.point_at(r, c);
            let g = match center {
                Some(p) => match p.value {
                    Some(g) => g,
                    None => ' ',
                },
                None => ' ',
            };
            out.push(g);
            proof {
                assert forall|rr: u16, cc: u16| rr < r && cc < twith implies out@[rr as int
                    * twith as int + cc as int] == cell_char(cell_at(state@, rr, cc)) by {
                    lemma_row_major_bound(rr as int, cc as int, r as int, twith as int);
                    assert(prev[rr as int * twith as int + cc as int] == cell_char(
                        cell_at(state@, rr, cc),
                    ));
                }
            }
            c = c + 1;
        }
        proof {
            assert(r as int * twith as int + twith as int == (r as int + 1) * twith as int)
                by (nonlinear_arith);
        }
        r = r + 1;
    }
    out
}

/// Rendering is idempotent: with no insertion between them, two renders of
/// the same canvas at the same size yield identical buffers. The render
/// contract pins the buffer down cell by cell, so any two buffers that
/// satisfy it are equal.
pub proof fn lemma_render_idempotent(
    shapes: Seq<Shape>,
    theight: u16,
    twith: u16,
    b1: Seq<char>,
    b2: Seq<char>,
)
    requires
        render_post(shapes, theight, twith, b1),
        render_post(shapes, theight, twith, b2),
    ensures
        b1 == b2,
{
    let h = theight as int;
    let w = twith as int;
    assert forall|i: int| 0 <= i < b1.len() implies b1[i] == b2[i] by {
        assert(w > 0) by (nonlinear_arith)
            requires
                0 <= i < h * w,
                0 <= h,
                0 <= w,
        ;
        vstd::arithmetic::div_mod::lemma_fundamental_div_mod(i, w);
        vstd::arithmetic::div_mod::lemma_mod_bound(i, w);
        vstd::arithmetic::div_mod::lemma_div_pos_is_pos(i, w);
        let q = i / w;
        let m = i % w;
        assert(q < h) by (nonlinear_arith)
            requires
                i == w * q + m,
                0 <= m < w,
                i < h * w,
                0 <= q,
        ;
        let rr = q as u16;
        let cc = m as u16;
        assert(q * w == w * q) by (nonlinear_arith);
        assert(rr as int * w + cc as int == i);
        assert(b1[rr as int * twith as int + cc as int] == cell_char(cell_at(shapes, rr, cc)));
        assert(b2[rr as int * twith as int + cc as int] == cell_char(cell_at(shapes, rr, cc)));
    }
    assert(b1 =~= b2);
}

/// A border raster holds no duplicate cells, and every cell it covers is
/// also covered by the filled-box raster of the same rectangle.
pub proof fn lemma_border_within_box(rect: RectangleShape, border_pts: Seq<Point>, box_pts: Seq<Point>)
    requires
        raster_matches(border_pts, Shape::Border(rect)),
        raster_matches(box_pts, Shape::Box(rect)),
    ensures
        no_duplicate_cells(border_pts),
        forall|i: int|
            0 <= i < border_pts.len() ==> seq_has_cell(
                box_pts,
                (#[trigger] border_pts[i]).x,
                border_pts[i].y,
            ),
{
    assert forall|i: int| 0 <= i < border_pts.len() implies seq_has_cell(
        box_pts,
        (#[trigger] border_pts[i]).x,
        border_pts[i].y,
    ) by {
        let p = border_pts[i];
        assert(Some(p) == shape_cell(Shape::Border(rect), p.x, p.y));
        assert(shape_cell(Shape::Box(rect), p.x, p.y).is_some());
    }
}

} // verus!
