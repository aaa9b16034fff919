//! The shape model: grid points, the rectangle normalizer, and the closed
//! set of shape variants, together with the spec-level description of which
//! grid cell each shape covers and with what glyph.
//!
//! Axis convention, fixed once for the whole crate: `Point.x` is the row
//! axis and `Point.y` is the column axis. "Left" corners carry the smaller
//! of the two row values, "top" corners the larger of the two column values.

use vstd::prelude::*;

verus! {

/// A grid coordinate with an optional display glyph. Identity is the cell
/// alone: two points at the same `(x, y)` are equal whatever their glyphs,
/// so occupancy and display can be treated separately.
#[derive(Debug, Clone, Copy)]
pub struct Point {
    pub x: u16,
    pub y: u16,
    pub value: Option<char>,
}

impl PartialEq for Point {
    fn eq(&self, other: &Self) -> (r: bool) {
        self.x == other.x && self.y == other.y
    }
}

impl vstd::std_specs::cmp::PartialEqSpecImpl for Point {
    open spec fn obeys_eq_spec() -> bool {
        true
    }

    open spec fn eq_spec(&self, other: &Self) -> bool {
        self.x == other.x && self.y == other.y
    }
}

impl Point {
    /// The same cell, now carrying `glyph` as its display character.
    pub fn set_value(self, glyph: char) -> (r: Self)
        ensures
            r == (Point { x: self.x, y: self.y, value: Some(glyph) }),
    {
        Point { x: self.x, y: self.y, value: Some(glyph) }
    }

    pub fn new(x: u16, y: u16, value: Option<char>) -> (p: Point)
        ensures
            p == (Point { x, y, value }),
    {
        Point { x, y, value }
    }
}

/// The canonical rectangle over two drag corners, whatever order the drag
/// supplied them in: left corners take the smaller row (`x`), right corners
/// the larger; bottom corners take the smaller column (`y`), top corners the
/// larger. Corners carry no glyph.
pub open spec fn normalized(start: Point, end: Point) -> RectangleShape {
    let x_lo = if start.x <= end.x { start.x } else { end.x };
    let x_hi = if start.x <= end.x { end.x } else { start.x };
    let y_lo = if start.y <= end.y { start.y } else { end.y };
    let y_hi = if start.y <= end.y { end.y } else { start.y };
    RectangleShape {
        top_left: Point { x: x_lo, y: y_hi, value: None },
        top_right: Point { x: x_hi, y: y_hi, value: None },
        bottom_left: Point { x: x_lo, y: y_lo, value: None },
        bottom_right: Point { x: x_hi, y: y_lo, value: None },
    }
}

/// A rectangle with consistent corners: the two left corners share a row and
/// the two right corners share a row, the two top corners share a column and
/// the two bottom corners share a column, left rows do not exceed right rows,
/// bottom columns do not exceed top columns, and no corner carries a glyph.
pub open spec fn rect_wf(rect: RectangleShape) -> bool {
    &&& rect.top_left.x == rect.bottom_left.x
    &&& rect.top_right.x == rect.bottom_right.x
    &&& rect.top_left.y == rect.top_right.y
    &&& rect.bottom_left.y == rect.bottom_right.y
    &&& rect.top_left.x <= rect.top_right.x
    &&& rect.bottom_left.y <= rect.top_left.y
    &&& rect.top_left.value == None::<char>
    &&& rect.top_right.value == None::<char>
    &&& rect.bottom_left.value == None::<char>
    &&& rect.bottom_right.value == None::<char>
}

/// A rectangle named by its four corners. Built once by the normalizer from
/// two arbitrary drag corners and immutable afterwards; every rectangle the
/// normalizer returns satisfies `rect_wf`.
#[derive(Debug, Clone, Copy, PartialEq)]
pub struct RectangleShape {
    pub top_left: Point,
    pub top_right: Point,
    pub bottom_left: Point,
    pub bottom_right: Point,
}

impl RectangleShape {
    /// Normalizes two drag corners into the canonical rectangle. All four
    /// drag directions are handled explicitly; equal rows or columns simply
    /// collapse the matching corners onto one another.
    pub fn new(start: Point, end: Point) -> (r: RectangleShape)
        ensures
            r == normalized(start, end),
    {
        if start.y > end.y {
            if start.x > end.x {
                // drag from top-right towards bottom-left
                RectangleShape {
                    top_left: Point::new(end.x, start.y, None),
                    top_right: Point::new(start.x, start.y, None),
                    bottom_left: Point::new(end.x, end.y, None),
                    bottom_right: Point::new(start.x, end.y, None),
                }
            } else {
                // drag from top-left towards bottom-right
                RectangleShape {
                    top_left: Point::new(start.x, start.y, None),
                    top_right: Point::new(end.x, start.y, None),
                    bottom_left: Point::new(start.x, end.y, None),
                    bottom_right: Point::new(end.x, end.y, None),
                }
            }
        } else {
            if start.x > end.x {
                // drag from bottom-right towards top-left
                RectangleShape {
                    top_left: Point::new(end.x, end.y, None),
                    top_right: Point::new(start.x, end.y, None),
                    bottom_left: Point::new(end.x, start.y, None),
                    bottom_right: Point::new(start.x, start.y, None),
                }
            } else {
                // drag from bottom-left towards top-right
                RectangleShape {
                    top_left: Point::new(start.x, end.y, None),
                    top_right: Point::new(end.x, end.y, None),
                    bottom_left: Point::new(start.x, start.y, None),
                    bottom_right: Point::new(end.x, start.y, None),
                }
            }
        }
    }
}

/// A raw drag segment: the press and release cells, direction preserved.
#[derive(Debug, Clone, Copy)]
pub struct LineShape {
    pub start: Point,
    pub end: Point,
}

impl LineShape {
    pub fn new(start: Point, end: Point) -> (l: LineShape)
        ensures
            l == (LineShape { start, end }),
    {
        LineShape { start, end }
    }
}

/// The closed set of shape variants a completed drag can place.
#[derive(Debug, Clone, Copy)]
pub enum Shape {
    Box(RectangleShape),
    Border(RectangleShape),
    Arrow(LineShape),
    Line(LineShape),
}

/// The cells a filled box over `rect` covers: the half-open row range
/// `[top_left.x, top_right.x)` crossed with the half-open column range
/// `[bottom_left.y, top_left.y)`. Zero-width or zero-height rectangles
/// cover nothing.
pub open spec fn box_covers(rect: RectangleShape, row: u16, column: u16) -> bool {
    &&& rect.top_left.x <= row < rect.top_right.x
    &&& rect.bottom_left.y <= column < rect.top_left.y
}

/// The cells a border over `rect` covers: the perimeter of the filled box —
/// the cells of `box_covers` lying on the first or last covered row, or on
/// the first or last covered column.
pub open spec fn border_covers(rect: RectangleShape, row: u16, column: u16) -> bool {
    &&& box_covers(rect, row, column)
    &&& (row == rect.top_left.x || row == rect.top_right.x - 1 || column == rect.bottom_left.y
        || column == rect.top_left.y - 1)
}

/// The point a drag segment shows at a cell when capped with `cap`: a
/// horizontal rule swept along the column axis from `start.y` (inclusive) to
/// `end.y` (exclusive) on row `start.x`, and the cap glyph at the release
/// cell `(start.x, end.y)`. A release at or before the press column leaves
/// only the cap: half-open sweeps never wrap.
pub open spec fn line_cell(line: LineShape, cap: char, row: u16, column: u16) -> Option<Point> {
    if row == line.start.x && column == line.end.y {
        Some(Point { x: row, y: column, value: Some(cap) })
    } else if row == line.start.x && line.start.y <= column < line.end.y {
        Some(Point { x: row, y: column, value: Some('─') })
    } else {
        None
    }
}

/// The point, if any, that `shape` alone shows at cell `(row, column)`.
/// Boxes and borders stamp a solid block; a line sweeps a horizontal rule
/// ending in a plain rule cap; an arrow sweeps the same rule ending in an
/// arrowhead that encodes the drag direction.
pub open spec fn shape_cell(shape: Shape, row: u16, column: u16) -> Option<Point> {
    match shape {
        Shape::Box(rect) => if box_covers(rect, row, column) {
            Some(Point { x: row, y: column, value: Some('█') })
        } else {
            None
        },
        Shape::Border(rect) => if border_covers(rect, row, column) {
            Some(Point { x: row, y: column, value: Some('█') })
        } else {
            None
        },
        Shape::Arrow(line) => line_cell(line, '►', row, column),
        Shape::Line(line) => line_cell(line, '─', row, column),
    }
}

/// Normalization is order-independent: the two drag corners may arrive in
/// either order, the rectangle is the same, and a filled box over it covers
/// the same cells.
pub proof fn lemma_normalize_order_independent(p: Point, q: Point)
    ensures
        normalized(p, q) == normalized(q, p),
        forall|r: u16, c: u16| box_covers(normalized(p, q), r, c) <==> box_covers(
            normalized(q, p),
            r,
            c,
        ),
{
}

/// Canonical ordering: whatever the drag direction, the normalizer's output
/// is well-formed; in particular the left corners' rows do not exceed the
/// right corners' rows and the bottom corners' columns do not exceed the top
/// corners' columns.
pub proof fn lemma_normalize_canonical(p: Point, q: Point)
    ensures
        rect_wf(normalized(p, q)),
        normalized(p, q).top_left.x <= normalized(p, q).bottom_left.x,
        normalized(p, q).top_left.y <= normalized(p, q).top_right.y,
{
}

} // verus!
