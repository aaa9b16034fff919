//! Shape-to-grid rasterization and canvas composition for a character-grid
//! canvas: normalizing drag corners into rectangles, turning shapes into the
//! cells they cover, and compositing overlapping shapes into one buffer.

pub mod shapes;
pub mod render;

use vstd::prelude::*;

use crate::render::{raster_matches, rasterize, seq_has_cell};
use crate::shapes::{shape_cell, Point, Shape};

verus! {

/// The canvas state: the append-only sequence of placed shapes in insertion
/// order. Insertion order carries the painter's-algorithm precedence: at a
/// cell covered by several shapes, the shape inserted last decides the glyph.
#[derive(Debug)]
pub struct State {
    shapes: Vec<Shape>,
}

impl View for State {
    type V = Seq<Shape>;

    closed spec fn view(&self) -> Seq<Shape> {
        self.shapes@
    }
}

/// The point the canvas shows at cell `(row, column)`: the point of the most
/// recently inserted shape covering that cell, or `None` where no shape does.
pub open spec fn cell_at(shapes: Seq<Shape>, row: u16, column: u16) -> Option<Point>
    decreases shapes.len(),
{
    if shapes.len() == 0 {
        None
    } else {
        match shape_cell(shapes.last(), row, column) {
            Some(p) => Some(p),
            None => cell_at(shapes.drop_last(), row, column),
        }
    }
}

/// A cell sample: the point occupying the queried cell together with the
/// points occupying its four axis-adjacent neighbours, each `None` where no
/// placed shape covers the position or the position lies off the grid.
/// All five positions are exposed so that edge-aware glyph substitution can
/// be layered on without changing the compositor's interface.
#[derive(Debug, Clone, Copy)]
pub struct ViewVisor {
    pub center: Option<Point>,
    pub top: Option<Point>,
    pub bottom: Option<Point>,
    pub left: Option<Point>,
    pub right: Option<Point>,
}

impl State {
    pub fn new() -> (s: State)
        ensures
            s@ == Seq::<Shape>::empty(),
    {
        State { shapes: Vec::new() }
    }

    /// Appends a shape. Never rejects input; the new shape takes precedence
    /// over every earlier one at each cell it covers.
    pub fn insert(&mut self, shape: Shape)
        ensures
            final(self)@ == old(self)@.push(shape),
    {
        self.shapes.push(shape);
    }

    /// The most recently inserted rasterized point occupying `(row, column)`,
    /// or `None` if no placed shape covers that cell.
    #[verifier::loop_isolation(false)]
    pub fn point_at(&self, row: u16, column: u16) -> (r: Option<Point>)
        ensures
            r == cell_at(self@, row, column),
    {
        let mut r: Option<Point> = None;
        let mut k: usize = 0;
        while k < self.shapes.len()
            invariant
                k <= self@.len(),
                r == cell_at(self@.take(k as int), row, column),
            decreases self@.len() - k,
        {
            let pts = rasterize(&self.shapes[k]);
            let ghost prev = r;
            let mut j: usize = 0;
            while j < pts.len()
                invariant
                    j <= pts@.len(),
                    k < self@.len(),
                    raster_matches(pts@, self@[k as int]),
                    r == if seq_has_cell(pts@.take(j as int), row, column) {
                        shape_cell(self@[k as int], row, column)
                    } else {
                        prev
                    },
                decreases pts@.len() - j,
            {
                let p = pts[j];
                if p.x == row && p.y == column {
                    r = Some(p);
                }
                proof {
                    let tj = pts@.take(j as int);
                    let tj1 = pts@.take(j as int + 1);
                    assert(tj1 =~= tj.push(pts@[j as int]));
                    if p.x == row && p.y == column {
                        assert(tj1[j as int].x == row && tj1[j as int].y == column);
                    } else {
                        if seq_has_cell(tj1, row, column) {
                            let i = choose|i: int|
                                0 <= i < tj1.len() && tj1[i].x == row && tj1[i].y == column;
                            assert(tj[i].x == row && tj[i].y == column);
                        }
                        if seq_has_cell(tj, row, column) {
                            let i = choose|i: int|
                                0 <= i < tj.len() && tj[i].x == row && tj[i].y == column;
                            assert(tj1[i].x == row && tj1[i].y == column);
                        }
                    }
                }
                j = j + 1;
            }
            proof {
                assert(pts@.take(pts@.len() as int) =~= pts@);
                assert(self@.take(k as int + 1).drop_last() =~= self@.take(k as int));
                assert(self@.take(k as int + 1).last() == self@[k as int]);
                if shape_cell(self@[k as int], row, column).is_some() {
                    assert(seq_has_cell(pts@, row, column));
                } else if seq_has_cell(pts@, row, column) {
                    let i = choose|i: int|
                        0 <= i < pts@.len() && pts@[i].x == row && pts@[i].y == column;
                    assert(Some(pts@[i]) == shape_cell(self@[k as int], pts@[i].x, pts@[i].y));
                }
            }
            k = k + 1;
        }
        proof {
            assert(self@.take(self@.len() as int) =~= self@);
        }
        r
    }

    /// Samples a cell and its four direct neighbours: the centre is the point
    /// at `(row, column)`, and each neighbour is the point one step up, down,
    /// left or right along the axes. A neighbour beyond the grid edge — above
    /// row zero, left of column zero, or past the largest coordinate — is
    /// reported absent rather than wrapping.
    pub fn sample(&self, row: u16, column: u16) -> (v: ViewVisor)
        ensures
            v.center == cell_at(self@, row, column),
            v.top == if row > 0 {
                cell_at(self@, (row - 1) as u16, column)
            } else {
                None::<Point>
            },
            v.bottom == if row < u16::MAX {
                cell_at(self@, (row + 1) as u16, column)
            } else {
                None::<Point>
            },
            v.left == if column > 0 {
                cell_at(self@, row, (column - 1) as u16)
            } else {
                None::<Point>
            },
            v.right == if column < u16::MAX {
                cell_at(self@, row, (column + 1) as u16)
            } else {
                None::<Point>
            },
    {
        ViewVisor {
            center: self.point_at(row, column),
            top: if row > 0 {
                self.point_at(row - 1, column)
            } else {
                None
            },
            bottom: if row < u16::MAX {
                self.point_at(row + 1, column)
            } else {
                None
            },
            left: if column > 0 {
                self.point_at(row, column - 1)
            } else {
                None
            },
            right: if column < u16::MAX {
                self.point_at(row, column + 1)
            } else {
                None
            },
        }
    }
}

/// Overlap precedence: insert shape `a` and then shape `b` into any canvas;
/// at a cell both shapes cover, the canvas shows `b`'s point, never `a`'s.
pub proof fn lemma_overlap_precedence(
    shapes: Seq<Shape>,
    a: Shape,
    b: Shape,
    row: u16,
    column: u16,
)
    requires
        shape_cell(a, row, column).is_some(),
        shape_cell(b, row, column).is_some(),
    ensures
        cell_at(shapes.push(a).push(b), row, column) == shape_cell(b, row, column),
{
    let s = shapes.push(a).push(b);
    assert(s.last() == b);
}

} // verus!
