//! Axis-aligned rectangles of grid cells.

use crate::plate::Plate;
use vstd::prelude::*;

verus! {

/// The cells with `left <= x <= right` and `bottom <= y <= top`.
#[derive(Clone, Copy, Debug, PartialEq, Eq, Structural)]
pub struct Rect {
    pub left: i32,
    pub right: i32,
    pub top: i32,
    pub bottom: i32,
}

impl Rect {
    /// Neither pair of bounds is inverted.
    pub open spec fn wf(self) -> bool {
        self.left <= self.right && self.bottom <= self.top
    }

    /// The column range that every row of the rectangle spans.
    pub open spec fn plate(self) -> Plate {
        Plate { left: self.left, right: self.right }
    }

    /// The cell `(x, y)` lies in the rectangle.
    pub open spec fn covers(self, x: int, y: int) -> bool {
        self.left <= x <= self.right && self.bottom <= y <= self.top
    }

    /// The two rectangles have a cell in common.
    pub open spec fn overlaps(self, other: Rect) -> bool {
        exists|x: int, y: int| #[trigger] self.covers(x, y) && other.covers(x, y)
    }

    /// Builds a rectangle, or nothing when a pair of bounds is inverted.
    pub fn new(left: i32, right: i32, bottom: i32, top: i32) -> (r: Option<Rect>)
        ensures
            r.is_some() <==> (left <= right && bottom <= top),
            r matches Some(q) ==> q == (Rect { left, right, top, bottom }),
    {
        if left <= right && bottom <= top {
            Some(Rect { left, right, top, bottom })
        } else {
            None
        }
    }

    /// Whether the cell `(x, y)` lies in the rectangle.
    pub fn contains(&self, x: i32, y: i32) -> (b: bool)
        ensures
            b == self.covers(x as int, y as int),
    {
        self.left <= x && x <= self.right && self.bottom <= y && y <= self.top
    }

    /// Whether the two rectangles have a cell in common.
    pub fn intersects(&self, other: &Rect) -> (b: bool)
        requires
            self.wf(),
            other.wf(),
        ensures
            b == self.overlaps(*other),
    {
        let b = self.left <= other.right && other.left <= self.right && self.bottom <= other.top
            && other.bottom <= self.top;
        proof {
            if b {
                let x = if self.left >= other.left {
                    self.left as int
                } else {
                    other.left as int
                };
                let y = if self.bottom >= other.bottom {
                    self.bottom as int
                } else {
                    other.bottom as int
                };
                assert(self.covers(x, y) && other.covers(x, y));
            }
        }
        b
    }
}

} // verus!
