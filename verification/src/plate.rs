//! Plates: the maximal horizontal runs of occupied cells within one grid row,
//! and the scanner that finds them.

use crate::grid::Grid;
use crate::grid::GridView;
use vstd::prelude::*;

verus! {

/// An inclusive column range `[left, right]` within a single row.
#[derive(Clone, Copy, Debug, PartialEq, Eq, Structural)]
pub struct Plate {
    pub left: i32,
    pub right: i32,
}

impl Plate {
    /// A plate spans at least one column.
    pub open spec fn wf(self) -> bool {
        self.left <= self.right
    }

    /// Builds the plate `[left, right]`, or nothing when the bounds are inverted.
    pub fn new(left: i32, right: i32) -> (p: Option<Plate>)
        ensures
            p.is_some() <==> left <= right,
            p matches Some(q) ==> q.left == left && q.right == right,
    {
        if left <= right {
            Some(Plate { left, right })
        } else {
            None
        }
    }
}

/// `p` is a plate of row `y`: every column of it is occupied, and the columns
/// just outside either end are free, so it cannot be widened.
pub open spec fn is_plate(g: GridView, y: int, p: Plate) -> bool {
    &&& p.left <= p.right
    &&& g.row_filled(y, p.left as int, p.right as int)
    &&& !g.occupied(p.left - 1, y)
    &&& !g.occupied(p.right + 1, y)
}

/// The plates stand left to right and no two of them share a column.
pub open spec fn row_ordered(row: Seq<Plate>) -> bool {
    &&& forall|i: int| 0 <= i < row.len() ==> (#[trigger] row[i]).wf()
    &&& forall|i: int, j: int| 0 <= i < j < row.len() ==> (#[trigger] row[i]).right < (#[trigger] row[j]).left
}

/// `row` lists exactly the plates of row `y`, left to right.
pub open spec fn is_row_scan(g: GridView, y: int, row: Seq<Plate>) -> bool {
    &&& forall|i: int| 0 <= i < row.len() ==> is_plate(g, y, #[trigger] row[i])
    &&& forall|p: Plate| #[trigger] is_plate(g, y, p) ==> row.contains(p)
    &&& row_ordered(row)
}

/// The plate lists of a stack of rows, as sequences.
pub open spec fn rows_view(rows: Seq<Vec<Plate>>) -> Seq<Seq<Plate>> {
    Seq::new(rows.len(), |y: int| rows[y]@)
}

/// In a well-formed grid every plate lies inside the extent of its row.
pub proof fn lemma_plate_in_bounds(g: GridView, y: int, p: Plate)
    requires
        g.wf(),
        is_plate(g, y, p),
    ensures
        0 <= p.left,
        p.right < g.width,
        0 <= y < g.height,
{
    assert(g.occupied(p.left as int, y));
    assert(g.occupied(p.right as int, y));
}

/// Two plates of one row that share a column are the same plate.
pub proof fn lemma_plates_meet(g: GridView, y: int, p: Plate, q: Plate, x: int)
    requires
        is_plate(g, y, p),
        is_plate(g, y, q),
        p.left <= x <= p.right,
        q.left <= x <= q.right,
    ensures
        p == q,
{
    if p.left < q.left {
        assert(g.occupied(q.left - 1, y));
    }
    if q.left < p.left {
        assert(g.occupied(p.left - 1, y));
    }
    if p.right < q.right {
        assert(g.occupied(p.right + 1, y));
    }
    if q.right < p.right {
        assert(g.occupied(q.right + 1, y));
    }
}

/// Sweeps row `y` once from column 0 and returns its plates, left to right.
///
/// An empty row, or a row outside the grid, has none.
pub fn scan_row(grid: &Grid, y: i32) -> (row: Vec<Plate>)
    ensures
        is_row_scan(grid@, y as int, row@),
{
    let width = grid.width();
    let mut row: Vec<Plate> = Vec::new();
    proof {
        grid.lemma_view_wf();
    }
    if width <= 0 {
        assert forall|p: Plate| #[trigger] is_plate(grid@, y as int, p) implies row@.contains(
            p,
        ) by {
            lemma_plate_in_bounds(grid@, y as int, p);
        }
        return row;
    }
    let mut start: Option<i32> = None;
    let mut x: i32 = 0;
    proof {
        assert forall|p: Plate| #[trigger] is_plate(grid@, y as int, p) implies p.right + 1
            >= 0 by {
            lemma_plate_in_bounds(grid@, y as int, p);
        }
    }
    while x < width
        invariant
            0 <= x <= width,
            width == grid@.width,
            grid@.wf(),
            match start {
                Some(s) => 0 <= s < x && grid@.row_filled(y as int, s as int, x - 1)
                    && !grid@.occupied(s - 1, y as int),
                None => !grid@.occupied(x - 1, y as int),
            },
            forall|i: int| 0 <= i < row.len() ==> is_plate(grid@, y as int, #[trigger] row[i]),
            forall|i: int|
                0 <= i < row.len() ==> (#[trigger] row[i]).right + 1 < (match start {
                    Some(s) => s,
                    None => x,
                }),
            row_ordered(row@),
            forall|p: Plate|
                #[trigger] is_plate(grid@, y as int, p) && p.right + 1 < x ==> row@.contains(p),
        decreases width - x,
    {
        let occupied = grid.contains(x, y);
        let ghost before = row@;
        match start {
            Some(s) => {
                if !occupied {
                    let closed = Plate { left: s, right: x - 1 };
                    row.push(closed);
                    start = None;
                    assert(row@[before.len() as int] == closed);
                }
            },
            None => {
                if occupied {
                    start = Some(x);
                }
            },
        }
        proof {
            assert forall|p: Plate|
                #[trigger] is_plate(grid@, y as int, p) && p.right + 1 < x + 1 implies row@.contains(
                p,
            ) by {
                if p.right + 1 < x {
                    let i = choose|i: int| 0 <= i < before.len() && before[i] == p;
                    assert(row@[i] == p);
                } else {
                    assert(grid@.occupied(p.right as int, y as int));
                    assert(!occupied);
                    if row@.len() > before.len() {
                        let s = row@[before.len() as int].left;
                        if p.left < s {
                            assert(grid@.occupied(s - 1, y as int));
                        }
                        if s < p.left {
                            assert(grid@.occupied(p.left - 1, y as int));
                        }
                        assert(row@[before.len() as int] == p);
                    }
                }
            }
        }
        x += 1;
    }
    let ghost before = row@;
    if let Some(s) = start {
        let closed = Plate { left: s, right: width - 1 };
        row.push(closed);
        assert(row@[before.len() as int] == closed);
    }
    proof {
        assert forall|p: Plate| #[trigger] is_plate(grid@, y as int, p) implies row@.contains(
            p,
        ) by {
            lemma_plate_in_bounds(grid@, y as int, p);
            if p.right + 1 < width {
                let i = choose|i: int| 0 <= i < before.len() && before[i] == p;
                assert(row@[i] == p);
            } else {
                assert(grid@.occupied(p.right as int, y as int));
                if row@.len() > before.len() {
                    let s = row@[before.len() as int].left;
                    if p.left < s {
                        assert(grid@.occupied(s - 1, y as int));
                    }
                    if s < p.left {
                        assert(grid@.occupied(p.left - 1, y as int));
                    }
                    assert(row@[before.len() as int] == p);
                }
            }
        }
    }
    row
}

/// Scans every row of the grid, row 0 first.
pub fn scan_rows(grid: &Grid) -> (rows: Vec<Vec<Plate>>)
    ensures
        rows.len() == (if grid@.height > 0 {
            grid@.height
        } else {
            0
        }),
        forall|y: int| 0 <= y < rows.len() ==> is_row_scan(grid@, y, (#[trigger] rows[y])@),
{
    let height = grid.height();
    let mut rows: Vec<Vec<Plate>> = Vec::new();
    let mut y: i32 = 0;
    while y < height
        invariant
            0 <= y,
            y <= height || y == 0,
            height == grid@.height,
            rows.len() == y,
            forall|r: int| 0 <= r < rows.len() ==> is_row_scan(grid@, r, (#[trigger] rows[r])@),
        decreases height - y,
    {
        let row = scan_row(grid, y);
        rows.push(row);
        y += 1;
    }
    rows
}

} // verus!
