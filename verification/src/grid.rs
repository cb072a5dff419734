//! The occupancy index of one level: which cells of its tile grid hold a wall.

use std::collections::HashSet;
use vstd::prelude::*;

verus! {

broadcast use vstd::std_specs::hash::group_hash_axioms;

/// The mathematical picture of a grid: its extent and its occupied cells.
pub struct GridView {
    pub width: int,
    pub height: int,
    pub cells: Set<(int, int)>,
}

impl GridView {
    /// The cell lies inside the grid's extent.
    pub open spec fn in_bounds(self, x: int, y: int) -> bool {
        0 <= x < self.width && 0 <= y < self.height
    }

    /// The cell holds a wall.
    pub open spec fn occupied(self, x: int, y: int) -> bool {
        self.cells.contains((x, y))
    }

    /// Every occupied cell lies inside the extent, and the extent is one
    /// that 32-bit coordinates can address.
    pub open spec fn wf(self) -> bool {
        &&& self.width <= i32::MAX
        &&& self.height <= i32::MAX
        &&& forall|x: int, y: int| #[trigger] self.cells.contains((x, y)) ==> self.in_bounds(x, y)
    }

    /// Every column of `[left, right]` is occupied in row `y`.
    pub open spec fn row_filled(self, y: int, left: int, right: int) -> bool {
        forall|x: int| left <= x <= right ==> #[trigger] self.occupied(x, y)
    }
}

/// The in-bounds cells that a list of coordinates names.
pub open spec fn cells_of(list: Seq<(i32, i32)>, width: int, height: int) -> Set<(int, int)> {
    Set::new(
        |c: (int, int)|
            0 <= c.0 < width && 0 <= c.1 < height && exists|j: int|
                0 <= j < list.len() && (#[trigger] list[j]).0 == c.0 && list[j].1 == c.1,
    )
}

/// Distance between the keys of two vertically adjacent cells.
const ROW_STRIDE: u64 = 0x1_0000_0000;

/// The integer under which an in-bounds cell is stored.
pub closed spec fn cell_key(x: int, y: int) -> u64 {
    (y * 0x1_0000_0000 + x) as u64
}

fn key_of(x: i32, y: i32) -> (k: u64)
    requires
        0 <= x,
        0 <= y,
    ensures
        k == cell_key(x as int, y as int),
{
    (y as u64) * ROW_STRIDE + (x as u64)
}

/// A sparse set of wall cells inside a `width` by `height` grid.
///
/// Cells outside the extent are never stored, so a lookup there answers
/// "free" without touching the set.
pub struct Grid {
    width: i32,
    height: i32,
    cells: HashSet<u64>,
}

impl View for Grid {
    type V = GridView;

    closed spec fn view(&self) -> GridView {
        GridView {
            width: self.width as int,
            height: self.height as int,
            cells: Set::new(
                |c: (int, int)|
                    0 <= c.0 < self.width && 0 <= c.1 < self.height && self.cells@.contains(
                        cell_key(c.0, c.1),
                    ),
            ),
        }
    }
}

impl Grid {
    /// The view of any grid is well formed.
    pub proof fn lemma_view_wf(&self)
        ensures
            self@.wf(),
    {
    }

    /// An empty grid of the given extent. A non-positive extent holds no cell.
    pub fn new(width: i32, height: i32) -> (g: Grid)
        ensures
            g@.width == width,
            g@.height == height,
            g@.cells == Set::<(int, int)>::empty(),
            g@.wf(),
    {
        let g = Grid { width, height, cells: HashSet::new() };
        assert(g@.cells =~= Set::<(int, int)>::empty());
        g
    }

    /// Number of columns.
    pub fn width(&self) -> (w: i32)
        ensures
            w == self@.width,
    {
        self.width
    }

    /// Number of rows.
    pub fn height(&self) -> (h: i32)
        ensures
            h == self@.height,
    {
        self.height
    }

    /// Whether the cell `(x, y)` holds a wall; cells outside the grid never do.
    pub fn contains(&self, x: i32, y: i32) -> (b: bool)
        ensures
            b == self@.occupied(x as int, y as int),
    {
        if 0 <= x && x < self.width && 0 <= y && y < self.height {
            let k = key_of(x, y);
            self.cells.contains(&k)
        } else {
            false
        }
    }

    /// Marks the cell `(x, y)` as a wall.
    ///
    /// Returns whether the cell was newly added; a cell outside the grid is
    /// ignored and a cell already present stays as it is.
    pub fn insert(&mut self, x: i32, y: i32) -> (added: bool)
        ensures
            final(self)@.width == old(self)@.width,
            final(self)@.height == old(self)@.height,
            final(self)@.wf(),
            old(self)@.in_bounds(x as int, y as int) ==> final(self)@.cells == old(self)@.cells.insert(
                (x as int, y as int),
            ),
            !old(self)@.in_bounds(x as int, y as int) ==> final(self)@.cells == old(self)@.cells,
            added == (old(self)@.in_bounds(x as int, y as int) && !old(self)@.occupied(
                x as int,
                y as int,
            )),
    {
        if 0 <= x && x < self.width && 0 <= y && y < self.height {
            let k = key_of(x, y);
            let added = self.cells.insert(k);
            proof {
                assert forall|c: (int, int)|
                    0 <= c.0 < self.width && 0 <= c.1 < self.height && cell_key(c.0, c.1)
                        == k implies c == (x as int, y as int) by {}
                assert(final(self)@.cells =~= old(self)@.cells.insert((x as int, y as int)));
            }
            added
        } else {
            false
        }
    }

    /// The grid of the given extent holding exactly the listed cells that lie inside it.
    pub fn from_cells(width: i32, height: i32, cells: &Vec<(i32, i32)>) -> (g: Grid)
        ensures
            g@.width == width,
            g@.height == height,
            g@.cells == cells_of(cells@, width as int, height as int),
            g@.wf(),
    {
        let mut g = Grid::new(width, height);
        let mut i: usize = 0;
        while i < cells.len()
            invariant
                i <= cells.len(),
                g@.width == width,
                g@.height == height,
                g@.wf(),
                g@.cells == cells_of(cells@.take(i as int), width as int, height as int),
            decreases cells.len() - i,
        {
            let c = cells[i];
            let ghost before = g@.cells;
            g.insert(c.0, c.1);
            proof {
                let done = cells@.take(i as int);
                let next = cells@.take(i + 1);
                assert forall|p: (int, int)|
                    cells_of(next, width as int, height as int).contains(p) == g@.cells.contains(
                        p,
                    ) by {
                    if cells_of(next, width as int, height as int).contains(p) {
                        let j = choose|j: int|
                            0 <= j < next.len() && (#[trigger] next[j]).0 == p.0 && next[j].1
                                == p.1;
                        if j < i {
                            assert(done[j] == next[j]);
                        }
                    }
                    if g@.cells.contains(p) {
                        if before.contains(p) {
                            let j = choose|j: int|
                                0 <= j < done.len() && (#[trigger] done[j]).0 == p.0 && done[j].1
                                    == p.1;
                            assert(next[j] == done[j]);
                        } else {
                            assert(next[i as int] == c);
                        }
                    }
                }
                assert(g@.cells =~= cells_of(next, width as int, height as int));
            }
            i += 1;
        }
        assert(cells@.take(i as int) =~= cells@);
        g
    }

    /// Whether every column of `[left, right]` is a wall in row `y`.
    pub fn row_filled(&self, y: i32, left: i32, right: i32) -> (b: bool)
        ensures
            b == self@.row_filled(y as int, left as int, right as int),
    {
        if left > right {
            return true;
        }
        let mut x: i32 = left;
        while x < right
            invariant
                left <= x <= right,
                forall|c: int| left <= c < x ==> #[trigger] self@.occupied(c, y as int),
            decreases right - x,
        {
            if !self.contains(x, y) {
                return false;
            }
            x += 1;
        }
        self.contains(right, y)
    }
}

} // verus!
