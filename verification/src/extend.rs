//! The edge extender: grows a finished rectangle by one row at either end
//! where the whole neighbouring row is wall, so that no seam is left between
//! rectangles that were merged apart.

use crate::compaction::covered;
use crate::compaction::is_compaction;
use crate::compaction::lemma_compaction_covers;
use crate::grid::Grid;
use crate::grid::GridView;
use crate::plate::is_plate;
use crate::rect::Rect;
use vstd::prelude::*;

verus! {

/// The rectangle `r` after extension: `bottom` is one lower if the row
/// beneath is occupied over the whole column range, and `top` is one higher
/// if the row above is. Both tests read the grid, never another rectangle.
pub open spec fn extended(g: GridView, r: Rect) -> Rect {
    Rect {
        left: r.left,
        right: r.right,
        bottom: if g.row_filled(r.bottom - 1, r.left as int, r.right as int) {
            (r.bottom - 1) as i32
        } else {
            r.bottom
        },
        top: if g.row_filled(r.top + 1, r.left as int, r.right as int) {
            (r.top + 1) as i32
        } else {
            r.top
        },
    }
}

/// Every rectangle of the sequence, extended.
pub open spec fn extended_all(g: GridView, rects: Seq<Rect>) -> Seq<Rect> {
    Seq::new(rects.len(), |i: int| extended(g, rects[i]))
}

/// Extends one rectangle by at most one row downwards and one row upwards.
pub fn extend_rect(grid: &Grid, rect: Rect) -> (out: Rect)
    requires
        rect.wf(),
    ensures
        out == extended(grid@, rect),
        out.wf(),
{
    proof {
        grid.lemma_view_wf();
        if grid@.row_filled(rect.bottom - 1, rect.left as int, rect.right as int) {
            assert(grid@.occupied(rect.left as int, rect.bottom - 1));
        }
        if grid@.row_filled(rect.top + 1, rect.left as int, rect.right as int) {
            assert(grid@.occupied(rect.left as int, rect.top + 1));
        }
    }
    let mut out = rect;
    if rect.bottom > 0 && grid.row_filled(rect.bottom - 1, rect.left, rect.right) {
        out.bottom = rect.bottom - 1;
    }
    if rect.top < i32::MAX && grid.row_filled(rect.top + 1, rect.left, rect.right) {
        out.top = rect.top + 1;
    }
    out
}

/// Extends every rectangle of the list, each on its own.
pub fn extend_edges(grid: &Grid, rects: &Vec<Rect>) -> (out: Vec<Rect>)
    requires
        forall|i: int| 0 <= i < rects.len() ==> (#[trigger] rects[i]).wf(),
    ensures
        out@ == extended_all(grid@, rects@),
        forall|i: int| 0 <= i < out.len() ==> (#[trigger] out[i]).wf(),
{
    let mut out: Vec<Rect> = Vec::new();
    let mut i: usize = 0;
    while i < rects.len()
        invariant
            i <= rects.len(),
            out.len() == i,
            forall|k: int| 0 <= k < rects.len() ==> (#[trigger] rects[k]).wf(),
            forall|k: int| 0 <= k < i ==> out[k] == extended(grid@, #[trigger] rects[k]),
            forall|k: int| 0 <= k < i ==> (#[trigger] out[k]).wf(),
        decreases rects.len() - i,
    {
        let r = extend_rect(grid, rects[i]);
        out.push(r);
        i += 1;
    }
    assert(out@ =~= extended_all(grid@, rects@));
    out
}

/// Extension moves `bottom` down by exactly one row or not at all, and `top`
/// up by exactly one row or not at all; it never shrinks a rectangle nor
/// changes its columns.
pub proof fn lemma_extended_by_one(g: GridView, r: Rect)
    requires
        g.wf(),
        r.wf(),
    ensures
        extended(g, r).left == r.left,
        extended(g, r).right == r.right,
        extended(g, r).bottom == r.bottom - 1 || extended(g, r).bottom == r.bottom,
        extended(g, r).top == r.top + 1 || extended(g, r).top == r.top,
        extended(g, r).bottom == r.bottom - 1 <==> g.row_filled(
            r.bottom - 1,
            r.left as int,
            r.right as int,
        ),
        extended(g, r).top == r.top + 1 <==> g.row_filled(r.top + 1, r.left as int, r.right as int),
        forall|x: int, y: int| r.covers(x, y) ==> #[trigger] extended(g, r).covers(x, y),
{
    if g.row_filled(r.bottom - 1, r.left as int, r.right as int) {
        assert(g.occupied(r.left as int, r.bottom - 1));
    }
    if g.row_filled(r.top + 1, r.left as int, r.right as int) {
        assert(g.occupied(r.left as int, r.top + 1));
    }
}

/// Two rectangles of the same columns, stacked with one row between them
/// that is not wall throughout, the lower one on a row of wall and the upper
/// one beneath a row of wall: extension moves the bottom of the lower one
/// down by exactly one row and the top of the upper one up by exactly one
/// row, and the two still have no cell in common.
pub proof fn lemma_stacked_extension(g: GridView, lower: Rect, upper: Rect)
    requires
        g.wf(),
        lower.wf(),
        upper.wf(),
        lower.plate() == upper.plate(),
        lower.top + 2 == upper.bottom,
        !g.row_filled(lower.top + 1, lower.left as int, lower.right as int),
        g.row_filled(lower.bottom - 1, lower.left as int, lower.right as int),
        g.row_filled(upper.top + 1, upper.left as int, upper.right as int),
    ensures
        extended(g, lower).bottom == lower.bottom - 1,
        extended(g, lower).top == lower.top,
        extended(g, upper).top == upper.top + 1,
        extended(g, upper).bottom == upper.bottom,
        !extended(g, lower).overlaps(extended(g, upper)),
{
    lemma_extended_by_one(g, lower);
    lemma_extended_by_one(g, upper);
}

/// Extending the rectangles of a compaction neither gains nor loses a cell:
/// together they still cover exactly the occupied cells.
pub proof fn lemma_extension_keeps_cover(g: GridView, rects: Seq<Rect>)
    requires
        g.wf(),
        is_compaction(g, rects),
    ensures
        forall|x: int, y: int|
            g.occupied(x, y) <==> #[trigger] covered(extended_all(g, rects), x, y),
{
    let ext = extended_all(g, rects);
    lemma_compaction_covers(g, rects);
    assert forall|x: int, y: int| g.occupied(x, y) <==> #[trigger] covered(ext, x, y) by {
        if g.occupied(x, y) {
            assert(covered(rects, x, y));
            let i = choose|i: int| 0 <= i < rects.len() && (#[trigger] rects[i]).covers(x, y);
            assert(is_plate(g, rects[i].bottom as int, rects[i].plate()));
            lemma_extended_by_one(g, rects[i]);
            assert(ext[i].covers(x, y));
        }
        if covered(ext, x, y) {
            let i = choose|i: int| 0 <= i < ext.len() && (#[trigger] ext[i]).covers(x, y);
            let r = rects[i];
            assert(ext[i] == extended(g, r));
            assert(is_plate(g, r.bottom as int, r.plate()));
            lemma_extended_by_one(g, r);
            if r.bottom <= y <= r.top {
                assert(is_plate(g, y, r.plate()));
                assert(g.occupied(x, y));
            } else if y < r.bottom {
                assert(g.occupied(x, r.bottom - 1));
            } else {
                assert(g.occupied(x, r.top + 1));
            }
        }
    }
}

} // verus!
