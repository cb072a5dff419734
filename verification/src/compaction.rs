//! Tile-to-rectangle compaction of a whole grid, and what holds of its result.

use crate::grid::Grid;
use crate::grid::GridView;
use crate::merge::emission_ordered;
use crate::merge::emitted_before;
use crate::merge::in_row;
use crate::merge::is_run;
use crate::merge::merge_rows;
use crate::plate::is_plate;
use crate::plate::lemma_plate_in_bounds;
use crate::plate::lemma_plates_meet;
use crate::plate::rows_view;
use crate::plate::scan_rows;
use crate::plate::Plate;
use crate::rect::Rect;
use vstd::prelude::*;

verus! {

/// `r` is a rectangle of the compaction of `g`: its column range is a plate
/// of every row from `bottom` to `top`, and of neither neighbouring row.
pub open spec fn is_merged_rect(g: GridView, r: Rect) -> bool {
    &&& r.bottom <= r.top
    &&& forall|y: int| r.bottom <= y <= r.top ==> #[trigger] is_plate(g, y, r.plate())
    &&& !is_plate(g, r.bottom - 1, r.plate())
    &&& !is_plate(g, r.top + 1, r.plate())
}

/// `out` is the compaction of `g`: exactly its merged rectangles, each once,
/// ordered by top row and then by left column.
pub open spec fn is_compaction(g: GridView, out: Seq<Rect>) -> bool {
    &&& forall|i: int| 0 <= i < out.len() ==> is_merged_rect(g, #[trigger] out[i])
    &&& forall|r: Rect| #[trigger] is_merged_rect(g, r) ==> out.contains(r)
    &&& emission_ordered(out)
}

/// Some rectangle of `out` holds the cell `(x, y)`.
pub open spec fn covered(out: Seq<Rect>, x: int, y: int) -> bool {
    exists|i: int| 0 <= i < out.len() && (#[trigger] out[i]).covers(x, y)
}

/// Compacts the grid's wall cells into rectangles: each row is cut into its
/// plates, and identical plates of consecutive rows are stacked.
///
/// The rectangles cover exactly the wall cells, and no two of them overlap.
pub fn compact(grid: &Grid) -> (out: Vec<Rect>)
    ensures
        is_compaction(grid@, out@),
        forall|x: int, y: int| grid@.occupied(x, y) <==> #[trigger] covered(out@, x, y),
        forall|i: int, j: int|
            0 <= i < out.len() && 0 <= j < out.len() && i != j ==> !(#[trigger] out[i]).overlaps(
                #[trigger] out[j],
            ),
        forall|i: int| 0 <= i < out.len() ==> (#[trigger] out[i]).wf(),
{
    let rows = scan_rows(grid);
    proof {
        grid.lemma_view_wf();
    }
    let out = merge_rows(&rows);
    proof {
        let g = grid@;
        let rs = rows_view(rows@);
        assert forall|y: int, p: Plate| #[trigger] in_row(rs, y, p) == is_plate(g, y, p) by {
            if is_plate(g, y, p) {
                lemma_plate_in_bounds(g, y, p);
                assert(rs[y] == rows[y]@);
            }
            if in_row(rs, y, p) {
                assert(rs[y] == rows[y]@);
                let i = choose|i: int| 0 <= i < rs[y].len() && rs[y][i] == p;
                assert(is_plate(g, y, rows[y]@[i]));
            }
        }
        assert forall|r: Rect| #[trigger] is_merged_rect(g, r) == is_run(rs, r) by {
            if is_merged_rect(g, r) {
                assert(is_plate(g, r.bottom as int, r.plate()));
                assert(is_plate(g, r.top as int, r.plate()));
                assert(in_row(rs, r.bottom as int, r.plate()));
                assert(in_row(rs, r.top as int, r.plate()));
                assert forall|y: int| r.bottom <= y <= r.top implies #[trigger] in_row(
                    rs,
                    y,
                    r.plate(),
                ) by {
                    assert(is_plate(g, y, r.plate()));
                }
            }
            if is_run(rs, r) {
                assert forall|y: int| r.bottom <= y <= r.top implies #[trigger] is_plate(
                    g,
                    y,
                    r.plate(),
                ) by {
                    assert(in_row(rs, y, r.plate()));
                }
            }
        }
        lemma_compaction_covers(g, out@);
        lemma_compaction_disjoint(g, out@);
        assert forall|i: int| 0 <= i < out.len() implies (#[trigger] out[i]).wf() by {
            assert(is_plate(g, out[i].bottom as int, out[i].plate()));
        }
    }
    out
}

proof fn lemma_left_end(g: GridView, x: int, y: int) -> (l: int)
    requires
        g.wf(),
        g.occupied(x, y),
    ensures
        0 <= l <= x,
        g.row_filled(y, l, x),
        !g.occupied(l - 1, y),
    decreases x,
{
    if g.occupied(x - 1, y) {
        lemma_left_end(g, x - 1, y)
    } else {
        x
    }
}

proof fn lemma_right_end(g: GridView, x: int, y: int) -> (r: int)
    requires
        g.wf(),
        g.occupied(x, y),
    ensures
        x <= r < g.width,
        g.row_filled(y, x, r),
        !g.occupied(r + 1, y),
    decreases g.width - x,
{
    if g.occupied(x + 1, y) {
        lemma_right_end(g, x + 1, y)
    } else {
        x
    }
}

proof fn lemma_bottom_end(g: GridView, p: Plate, y: int) -> (b: int)
    requires
        g.wf(),
        is_plate(g, y, p),
    ensures
        0 <= b <= y,
        forall|k: int| b <= k <= y ==> #[trigger] is_plate(g, k, p),
        !is_plate(g, b - 1, p),
    decreases y,
{
    lemma_plate_in_bounds(g, y, p);
    if is_plate(g, y - 1, p) {
        lemma_plate_in_bounds(g, y - 1, p);
        lemma_bottom_end(g, p, y - 1)
    } else {
        y
    }
}

proof fn lemma_top_end(g: GridView, p: Plate, y: int) -> (t: int)
    requires
        g.wf(),
        is_plate(g, y, p),
    ensures
        y <= t < g.height,
        forall|k: int| y <= k <= t ==> #[trigger] is_plate(g, k, p),
        !is_plate(g, t + 1, p),
    decreases g.height - y,
{
    lemma_plate_in_bounds(g, y, p);
    if is_plate(g, y + 1, p) {
        lemma_plate_in_bounds(g, y + 1, p);
        lemma_top_end(g, p, y + 1)
    } else {
        y
    }
}

/// Every occupied cell lies in a merged rectangle.
pub proof fn lemma_cell_has_rect(g: GridView, x: int, y: int) -> (r: Rect)
    requires
        g.wf(),
        g.occupied(x, y),
    ensures
        is_merged_rect(g, r),
        r.covers(x, y),
{
    let l = lemma_left_end(g, x, y);
    let rr = lemma_right_end(g, x, y);
    let p = Plate { left: l as i32, right: rr as i32 };
    assert(is_plate(g, y, p));
    let b = lemma_bottom_end(g, p, y);
    let t = lemma_top_end(g, p, y);
    let r = Rect { left: p.left, right: p.right, bottom: b as i32, top: t as i32 };
    assert(r.plate() == p);
    r
}

/// Two merged rectangles that share a cell are the same rectangle.
pub proof fn lemma_merged_rects_meet(g: GridView, a: Rect, b: Rect, x: int, y: int)
    requires
        is_merged_rect(g, a),
        is_merged_rect(g, b),
        a.covers(x, y),
        b.covers(x, y),
    ensures
        a == b,
{
    assert(is_plate(g, y, a.plate()));
    assert(is_plate(g, y, b.plate()));
    lemma_plates_meet(g, y, a.plate(), b.plate(), x);
    if a.bottom < b.bottom {
        assert(is_plate(g, b.bottom - 1, a.plate()));
    }
    if b.bottom < a.bottom {
        assert(is_plate(g, a.bottom - 1, b.plate()));
    }
    if a.top < b.top {
        assert(is_plate(g, a.top + 1, b.plate()));
    }
    if b.top < a.top {
        assert(is_plate(g, b.top + 1, a.plate()));
    }
}

/// The rectangles of a compaction cover exactly the occupied cells: no cell
/// is gained and none is lost.
pub proof fn lemma_compaction_covers(g: GridView, out: Seq<Rect>)
    requires
        g.wf(),
        is_compaction(g, out),
    ensures
        forall|x: int, y: int| g.occupied(x, y) <==> #[trigger] covered(out, x, y),
{
    assert forall|x: int, y: int| g.occupied(x, y) <==> #[trigger] covered(out, x, y) by {
        if g.occupied(x, y) {
            let r = lemma_cell_has_rect(g, x, y);
            let i = choose|i: int| 0 <= i < out.len() && out[i] == r;
            assert(out[i].covers(x, y));
        }
        if covered(out, x, y) {
            let i = choose|i: int| 0 <= i < out.len() && (#[trigger] out[i]).covers(x, y);
            assert(is_plate(g, y, out[i].plate()));
            assert(g.occupied(x, y));
        }
    }
}

/// No two rectangles of a compaction overlap.
pub proof fn lemma_compaction_disjoint(g: GridView, out: Seq<Rect>)
    requires
        is_compaction(g, out),
    ensures
        forall|i: int, j: int|
            0 <= i < out.len() && 0 <= j < out.len() && i != j ==> !(#[trigger] out[i]).overlaps(
                #[trigger] out[j],
            ),
{
    assert forall|i: int, j: int|
        0 <= i < out.len() && 0 <= j < out.len() && i != j implies !(#[trigger] out[i]).overlaps(
        #[trigger] out[j],
    ) by {
        if out[i].overlaps(out[j]) {
            let (x, y) = choose|x: int, y: int| #[trigger]
                out[i].covers(x, y) && out[j].covers(x, y);
            lemma_merged_rects_meet(g, out[i], out[j], x, y);
            if i < j {
                assert(emitted_before(out[i], out[j]));
            } else {
                assert(emitted_before(out[j], out[i]));
            }
        }
    }
}

/// Two sequences in emission order with the same members are equal.
proof fn lemma_ordered_same_members(a: Seq<Rect>, b: Seq<Rect>)
    requires
        emission_ordered(a),
        emission_ordered(b),
        forall|r: Rect| a.contains(r) <==> b.contains(r),
    ensures
        a == b,
    decreases a.len(),
{
    if a.len() == 0 {
        if b.len() > 0 {
            assert(b.contains(b[0]));
        }
        assert(a =~= b);
    } else {
        assert(a.contains(a.last()));
        let k = choose|k: int| 0 <= k < b.len() && b[k] == a.last();
        assert(b.contains(b.last()));
        let m = choose|m: int| 0 <= m < a.len() && a[m] == b.last();
        if m < a.len() - 1 {
            assert(emitted_before(a[m], a.last()));
            if k < b.len() - 1 {
                assert(emitted_before(b[k], b.last()));
            }
        }
        assert(a.last() == b.last());
        let a0 = a.drop_last();
        let b0 = b.drop_last();
        assert forall|r: Rect| a0.contains(r) <==> b0.contains(r) by {
            if a0.contains(r) {
                let i = choose|i: int| 0 <= i < a0.len() && a0[i] == r;
                assert(a[i] == r);
                assert(emitted_before(a[i], a.last()));
                assert(a.contains(r));
                let j = choose|j: int| 0 <= j < b.len() && b[j] == r;
                assert(b0[j] == r);
            }
            if b0.contains(r) {
                let i = choose|i: int| 0 <= i < b0.len() && b0[i] == r;
                assert(b[i] == r);
                assert(emitted_before(b[i], b.last()));
                assert(b.contains(r));
                let j = choose|j: int| 0 <= j < a.len() && a[j] == r;
                assert(a0[j] == r);
            }
        }
        lemma_ordered_same_members(a0, b0);
        assert(a =~= a0.push(a.last()));
        assert(b =~= b0.push(b.last()));
    }
}

/// A grid has one compaction only: whatever meets the contract of `compact`
/// on the same grid is the same sequence of rectangles, so running the
/// compaction again on an unchanged grid gives the identical result.
pub proof fn lemma_compaction_unique(g: GridView, a: Seq<Rect>, b: Seq<Rect>)
    requires
        is_compaction(g, a),
        is_compaction(g, b),
    ensures
        a == b,
{
    assert forall|r: Rect| a.contains(r) <==> b.contains(r) by {
        if a.contains(r) {
            let i = choose|i: int| 0 <= i < a.len() && a[i] == r;
            assert(is_merged_rect(g, a[i]));
        }
        if b.contains(r) {
            let i = choose|i: int| 0 <= i < b.len() && b[i] == r;
            assert(is_merged_rect(g, b[i]));
        }
    }
    lemma_ordered_same_members(a, b);
}

} // verus!
