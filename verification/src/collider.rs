//! The collider emitter: one static solid per finished rectangle, and the
//! whole pipeline from a level's wall cells to its solids.

use crate::compaction::compact;
use crate::compaction::is_compaction;
use crate::compaction::lemma_compaction_unique;
use crate::extend::extend_edges;
use crate::extend::extended_all;
use crate::grid::cells_of;
use crate::grid::Grid;
use crate::grid::GridView;
use crate::rect::Rect;
use vstd::prelude::*;

verus! {

/// The geometry of one static solid, relative to the level's origin.
///
/// Both the size and the center are kept doubled, so that they are whole
/// numbers for every cell size: the half-extents of the shape are
/// `extent_x / 2` and `extent_y / 2`, and its center is at
/// `(twice_center_x / 2, twice_center_y / 2)`.
#[derive(Clone, Copy, Debug, PartialEq, Eq, Structural)]
pub struct Solid {
    pub extent_x: i64,
    pub extent_y: i64,
    pub twice_center_x: i64,
    pub twice_center_y: i64,
}

/// What the level format tells of a tile layer: its size in cells and the
/// size of a cell.
#[derive(Clone, Copy, Debug, PartialEq, Eq, Structural)]
pub struct LayerInfo {
    pub c_wid: i32,
    pub c_hei: i32,
    pub grid_size: i32,
}

/// The solid of a rectangle: as wide and high as its span of cells, centered
/// on the middle of that span.
pub open spec fn solid_of(r: Rect, cell_size: int) -> Solid {
    Solid {
        extent_x: ((r.right - r.left + 1) * cell_size) as i64,
        extent_y: ((r.top - r.bottom + 1) * cell_size) as i64,
        twice_center_x: ((r.left + r.right + 1) * cell_size) as i64,
        twice_center_y: ((r.bottom + r.top + 1) * cell_size) as i64,
    }
}

/// The solids of a sequence of rectangles, in the same order.
pub open spec fn solids_of(rects: Seq<Rect>, cell_size: int) -> Seq<Solid> {
    Seq::new(rects.len(), |i: int| solid_of(rects[i], cell_size))
}

/// The grid that a layer and a list of wall cells describe.
pub open spec fn level_grid(walls: Seq<(i32, i32)>, layer: LayerInfo) -> GridView {
    GridView {
        width: layer.c_wid as int,
        height: layer.c_hei as int,
        cells: cells_of(walls, layer.c_wid as int, layer.c_hei as int),
    }
}

/// `solids` are the solids of the grid: those of its compaction, each
/// rectangle extended at its edges, in the order of the compaction.
pub open spec fn is_wall_collision(g: GridView, cell_size: int, solids: Seq<Solid>) -> bool {
    exists|rects: Seq<Rect>| #[trigger]
        is_compaction(g, rects) && solids == solids_of(extended_all(g, rects), cell_size)
}

/// A grid and a cell size have one list of solids only: generating the
/// solids again from an unchanged grid gives the identical list.
pub proof fn lemma_wall_collision_unique(
    g: GridView,
    cell_size: int,
    a: Seq<Solid>,
    b: Seq<Solid>,
)
    requires
        is_wall_collision(g, cell_size, a),
        is_wall_collision(g, cell_size, b),
    ensures
        a == b,
{
    let ra = choose|rects: Seq<Rect>| #[trigger]
        is_compaction(g, rects) && a == solids_of(extended_all(g, rects), cell_size);
    let rb = choose|rects: Seq<Rect>| #[trigger]
        is_compaction(g, rects) && b == solids_of(extended_all(g, rects), cell_size);
    lemma_compaction_unique(g, ra, rb);
}

proof fn lemma_product_fits(span: int, cell: int)
    requires
        -0xffff_ffff <= span <= 0x1_0000_0000,
        -0x8000_0000 <= cell <= 0x7fff_ffff,
    ensures
        -0x8000_0000_0000_0000 <= span * cell <= 0x7fff_ffff_ffff_ffff,
{
    assert(-0x8000_0000_0000_0000 <= span * cell <= 0x7fff_ffff_ffff_ffff) by (nonlinear_arith)
        requires
            -0xffff_ffff <= span <= 0x1_0000_0000,
            -0x8000_0000 <= cell <= 0x7fff_ffff,
    ;
}

fn scaled(span: i64, cell_size: i32) -> (v: i64)
    requires
        -0xffff_ffff <= span <= 0x1_0000_0000,
    ensures
        v == span * cell_size,
{
    proof {
        lemma_product_fits(span as int, cell_size as int);
    }
    span * (cell_size as i64)
}

/// Computes the solid of one rectangle for the given cell size.
pub fn emit_solid(rect: Rect, cell_size: i32) -> (s: Solid)
    ensures
        s == solid_of(rect, cell_size as int),
        s.extent_x == (rect.right - rect.left + 1) * cell_size,
        s.extent_y == (rect.top - rect.bottom + 1) * cell_size,
        s.twice_center_x == (rect.left + rect.right + 1) * cell_size,
        s.twice_center_y == (rect.bottom + rect.top + 1) * cell_size,
{
    proof {
        lemma_product_fits(rect.right - rect.left + 1, cell_size as int);
        lemma_product_fits(rect.top - rect.bottom + 1, cell_size as int);
        lemma_product_fits(rect.left + rect.right + 1, cell_size as int);
        lemma_product_fits(rect.bottom + rect.top + 1, cell_size as int);
    }
    Solid {
        extent_x: scaled(rect.right as i64 - rect.left as i64 + 1, cell_size),
        extent_y: scaled(rect.top as i64 - rect.bottom as i64 + 1, cell_size),
        twice_center_x: scaled(rect.left as i64 + rect.right as i64 + 1, cell_size),
        twice_center_y: scaled(rect.bottom as i64 + rect.top as i64 + 1, cell_size),
    }
}

/// Computes the solid of every rectangle, in order.
pub fn emit_solids(rects: &Vec<Rect>, cell_size: i32) -> (out: Vec<Solid>)
    ensures
        out@ == solids_of(rects@, cell_size as int),
{
    let mut out: Vec<Solid> = Vec::new();
    let mut i: usize = 0;
    while i < rects.len()
        invariant
            i <= rects.len(),
            out.len() == i,
            forall|k: int| 0 <= k < i ==> out[k] == solid_of(#[trigger] rects[k], cell_size as int),
        decreases rects.len() - i,
    {
        let s = emit_solid(rects[i], cell_size);
        out.push(s);
        i += 1;
    }
    assert(out@ =~= solids_of(rects@, cell_size as int));
    out
}

/// The solids of a grid: compaction, edge extension and emission in turn.
pub fn wall_solids(grid: &Grid, cell_size: i32) -> (out: Vec<Solid>)
    ensures
        is_wall_collision(grid@, cell_size as int, out@),
{
    let rects = compact(grid);
    let grown = extend_edges(grid, &rects);
    let out = emit_solids(&grown, cell_size);
    assert(is_compaction(grid@, rects@));
    out
}

/// Generates the wall solids of a level from the wall cells that were added
/// since the last run.
///
/// Nothing is generated, and nothing is wrong, when no wall cell was added
/// or when the layer's data is not available yet: the caller tries again on
/// a later pass. Otherwise the cells inside the layer are indexed and the
/// solids of that grid are returned.
pub fn spawn_wall_collision(walls: &Vec<(i32, i32)>, layer: Option<LayerInfo>) -> (out: Option<
    Vec<Solid>,
>)
    ensures
        out.is_none() <==> (walls.len() == 0 || layer.is_none()),
        out matches Some(solids) ==> layer matches Some(info) && is_wall_collision(
            level_grid(walls@, info),
            info.grid_size as int,
            solids@,
        ),
{
    if walls.len() == 0 {
        return None;
    }
    match layer {
        None => None,
        Some(info) => {
            let grid = Grid::from_cells(info.c_wid, info.c_hei, walls);
            assert(grid@ == level_grid(walls@, info));
            Some(wall_solids(&grid, info.grid_size))
        },
    }
}

} // verus!
