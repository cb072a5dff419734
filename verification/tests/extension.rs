use platformer_core::collider::emit_solid;
use platformer_core::collider::emit_solids;
use platformer_core::collider::spawn_wall_collision;
use platformer_core::collider::wall_solids;
use platformer_core::collider::LayerInfo;
use platformer_core::collider::Solid;
use platformer_core::compaction::compact;
use platformer_core::extend::extend_edges;
use platformer_core::extend::extend_rect;
use platformer_core::grid::Grid;
use platformer_core::rect::Rect;

fn rows_to_cells(rows: &[&str]) -> Vec<(i32, i32)> {
    let mut cells = Vec::new();
    for (y, row) in rows.iter().enumerate() {
        for (x, c) in row.chars().enumerate() {
            if c == '#' {
                cells.push((x as i32, y as i32));
            }
        }
    }
    cells
}

fn grid_from_rows(rows: &[&str]) -> Grid {
    Grid::from_cells(rows[0].len() as i32, rows.len() as i32, &rows_to_cells(rows))
}

#[test]
fn lower_rectangle_grows_down_and_upper_grows_up() {
    let grid = grid_from_rows(&["#####", ".###.", ".....", ".###.", "#####"]);
    let rects = compact(&grid);
    assert_eq!(
        rects,
        vec![
            Rect { left: 0, right: 4, top: 0, bottom: 0 },
            Rect { left: 1, right: 3, top: 1, bottom: 1 },
            Rect { left: 1, right: 3, top: 3, bottom: 3 },
            Rect { left: 0, right: 4, top: 4, bottom: 4 },
        ]
    );
    let grown = extend_edges(&grid, &rects);
    let (lower, upper) = (grown[1], grown[2]);
    assert_eq!(lower, Rect { left: 1, right: 3, top: 1, bottom: 0 });
    assert_eq!(upper, Rect { left: 1, right: 3, top: 4, bottom: 3 });
    assert_eq!(lower.bottom, rects[1].bottom - 1);
    assert_eq!(upper.top, rects[2].top + 1);
    assert!(!lower.intersects(&upper));
    assert_eq!(grown[0], rects[0]);
    assert_eq!(grown[3], rects[3]);
}

#[test]
fn seam_through_an_occupied_gap_row_is_closed_from_both_sides() {
    let grid = grid_from_rows(&[".###.", "#####", ".###."]);
    let rects = compact(&grid);
    assert_eq!(
        rects,
        vec![
            Rect { left: 1, right: 3, top: 0, bottom: 0 },
            Rect { left: 0, right: 4, top: 1, bottom: 1 },
            Rect { left: 1, right: 3, top: 2, bottom: 2 },
        ]
    );
    let grown = extend_edges(&grid, &rects);
    assert_eq!(
        grown,
        vec![
            Rect { left: 1, right: 3, top: 1, bottom: 0 },
            Rect { left: 0, right: 4, top: 1, bottom: 1 },
            Rect { left: 1, right: 3, top: 2, bottom: 1 },
        ]
    );
}

#[test]
fn extension_is_one_row_only() {
    let grid = grid_from_rows(&["#####", "#####", ".###."]);
    let rects = compact(&grid);
    assert_eq!(
        rects,
        vec![
            Rect { left: 0, right: 4, top: 1, bottom: 0 },
            Rect { left: 1, right: 3, top: 2, bottom: 2 },
        ]
    );
    assert_eq!(
        extend_edges(&grid, &rects),
        vec![
            Rect { left: 0, right: 4, top: 1, bottom: 0 },
            Rect { left: 1, right: 3, top: 2, bottom: 1 },
        ]
    );
}

#[test]
fn extension_needs_the_whole_row() {
    let grid = grid_from_rows(&["##.", "###"]);
    let rect = Rect { left: 0, right: 2, top: 1, bottom: 1 };
    assert_eq!(extend_rect(&grid, rect), rect);
    let narrow = Rect { left: 0, right: 1, top: 0, bottom: 0 };
    assert_eq!(extend_rect(&grid, narrow), Rect { left: 0, right: 1, top: 1, bottom: 0 });
}

#[test]
fn extension_reads_the_grid_and_not_other_rectangles() {
    let grid = grid_from_rows(&["#", "#", "#"]);
    let middle = Rect { left: 0, right: 0, top: 1, bottom: 1 };
    let alone = extend_edges(&grid, &vec![middle]);
    let among = extend_edges(
        &grid,
        &vec![Rect { left: 0, right: 0, top: 0, bottom: 0 }, middle],
    );
    assert_eq!(alone[0], Rect { left: 0, right: 0, top: 2, bottom: 0 });
    assert_eq!(among[1], alone[0]);
}

#[test]
fn extension_stops_at_the_grid_border() {
    let grid = grid_from_rows(&["##"]);
    let rect = Rect { left: 0, right: 1, top: 0, bottom: 0 };
    assert_eq!(extend_rect(&grid, rect), rect);
    let far = Rect { left: 0, right: 0, top: i32::MAX, bottom: i32::MIN };
    assert_eq!(extend_rect(&grid, far), far);
}

#[test]
fn extended_rectangles_still_cover_exactly_the_walls() {
    let rows = ["#####", ".###.", "..#..", ".###.", "#####", "#...#"];
    let grid = grid_from_rows(&rows);
    let cells = rows_to_cells(&rows);
    let grown = extend_edges(&grid, &compact(&grid));
    for y in -1..7 {
        for x in -1..6 {
            let covered = grown.iter().any(|r| r.contains(x, y));
            assert_eq!(covered, cells.contains(&(x, y)), "cell ({x}, {y})");
        }
    }
}

#[test]
fn solid_has_the_span_of_its_rectangle() {
    let solid = emit_solid(Rect { left: 0, right: 2, top: 1, bottom: 0 }, 16);
    assert_eq!(
        solid,
        Solid { extent_x: 48, extent_y: 32, twice_center_x: 48, twice_center_y: 32 }
    );
    let single = emit_solid(Rect { left: 3, right: 3, top: 5, bottom: 5 }, 16);
    assert_eq!(
        single,
        Solid { extent_x: 16, extent_y: 16, twice_center_x: 112, twice_center_y: 176 }
    );
    let odd = emit_solid(Rect { left: 1, right: 2, top: 0, bottom: 0 }, 7);
    assert_eq!(odd, Solid { extent_x: 14, extent_y: 7, twice_center_x: 28, twice_center_y: 7 });
}

#[test]
fn solid_of_extreme_rectangle_does_not_overflow() {
    let r = Rect { left: i32::MIN, right: i32::MAX, top: i32::MAX, bottom: i32::MIN };
    let s = emit_solid(r, i32::MIN);
    assert_eq!(s.extent_x, i64::MIN);
    assert_eq!(s.extent_y, i64::MIN);
    assert_eq!(s.twice_center_x, 0);
    assert_eq!(s.twice_center_y, 0);
    let t = emit_solid(Rect { left: i32::MIN, right: i32::MIN, top: 0, bottom: 0 }, i32::MIN);
    assert_eq!(t.twice_center_x, (2 * (i32::MIN as i64) + 1) * (i32::MIN as i64));
}

#[test]
fn solids_keep_the_order_of_the_rectangles() {
    let rects = vec![
        Rect { left: 0, right: 0, top: 0, bottom: 0 },
        Rect { left: 1, right: 3, top: 2, bottom: 1 },
    ];
    assert_eq!(
        emit_solids(&rects, 10),
        vec![
            Solid { extent_x: 10, extent_y: 10, twice_center_x: 10, twice_center_y: 10 },
            Solid { extent_x: 30, extent_y: 20, twice_center_x: 50, twice_center_y: 40 },
        ]
    );
    assert_eq!(emit_solids(&vec![], 10), vec![]);
}

#[test]
fn wall_solids_of_an_l_shape() {
    let grid = grid_from_rows(&["###", "#.."]);
    assert_eq!(
        wall_solids(&grid, 16),
        vec![
            Solid { extent_x: 48, extent_y: 16, twice_center_x: 48, twice_center_y: 16 },
            Solid { extent_x: 16, extent_y: 32, twice_center_x: 16, twice_center_y: 32 },
        ]
    );
}

#[test]
fn spawn_wall_collision_waits_for_walls_and_layer() {
    let layer = LayerInfo { c_wid: 3, c_hei: 2, grid_size: 16 };
    assert_eq!(spawn_wall_collision(&vec![], Some(layer)), None);
    assert_eq!(spawn_wall_collision(&vec![(0, 0)], None), None);
    assert_eq!(spawn_wall_collision(&vec![], None), None);
}

#[test]
fn spawn_wall_collision_runs_the_whole_pipeline() {
    let layer = LayerInfo { c_wid: 3, c_hei: 2, grid_size: 16 };
    let walls = vec![(0, 0), (1, 0), (2, 0), (0, 1)];
    let solids = spawn_wall_collision(&walls, Some(layer));
    assert_eq!(
        solids,
        Some(vec![
            Solid { extent_x: 48, extent_y: 16, twice_center_x: 48, twice_center_y: 16 },
            Solid { extent_x: 16, extent_y: 32, twice_center_x: 16, twice_center_y: 32 },
        ])
    );
    assert_eq!(spawn_wall_collision(&walls, Some(layer)), solids);
}

#[test]
fn spawn_wall_collision_outside_the_layer_gives_no_solid() {
    let layer = LayerInfo { c_wid: 2, c_hei: 2, grid_size: 16 };
    assert_eq!(spawn_wall_collision(&vec![(5, 5)], Some(layer)), Some(vec![]));
}
