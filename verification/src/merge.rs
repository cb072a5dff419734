//! The rectangle merger: stacks identical plates of consecutive rows into
//! rectangles, horizontally first and vertically second.

use crate::plate::row_ordered;
use crate::plate::rows_view;
use crate::plate::Plate;
use crate::rect::Rect;
use std::collections::HashMap;
use vstd::prelude::*;

verus! {

broadcast use vstd::std_specs::hash::group_hash_axioms;

/// Row `y` exists and lists the plate `p`.
pub open spec fn in_row(rows: Seq<Seq<Plate>>, y: int, p: Plate) -> bool {
    0 <= y < rows.len() && rows[y].contains(p)
}

/// `r` is a maximal vertical run: its plate stands in every row from
/// `bottom` to `top`, and in neither the row below nor the row above.
pub open spec fn is_run(rows: Seq<Seq<Plate>>, r: Rect) -> bool {
    &&& 0 <= r.bottom <= r.top < rows.len()
    &&& forall|y: int| r.bottom <= y <= r.top ==> #[trigger] in_row(rows, y, r.plate())
    &&& !in_row(rows, r.bottom - 1, r.plate())
    &&& !in_row(rows, r.top + 1, r.plate())
}

/// The order in which rectangles are finalized: by the row in which they
/// end, and within that row from left to right.
pub open spec fn emitted_before(a: Rect, b: Rect) -> bool {
    a.top < b.top || (a.top == b.top && a.left < b.left)
}

/// Every rectangle of the sequence is finalized before the ones behind it.
pub open spec fn emission_ordered(out: Seq<Rect>) -> bool {
    forall|i: int, j: int| 0 <= i < j < out.len() ==> emitted_before(out[i], out[j])
}

/// `out` is the merge of `rows`: exactly the maximal runs, in emission order.
pub open spec fn is_merge(rows: Seq<Seq<Plate>>, out: Seq<Rect>) -> bool {
    &&& forall|i: int| 0 <= i < out.len() ==> is_run(rows, #[trigger] out[i])
    &&& forall|r: Rect| #[trigger] is_run(rows, r) ==> out.contains(r)
    &&& emission_ordered(out)
}

/// `r` is a run still in progress when row `y` is about to be read: it
/// ends in row `y - 1` and cannot be extended downwards.
spec fn is_open_run(rows: Seq<Seq<Plate>>, r: Rect, y: int) -> bool {
    &&& r.top + 1 == y
    &&& 0 <= r.bottom <= r.top
    &&& forall|k: int| r.bottom <= k <= r.top ==> #[trigger] in_row(rows, k, r.plate())
    &&& !in_row(rows, r.bottom - 1, r.plate())
}

/// The rectangle `r` carried one row further up.
spec fn grown(r: Rect) -> Rect {
    Rect { left: r.left, right: r.right, bottom: r.bottom, top: (r.top + 1) as i32 }
}

/// The one-row rectangle that the plate `p` starts in row `y`.
spec fn fresh(p: Plate, y: int) -> Rect {
    Rect { left: p.left, right: p.right, bottom: y as i32, top: y as i32 }
}

/// The integer under which the rectangle in progress of a plate is kept:
/// both bounds, each moved into the non-negative range, side by side.
pub closed spec fn plate_key(p: Plate) -> u64 {
    ((p.left - i32::MIN) * 0x1_0000_0000 + (p.right - i32::MIN)) as u64
}

/// Different plates have different keys.
proof fn lemma_key_injective(p: Plate, q: Plate)
    requires
        plate_key(p) == plate_key(q),
    ensures
        p == q,
{
}

fn key_of(p: Plate) -> (k: u64)
    ensures
        k == plate_key(p),
{
    let left = (p.left as i64 - i32::MIN as i64) as u64;
    let right = (p.right as i64 - i32::MIN as i64) as u64;
    left * 0x1_0000_0000 + right
}

/// Some plate of `row` that is absent from `cur` has the key `k`.
spec fn dropped(row: Seq<Plate>, cur: Seq<Plate>, k: u64, upto: int) -> bool {
    exists|i: int| 0 <= i < upto && !cur.contains(#[trigger] row[i]) && plate_key(row[i]) == k
}

/// Some plate of `row` has the key `k`.
spec fn keyed(row: Seq<Plate>, k: u64, upto: int) -> bool {
    exists|i: int| 0 <= i < upto && plate_key(#[trigger] row[i]) == k
}

/// The map holds exactly the runs in progress of the plates of `prev`, each
/// under the key of its plate.
spec fn holds_open_runs(
    open: Map<u64, Rect>,
    prev: Seq<Plate>,
    rows: Seq<Seq<Plate>>,
    y: int,
) -> bool {
    &&& forall|k: u64| #[trigger] open.contains_key(k) ==> keyed(prev, k, prev.len() as int)
    &&& forall|i: int|
        0 <= i < prev.len() ==> {
            let k = plate_key(#[trigger] prev[i]);
            &&& open.contains_key(k)
            &&& open[k].plate() == prev[i]
            &&& is_open_run(rows, open[k], y)
        }
}

fn row_has(row: &Vec<Plate>, p: Plate) -> (found: bool)
    ensures
        found == row@.contains(p),
{
    let mut i: usize = 0;
    while i < row.len()
        invariant
            i <= row.len(),
            forall|k: int| 0 <= k < i ==> row[k] != p,
        decreases row.len() - i,
    {
        if row[i].left == p.left && row[i].right == p.right {
            return true;
        }
        i += 1;
    }
    false
}

/// Takes out of `open`, and appends to `done` in the order of `prev`, the
/// rectangle of every plate of `prev` that is absent from `cur`. The result
/// tells which positions of `prev` were taken.
fn close_finished(
    prev: &Vec<Plate>,
    cur: &Vec<Plate>,
    open: &mut HashMap<u64, Rect>,
    done: &mut Vec<Rect>,
) -> (picked: Ghost<Seq<int>>)
    requires
        row_ordered(prev@),
        forall|i: int| 0 <= i < prev.len() ==> old(open)@.contains_key(plate_key(#[trigger] prev[i])),
    ensures
        final(done)@.len() == old(done)@.len() + picked@.len(),
        forall|k: int| 0 <= k < old(done)@.len() ==> final(done)@[k] == old(done)@[k],
        forall|k: int|
            0 <= k < picked@.len() ==> 0 <= #[trigger] picked@[k] < prev.len()
                && final(done)@[old(done)@.len() + k] == old(open)@[plate_key(prev[picked@[k]])]
                && !cur@.contains(prev[picked@[k]]),
        forall|k: int, l: int| 0 <= k < l < picked@.len() ==> picked@[k] < picked@[l],
        forall|i: int|
            0 <= i < prev.len() && !cur@.contains(#[trigger] prev[i]) ==> picked@.contains(i),
        forall|k: u64|
            #[trigger] final(open)@.contains_key(k) == (old(open)@.contains_key(k) && !dropped(
                prev@,
                cur@,
                k,
                prev.len() as int,
            )),
        forall|k: u64| #[trigger] final(open)@.contains_key(k) ==> final(open)@[k] == old(open)@[k],
{
    let ghost mut picked: Seq<int> = Seq::empty();
    let ghost start = done@;
    let ghost before_open = open@;
    let mut i: usize = 0;
    while i < prev.len()
        invariant
            i <= prev.len(),
            row_ordered(prev@),
            forall|j: int|
                0 <= j < prev.len() ==> before_open.contains_key(plate_key(#[trigger] prev[j])),
            done@.len() == start.len() + picked.len(),
            forall|k: int| 0 <= k < start.len() ==> done@[k] == start[k],
            forall|k: int|
                0 <= k < picked.len() ==> 0 <= #[trigger] picked[k] < i && done@[start.len() + k]
                    == before_open[plate_key(prev[picked[k]])] && !cur@.contains(prev[picked[k]]),
            forall|k: int, l: int| 0 <= k < l < picked.len() ==> picked[k] < picked[l],
            forall|j: int|
                0 <= j < i && !cur@.contains(#[trigger] prev[j]) ==> picked.contains(j),
            forall|k: u64|
                #[trigger] open@.contains_key(k) == (before_open.contains_key(k) && !dropped(
                    prev@,
                    cur@,
                    k,
                    i as int,
                )),
            forall|k: u64| #[trigger] open@.contains_key(k) ==> open@[k] == before_open[k],
        decreases prev.len() - i,
    {
        let plate = prev[i];
        let stays = row_has(cur, plate);
        if !stays {
            let key = key_of(plate);
            proof {
                // No plate before this one has the same key, so the rectangle is still there.
                if dropped(prev@, cur@, key, i as int) {
                    let j = choose|j: int|
                        0 <= j < i && !cur@.contains(#[trigger] prev@[j]) && plate_key(prev@[j])
                            == key;
                    lemma_key_injective(prev@[j], plate);
                    assert(prev@[j].right < prev@[i as int].left);
                }
                assert(open@.contains_key(key));
            }
            let taken = open.remove(&key);
            if let Some(rect) = taken {
                let ghost before = picked;
                done.push(rect);
                proof {
                    picked = picked.push(i as int);
                    assert(picked[before.len() as int] == i);
                    assert forall|j: int|
                        0 <= j < i + 1 && !cur@.contains(#[trigger] prev[j]) implies picked.contains(
                        j,
                    ) by {
                        if j < i {
                            let k = choose|k: int| 0 <= k < before.len() && before[k] == j;
                            assert(picked[k] == j);
                        }
                    }
                }
            }
            proof {
                assert forall|k: u64|
                    #[trigger] open@.contains_key(k) == (before_open.contains_key(k) && !dropped(
                        prev@,
                        cur@,
                        k,
                        i + 1,
                    )) by {
                    if dropped(prev@, cur@, k, i + 1) {
                        let j = choose|j: int|
                            0 <= j < i + 1 && !cur@.contains(#[trigger] prev@[j]) && plate_key(
                                prev@[j],
                            ) == k;
                        if j < i {
                            assert(dropped(prev@, cur@, k, i as int));
                        }
                    }
                    if dropped(prev@, cur@, k, i as int) {
                        let j = choose|j: int|
                            0 <= j < i && !cur@.contains(#[trigger] prev@[j]) && plate_key(
                                prev@[j],
                            ) == k;
                        assert(dropped(prev@, cur@, k, i + 1));
                    }
                    if k == key {
                        assert(!cur@.contains(prev@[i as int]));
                        assert(dropped(prev@, cur@, k, i + 1));
                    }
                }
            }
        } else {
            proof {
                assert forall|k: u64|
                    dropped(prev@, cur@, k, i + 1) == dropped(prev@, cur@, k, i as int) by {
                    if dropped(prev@, cur@, k, i + 1) {
                        let j = choose|j: int|
                            0 <= j < i + 1 && !cur@.contains(#[trigger] prev@[j]) && plate_key(
                                prev@[j],
                            ) == k;
                        assert(j < i);
                    }
                    if dropped(prev@, cur@, k, i as int) {
                        let j = choose|j: int|
                            0 <= j < i && !cur@.contains(#[trigger] prev@[j]) && plate_key(
                                prev@[j],
                            ) == k;
                        assert(dropped(prev@, cur@, k, i + 1));
                    }
                }
            }
        }
        i += 1;
    }
    Ghost(picked)
}

/// Brings `open` up to the row `cur`, which is row `y`: the rectangle of a
/// plate that is in progress grows by a row, and every other plate of the
/// row starts a rectangle of its own.
fn carry_forward(cur: &Vec<Plate>, open: &mut HashMap<u64, Rect>, y: i32)
    requires
        row_ordered(cur@),
        forall|k: u64| #[trigger] old(open)@.contains_key(k) ==> old(open)@[k].top < i32::MAX,
    ensures
        forall|k: u64|
            #[trigger] final(open)@.contains_key(k) == (old(open)@.contains_key(k) || keyed(
                cur@,
                k,
                cur.len() as int,
            )),
        forall|j: int|
            0 <= j < cur.len() ==> {
                let k = plate_key(#[trigger] cur[j]);
                final(open)@[k] == (if old(open)@.contains_key(k) {
                    grown(old(open)@[k])
                } else {
                    fresh(cur[j], y as int)
                })
            },
        forall|k: u64|
            #[trigger] old(open)@.contains_key(k) && !keyed(cur@, k, cur.len() as int)
                ==> final(open)@[k] == old(open)@[k],
{
    let ghost before = open@;
    let mut j: usize = 0;
    while j < cur.len()
        invariant
            j <= cur.len(),
            row_ordered(cur@),
            forall|k: u64| #[trigger] before.contains_key(k) ==> before[k].top < i32::MAX,
            forall|k: u64|
                #[trigger] open@.contains_key(k) == (before.contains_key(k) || keyed(
                    cur@,
                    k,
                    j as int,
                )),
            forall|m: int|
                0 <= m < j ==> {
                    let k = plate_key(#[trigger] cur[m]);
                    open@[k] == (if before.contains_key(k) {
                        grown(before[k])
                    } else {
                        fresh(cur[m], y as int)
                    })
                },
            forall|k: u64|
                #[trigger] before.contains_key(k) && !keyed(cur@, k, j as int) ==> open@[k]
                    == before[k],
        decreases cur.len() - j,
    {
        let plate = cur[j];
        let key = key_of(plate);
        proof {
            // No plate before this one has the same key.
            if keyed(cur@, key, j as int) {
                let m = choose|m: int| 0 <= m < j && plate_key(#[trigger] cur@[m]) == key;
                lemma_key_injective(cur@[m], plate);
                assert(cur@[m].right < cur@[j as int].left);
            }
        }
        let next = match open.get(&key) {
            Some(rect) => Rect {
                left: rect.left,
                right: rect.right,
                bottom: rect.bottom,
                top: rect.top + 1,
            },
            None => Rect { left: plate.left, right: plate.right, bottom: y, top: y },
        };
        open.insert(key, next);
        proof {
            assert forall|k: u64|
                #[trigger] open@.contains_key(k) == (before.contains_key(k) || keyed(
                    cur@,
                    k,
                    j + 1,
                )) by {
                if keyed(cur@, k, j + 1) {
                    let m = choose|m: int| 0 <= m < j + 1 && plate_key(#[trigger] cur@[m]) == k;
                    if m < j {
                        assert(keyed(cur@, k, j as int));
                    }
                }
                if keyed(cur@, k, j as int) {
                    let m = choose|m: int| 0 <= m < j && plate_key(#[trigger] cur@[m]) == k;
                    assert(keyed(cur@, k, j + 1));
                }
                if k == key {
                    assert(plate_key(cur@[j as int]) == k);
                    assert(keyed(cur@, k, j + 1));
                }
            }
            assert forall|m: int| 0 <= m < j + 1 implies {
                let k = plate_key(#[trigger] cur[m]);
                open@[k] == (if before.contains_key(k) {
                    grown(before[k])
                } else {
                    fresh(cur[m], y as int)
                })
            } by {
                if m < j {
                    if plate_key(cur@[m]) == key {
                        lemma_key_injective(cur@[m], plate);
                        assert(cur@[m].right < cur@[j as int].left);
                    }
                }
            }
            assert forall|k: u64|
                #[trigger] before.contains_key(k) && !keyed(cur@, k, j + 1) implies open@[k]
                    == before[k] by {
                if keyed(cur@, k, j as int) {
                    let m = choose|m: int| 0 <= m < j && plate_key(#[trigger] cur@[m]) == k;
                    assert(keyed(cur@, k, j + 1));
                }
                if k == key {
                    assert(plate_key(cur@[j as int]) == k);
                    assert(keyed(cur@, k, j + 1));
                }
            }
        }
        j += 1;
    }
}

/// Merges the plate lists of consecutive rows (row 0 first) into rectangles.
///
/// The rectangles in progress are kept in a map under the key of their
/// plate. A rectangle grows for as long as the same plate stands in the next
/// row and is finalized as soon as it does not; the row past the last one
/// counts as empty, so every rectangle is finalized. The result lists each
/// maximal run of identical plates exactly once, in the order of
/// finalization.
pub fn merge_rows(rows: &Vec<Vec<Plate>>) -> (out: Vec<Rect>)
    requires
        rows.len() <= i32::MAX,
        forall|y: int| 0 <= y < rows.len() ==> row_ordered((#[trigger] rows[y])@),
    ensures
        is_merge(rows_view(rows@), out@),
{
    let ghost rs = rows_view(rows@);
    let n = rows.len();
    let empty: Vec<Plate> = Vec::new();
    let mut rect_builder: HashMap<u64, Rect> = HashMap::new();
    let mut wall_rects: Vec<Rect> = Vec::new();
    let mut y: usize = 0;
    while y <= n
        invariant
            n == rows.len(),
            n <= i32::MAX,
            rs == rows_view(rows@),
            empty@.len() == 0,
            forall|r: int| 0 <= r < rows.len() ==> row_ordered((#[trigger] rows[r])@),
            y <= n + 1,
            holds_open_runs(
                rect_builder@,
                if 1 <= y <= n {
                    rs[y - 1]
                } else {
                    Seq::<Plate>::empty()
                },
                rs,
                y as int,
            ),
            forall|i: int|
                0 <= i < wall_rects.len() ==> is_run(rs, #[trigger] wall_rects[i])
                    && wall_rects[i].top + 1 < y,
            forall|r: Rect| #[trigger] is_run(rs, r) && r.top + 1 < y ==> wall_rects@.contains(r),
            emission_ordered(wall_rects@),
        decreases n + 1 - y,
    {
        let prev_row: &Vec<Plate> = if 1 <= y {
            &rows[y - 1]
        } else {
            &empty
        };
        let current_row: &Vec<Plate> = if y < n {
            &rows[y]
        } else {
            &empty
        };
        let ghost prev = prev_row@;
        let ghost cur = current_row@;
        let ghost before = wall_rects@;
        let ghost open0 = rect_builder@;
        assert(prev == (if 1 <= y <= n {
            rs[y - 1]
        } else {
            Seq::<Plate>::empty()
        }));
        assert(y < n ==> cur == rs[y as int]);
        assert(row_ordered(prev));
        assert(row_ordered(cur));
        let picked = close_finished(prev_row, current_row, &mut rect_builder, &mut wall_rects);
        let ghost open1 = rect_builder@;
        proof {
            assert forall|k: u64| #[trigger] open1.contains_key(k) implies open1[k].top
                < i32::MAX by {
                assert(open0.contains_key(k));
                assert(keyed(prev, k, prev.len() as int));
                let i = choose|i: int| 0 <= i < prev.len() && plate_key(#[trigger] prev[i]) == k;
                assert(is_open_run(rs, open0[plate_key(prev[i])], y as int));
            }
        }
        carry_forward(current_row, &mut rect_builder, y as i32);
        let ghost open2 = rect_builder@;
        proof {
            let picked = picked@;
            // What was closed in this step is a maximal run ending in row y - 1.
            assert forall|i: int| 0 <= i < wall_rects.len() implies is_run(
                rs,
                #[trigger] wall_rects[i],
            ) && wall_rects[i].top + 1 < y + 1 by {
                if i >= before.len() {
                    let p = prev[picked[i - before.len()]];
                    let r = open0[plate_key(p)];
                    assert(wall_rects[i] == r);
                    assert(is_open_run(rs, r, y as int));
                    assert(in_row(rs, r.top as int, r.plate()));
                } else {
                    assert(wall_rects[i] == before[i]);
                }
            }
            // Emission order is kept.
            assert forall|i: int, j: int| 0 <= i < j < wall_rects.len() implies emitted_before(
                wall_rects[i],
                wall_rects[j],
            ) by {
                if j < before.len() {
                    assert(wall_rects[i] == before[i] && wall_rects[j] == before[j]);
                } else if i < before.len() {
                    assert(wall_rects[i] == before[i]);
                    let p = prev[picked[j - before.len()]];
                    assert(is_open_run(rs, open0[plate_key(p)], y as int));
                } else {
                    let a = picked[i - before.len()];
                    let b = picked[j - before.len()];
                    assert(is_open_run(rs, open0[plate_key(prev[a])], y as int));
                    assert(is_open_run(rs, open0[plate_key(prev[b])], y as int));
                    assert(open0[plate_key(prev[a])].plate() == prev[a]);
                    assert(open0[plate_key(prev[b])].plate() == prev[b]);
                    assert(prev[a].wf());
                    assert(prev[a].right < prev[b].left);
                }
            }
            // Every maximal run that ends before row y has been emitted.
            assert forall|r: Rect| #[trigger] is_run(rs, r) && r.top + 1 < y + 1 implies wall_rects@.contains(
                r,
            ) by {
                if r.top + 1 < y {
                    let i = choose|i: int| 0 <= i < before.len() && before[i] == r;
                    assert(wall_rects[i] == r);
                } else {
                    assert(in_row(rs, r.top as int, r.plate()));
                    let i = choose|i: int| 0 <= i < prev.len() && prev[i] == r.plate();
                    assert(!in_row(rs, y as int, r.plate()));
                    assert(!cur.contains(prev[i]));
                    let k = choose|k: int| 0 <= k < picked.len() && picked[k] == i;
                    let o = open0[plate_key(prev[i])];
                    assert(wall_rects[before.len() + k] == o);
                    assert(is_open_run(rs, o, y as int));
                    assert(o.plate() == r.plate());
                    if o.bottom < r.bottom {
                        assert(in_row(rs, r.bottom - 1, o.plate()));
                    }
                    if r.bottom < o.bottom {
                        assert(in_row(rs, o.bottom - 1, r.plate()));
                    }
                    assert(o == r);
                }
            }
            // The map now holds the runs in progress after row y.
            assert forall|k: u64| #[trigger] open2.contains_key(k) implies keyed(
                cur,
                k,
                cur.len() as int,
            ) by {
                if !keyed(cur, k, cur.len() as int) {
                    assert(open1.contains_key(k));
                    assert(open0.contains_key(k));
                    assert(keyed(prev, k, prev.len() as int));
                    let i = choose|i: int| 0 <= i < prev.len() && plate_key(#[trigger] prev[i]) == k;
                    assert(!dropped(prev, cur, k, prev.len() as int));
                    if !cur.contains(prev[i]) {
                        assert(dropped(prev, cur, k, prev.len() as int));
                    }
                    let j = choose|j: int| 0 <= j < cur.len() && cur[j] == prev[i];
                    assert(plate_key(cur[j]) == k);
                }
            }
            assert forall|j: int| 0 <= j < cur.len() implies {
                let k = plate_key(#[trigger] cur[j]);
                &&& open2.contains_key(k)
                &&& open2[k].plate() == cur[j]
                &&& is_open_run(rs, open2[k], y + 1)
            } by {
                let p = cur[j];
                let k = plate_key(p);
                assert(keyed(cur, k, cur.len() as int));
                assert(cur.contains(p));
                assert(in_row(rs, y as int, p));
                if open1.contains_key(k) {
                    assert(open0.contains_key(k));
                    assert(keyed(prev, k, prev.len() as int));
                    let i = choose|i: int| 0 <= i < prev.len() && plate_key(#[trigger] prev[i]) == k;
                    lemma_key_injective(prev[i], p);
                    let o = open0[plate_key(prev[i])];
                    assert(open1[k] == o);
                    assert(is_open_run(rs, o, y as int));
                    assert(o.plate() == p);
                    assert forall|row: int| o.bottom <= row <= y implies #[trigger] in_row(
                        rs,
                        row,
                        p,
                    ) by {}
                } else {
                    if y >= 1 && in_row(rs, y - 1, p) {
                        let i = choose|i: int| 0 <= i < prev.len() && prev[i] == p;
                        assert(open0.contains_key(plate_key(prev[i])));
                        assert(!dropped(prev, cur, k, prev.len() as int)) by {
                            if dropped(prev, cur, k, prev.len() as int) {
                                let d = choose|d: int|
                                    0 <= d < prev.len() && !cur.contains(#[trigger] prev[d])
                                        && plate_key(prev[d]) == k;
                                lemma_key_injective(prev[d], p);
                            }
                        }
                        assert(open1.contains_key(k));
                    }
                }
            }
        }
        y += 1;
    }
    wall_rects
}

} // verus!
