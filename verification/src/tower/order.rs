//! What a placement does to each tower, and why the order of two
//! placements does not matter to the two towers placed.

use vstd::prelude::*;
use crate::grid::Cell;
use crate::tower::{
    board_after_placement, board_ok, events_for, incoming_events, incoming_upto, installed,
    neighbour_cells, cell_beside, column_cells, on_board, outgoing_events, placement_events,
    row_cells, sent_from, shape_cells, skip_own, span, weapon_for, Board, PlacedTower, Tower,
};
use crate::tower::debuffs::{debuffed_upto, AddDebuff, Debuff, Fitting, Shape};
use crate::tower::laser::Direction;

verus! {

/// Applying two runs of events one after the other is applying them as
/// one run.
pub proof fn lemma_debuffed_concat(
    f: Fitting,
    first: Seq<AddDebuff>,
    second: Seq<AddDebuff>,
    tower_index: Map<Cell, Option<usize>>,
)
    ensures
        debuffed_upto(f, first + second, (first + second).len() as int, tower_index)
            == debuffed_upto(
            debuffed_upto(f, first, first.len() as int, tower_index),
            second,
            second.len() as int,
            tower_index,
        ),
    decreases second.len(),
{
    if second.len() == 0 {
        assert(first + second =~= first);
    } else {
        let shorter = second.drop_last();
        lemma_debuffed_concat(f, first, shorter, tower_index);
        lemma_debuffed_prefix(
            f,
            first + shorter,
            first + second,
            (first + shorter).len() as int,
            tower_index,
        );
        lemma_debuffed_prefix(
            debuffed_upto(f, first, first.len() as int, tower_index),
            shorter,
            second,
            shorter.len() as int,
            tower_index,
        );
        assert((first + second)[(first + second).len() - 1] == second[second.len() - 1]);
    }
}

/// The first `k` events applied depend on the first `k` events only.
pub proof fn lemma_debuffed_prefix(
    f: Fitting,
    a: Seq<AddDebuff>,
    b: Seq<AddDebuff>,
    k: int,
    tower_index: Map<Cell, Option<usize>>,
)
    requires
        0 <= k <= a.len(),
        k <= b.len(),
        forall|i: int| 0 <= i < k ==> a[i] == b[i],
    ensures
        debuffed_upto(f, a, k, tower_index) == debuffed_upto(f, b, k, tower_index),
    decreases k,
{
    if k > 0 {
        lemma_debuffed_prefix(f, a, b, k - 1, tower_index);
    }
}

/// `placed` after `debuff` arrived, if `hit` says so.
pub open spec fn hit_if(placed: PlacedTower, hit: bool, debuff: Debuff) -> PlacedTower {
    if hit {
        placed.hit_by(debuff)
    } else {
        placed
    }
}

/// Events that carry one debuff to cells of which none is named twice hit
/// exactly the towers on those cells, each once, and move no tower.
pub proof fn lemma_spread(
    f: Fitting,
    cells: Seq<Cell>,
    k: int,
    debuff: Debuff,
    tower_index: Map<Cell, Option<usize>>,
)
    requires
        board_ok(f.towers, tower_index),
        cells.no_duplicates(),
        0 <= k <= cells.len(),
    ensures
        debuffed_upto(f, events_for(cells, debuff), k, tower_index).towers.len() == f.towers.len(),
        forall|t: int|
            0 <= t < f.towers.len() ==> #[trigger] debuffed_upto(
                f,
                events_for(cells, debuff),
                k,
                tower_index,
            ).towers[t] == hit_if(
                f.towers[t],
                cells.take(k).contains(f.towers[t].grid_pos),
                debuff,
            ),
    decreases k,
{
    let events = events_for(cells, debuff);
    if k > 0 {
        lemma_spread(f, cells, k - 1, debuff, tower_index);
        let before = debuffed_upto(f, events, k - 1, tower_index);
        let after = debuffed_upto(f, events, k, tower_index);
        let cell = cells[k - 1];
        let head = cells.take(k - 1);
        let upto = cells.take(k);
        assert(events[k - 1] == AddDebuff { grid_pos: cell, debuff });
        assert(!head.contains(cell)) by {
            if head.contains(cell) {
                let j = choose|j: int| 0 <= j < head.len() && head[j] == cell;
                assert(cells[j] == cells[k - 1]);
            }
        }
        assert forall|t: int| 0 <= t < f.towers.len() implies #[trigger] after.towers[t] == hit_if(
            f.towers[t],
            cells.take(k).contains(f.towers[t].grid_pos),
            debuff,
        ) by {
            let here = f.towers[t].grid_pos;
            assert(before.towers[t] == hit_if(f.towers[t], head.contains(here), debuff));
            assert(tower_index[here] == Some(t as usize));
            if here == cell {
                assert(upto[k - 1] == cell);
            } else {
                if upto.contains(here) {
                    let j = choose|j: int| 0 <= j < upto.len() && upto[j] == here;
                    assert(head[j] == here);
                }
                if head.contains(here) {
                    let j = choose|j: int| 0 <= j < head.len() && head[j] == here;
                    assert(upto[j] == here);
                }
                if tower_index[cell] is Some {
                    let other = tower_index[cell].unwrap();
                    assert(f.towers[other as int].grid_pos == cell);
                }
            }
        }
    } else {
        assert forall|t: int| 0 <= t < f.towers.len() implies !cells.take(0).contains(
            #[trigger] f.towers[t].grid_pos,
        ) by {}
    }
}

/// Whether a debuff of the given shape spreads from a tower on `from` to
/// cell `to` on a board of `columns` by `rows` cells.
pub open spec fn in_shape(shape: Shape, from: Cell, to: Cell, columns: int, rows: int) -> bool {
    match shape {
        Shape::Own => to == from,
        Shape::Neighbours => on_board(to.0 as int, to.1 as int, columns, rows) && ((to.0 == from.0
            && (to.1 == from.1 + 1 || to.1 == from.1 - 1)) || (to.1 == from.1 && (to.0 == from.0
            + 1 || to.0 == from.0 - 1))),
        Shape::Row => 0 <= to.0 < span(columns) && to.1 == from.1 && to.0 != from.0,
        Shape::Column => 0 <= to.1 < span(rows) && to.0 == from.0 && to.1 != from.1,
        Shape::Nowhere => false,
    }
}

/// Between two cells of the board, standing next to each other, in one
/// row or in one column goes both ways.
pub proof fn lemma_in_shape_symmetric(shape: Shape, a: Cell, b: Cell, columns: int, rows: int)
    requires
        on_board(a.0 as int, a.1 as int, columns, rows),
        on_board(b.0 as int, b.1 as int, columns, rows),
        shape != Shape::Own,
    ensures
        in_shape(shape, a, b, columns, rows) == in_shape(shape, b, a, columns, rows),
{
}

/// The cells of a row without one column are those that [`in_shape`]
/// names, each once.
pub proof fn lemma_row_cells(pos: Cell, columns: int)
    ensures
        row_cells(pos, columns).no_duplicates(),
        forall|q: Cell| #[trigger]
            row_cells(pos, columns).contains(q) <==> in_shape(Shape::Row, pos, q, columns, 0),
{
    let cells = row_cells(pos, columns);
    let x = pos.0 as int;
    assert forall|q: Cell| #[trigger] cells.contains(q) <==> in_shape(
        Shape::Row,
        pos,
        q,
        columns,
        0,
    ) by {
        if in_shape(Shape::Row, pos, q, columns, 0) {
            let v = q.0 as int;
            let i = if 0 <= x < v {
                v - 1
            } else {
                v
            };
            assert(cells[i] == q);
        }
        if cells.contains(q) {
            let i = choose|i: int| 0 <= i < cells.len() && cells[i] == q;
            assert(q == (skip_own(i, x) as i8, pos.1));
        }
    }
    assert forall|i: int, j: int| 0 <= i < cells.len() && 0 <= j < cells.len() && i != j implies cells[i]
        != cells[j] by {
        assert(cells[i].0 == skip_own(i, x) as i8);
        assert(cells[j].0 == skip_own(j, x) as i8);
    }
}

/// The cells of a column without one row are those that [`in_shape`]
/// names, each once.
pub proof fn lemma_column_cells(pos: Cell, rows: int)
    ensures
        column_cells(pos, rows).no_duplicates(),
        forall|q: Cell| #[trigger]
            column_cells(pos, rows).contains(q) <==> in_shape(Shape::Column, pos, q, 0, rows),
{
    let cells = column_cells(pos, rows);
    let y = pos.1 as int;
    assert forall|q: Cell| #[trigger] cells.contains(q) <==> in_shape(
        Shape::Column,
        pos,
        q,
        0,
        rows,
    ) by {
        if in_shape(Shape::Column, pos, q, 0, rows) {
            let v = q.1 as int;
            let i = if 0 <= y < v {
                v - 1
            } else {
                v
            };
            assert(cells[i] == q);
        }
        if cells.contains(q) {
            let i = choose|i: int| 0 <= i < cells.len() && cells[i] == q;
            assert(q == (pos.0, skip_own(i, y) as i8));
        }
    }
    assert forall|i: int, j: int| 0 <= i < cells.len() && 0 <= j < cells.len() && i != j implies cells[i]
        != cells[j] by {
        assert(cells[i].1 == skip_own(i, y) as i8);
        assert(cells[j].1 == skip_own(j, y) as i8);
    }
}

/// The neighbours of a cell are those that [`in_shape`] names, each once.
pub proof fn lemma_neighbour_cells(pos: Cell, columns: int, rows: int)
    ensures
        neighbour_cells(pos, columns, rows).no_duplicates(),
        forall|q: Cell| #[trigger]
            neighbour_cells(pos, columns, rows).contains(q) <==> in_shape(
                Shape::Neighbours,
                pos,
                q,
                columns,
                rows,
            ),
{
    let up = cell_beside(pos, 0, 1, columns, rows);
    let down = cell_beside(pos, 0, -1, columns, rows);
    let right = cell_beside(pos, 1, 0, columns, rows);
    let left = cell_beside(pos, -1, 0, columns, rows);
    let cells = neighbour_cells(pos, columns, rows);
    assert(cells == up + down + right + left);
    assert forall|q: Cell| #[trigger] cells.contains(q) <==> in_shape(
        Shape::Neighbours,
        pos,
        q,
        columns,
        rows,
    ) by {
        if cells.contains(q) {
            let i = choose|i: int| 0 <= i < cells.len() && cells[i] == q;
            if i < up.len() {
                assert(cells[i] == up[i]);
            } else if i < up.len() + down.len() {
                assert(cells[i] == down[i - up.len()]);
            } else if i < up.len() + down.len() + right.len() {
                assert(cells[i] == right[i - up.len() - down.len()]);
            } else {
                assert(cells[i] == left[i - up.len() - down.len() - right.len()]);
            }
        }
        if in_shape(Shape::Neighbours, pos, q, columns, rows) {
            if q.0 == pos.0 && q.1 == pos.1 + 1 {
                assert(up[0] == q);
                assert(cells[0] == q);
            } else if q.0 == pos.0 && q.1 == pos.1 - 1 {
                assert(down[0] == q);
                assert(cells[up.len() as int] == q);
            } else if q.1 == pos.1 && q.0 == pos.0 + 1 {
                assert(right[0] == q);
                assert(cells[(up.len() + down.len()) as int] == q);
            } else {
                assert(left[0] == q);
                assert(cells[(up.len() + down.len() + right.len()) as int] == q);
            }
        }
    }
    assert forall|i: int, j: int| 0 <= i < cells.len() && 0 <= j < cells.len() && i != j implies cells[i]
        != cells[j] by {
        let a = up.len() as int;
        let b = a + down.len();
        let c = b + right.len();
        assert(cells[i] == if i < a {
            up[i]
        } else if i < b {
            down[i - a]
        } else if i < c {
            right[i - b]
        } else {
            left[i - c]
        });
        assert(cells[j] == if j < a {
            up[j]
        } else if j < b {
            down[j - a]
        } else if j < c {
            right[j - b]
        } else {
            left[j - c]
        });
    }
}

/// The cells that a shape covers are those that [`in_shape`] names, each
/// once.
pub proof fn lemma_shape_cells(shape: Shape, pos: Cell, columns: int, rows: int)
    ensures
        shape_cells(shape, pos, columns, rows).no_duplicates(),
        forall|q: Cell| #[trigger]
            shape_cells(shape, pos, columns, rows).contains(q) <==> in_shape(
                shape,
                pos,
                q,
                columns,
                rows,
            ),
{
    let cells = shape_cells(shape, pos, columns, rows);
    match shape {
        Shape::Own => {
            assert forall|q: Cell| #[trigger] cells.contains(q) <==> q == pos by {
                if q == pos {
                    assert(cells[0] == q);
                }
            }
        },
        Shape::Neighbours => {
            lemma_neighbour_cells(pos, columns, rows);
        },
        Shape::Row => {
            lemma_row_cells(pos, columns);
        },
        Shape::Column => {
            lemma_column_cells(pos, rows);
        },
        Shape::Nowhere => {},
    }
}

/// `placed` after the debuffs of the first `k` events arrived, in order.
pub open spec fn hits_upto(placed: PlacedTower, events: Seq<AddDebuff>, k: int) -> PlacedTower
    decreases k,
{
    if k <= 0 {
        placed
    } else {
        hits_upto(placed, events, k - 1).hit_by(events[k - 1].debuff)
    }
}

/// Debuffs change neither where a tower stands nor what it carries or
/// radiates.
pub proof fn lemma_hits_keep(placed: PlacedTower, events: Seq<AddDebuff>, k: int)
    ensures
        hits_upto(placed, events, k).grid_pos == placed.grid_pos,
        hits_upto(placed, events, k).weapon == placed.weapon,
        hits_upto(placed, events, k).tower.debuff == placed.tower.debuff,
        hits_upto(placed, events, k).tower.variant == placed.tower.variant,
    decreases k,
{
    if k > 0 {
        lemma_hits_keep(placed, events, k - 1);
    }
}

/// Events that all name the cell of one tower hit that tower, one after
/// the other, and no other tower.
pub proof fn lemma_gather(
    f: Fitting,
    events: Seq<AddDebuff>,
    k: int,
    pos: Cell,
    tower_index: Map<Cell, Option<usize>>,
)
    requires
        0 <= k <= events.len(),
        tower_index[pos] is Some,
        tower_index[pos].unwrap() < f.towers.len(),
        forall|i: int| 0 <= i < events.len() ==> (#[trigger] events[i]).grid_pos == pos,
    ensures
        debuffed_upto(f, events, k, tower_index).towers == f.towers.update(
            tower_index[pos].unwrap() as int,
            hits_upto(f.towers[tower_index[pos].unwrap() as int], events, k),
        ),
    decreases k,
{
    let n = tower_index[pos].unwrap() as int;
    if k > 0 {
        lemma_gather(f, events, k - 1, pos, tower_index);
        let before = debuffed_upto(f, events, k - 1, tower_index);
        assert(events[k - 1].grid_pos == pos);
        assert(debuffed_upto(f, events, k, tower_index).towers =~= f.towers.update(
            n,
            hits_upto(f.towers[n], events, k),
        ));
    } else {
        assert(f.towers =~= f.towers.update(n, f.towers[n]));
    }
}

/// Every event that comes in to a tower names the cell of that tower.
pub proof fn lemma_incoming_target(
    cells: Seq<Cell>,
    k: int,
    shape: Shape,
    pos: Cell,
    towers: Seq<PlacedTower>,
    tower_index: Map<Cell, Option<usize>>,
)
    ensures
        forall|i: int|
            0 <= i < incoming_upto(cells, k, shape, pos, towers, tower_index).len() ==> (
            #[trigger] incoming_upto(cells, k, shape, pos, towers, tower_index)[i]).grid_pos == pos,
    decreases k,
{
    if k > 0 {
        lemma_incoming_target(cells, k - 1, shape, pos, towers, tower_index);
    }
}

/// Where at most the tower on cell `q` stands on any of `cells`, at most
/// that tower sends a debuff in.
pub proof fn lemma_incoming_single(
    cells: Seq<Cell>,
    k: int,
    shape: Shape,
    pos: Cell,
    towers: Seq<PlacedTower>,
    tower_index: Map<Cell, Option<usize>>,
    q: Cell,
)
    requires
        cells.no_duplicates(),
        0 <= k <= cells.len(),
        forall|i: int|
            0 <= i < cells.len() && cells[i] != q ==> sent_from(
                #[trigger] cells[i],
                shape,
                towers,
                tower_index,
            ) is None,
    ensures
        incoming_upto(cells, k, shape, pos, towers, tower_index) == if cells.take(k).contains(q)
            && sent_from(q, shape, towers, tower_index) is Some {
            seq![AddDebuff { grid_pos: pos, debuff: sent_from(q, shape, towers, tower_index).unwrap() }]
        } else {
            Seq::<AddDebuff>::empty()
        },
    decreases k,
{
    if k > 0 {
        lemma_incoming_single(cells, k - 1, shape, pos, towers, tower_index, q);
        let head = cells.take(k - 1);
        let upto = cells.take(k);
        let cell = cells[k - 1];
        if cell == q {
            assert(upto[k - 1] == q);
            assert(!head.contains(q)) by {
                if head.contains(q) {
                    let j = choose|j: int| 0 <= j < head.len() && head[j] == q;
                    assert(cells[j] == cells[k - 1]);
                }
            }
            assert(incoming_upto(cells, k, shape, pos, towers, tower_index) =~= if sent_from(
                q,
                shape,
                towers,
                tower_index,
            ) is Some {
                seq![
                    AddDebuff { grid_pos: pos, debuff: sent_from(q, shape, towers, tower_index).unwrap() },
                ]
            } else {
                Seq::<AddDebuff>::empty()
            });
        } else {
            assert(sent_from(cells[k - 1], shape, towers, tower_index) is None);
            if upto.contains(q) {
                let j = choose|j: int| 0 <= j < upto.len() && upto[j] == q;
                assert(head[j] == q);
            }
            if head.contains(q) {
                let j = choose|j: int| 0 <= j < head.len() && head[j] == q;
                assert(upto[j] == q);
            }
        }
    } else {
        assert(!cells.take(0).contains(q));
    }
}

/// Installing a tower on a free cell keeps the tower index consistent.
pub proof fn lemma_installed_board(b: Board, tower: Tower, pos: Cell, direction: Direction)
    requires
        board_ok(b.towers, b.index),
        b.towers.len() < usize::MAX,
        b.index[pos] is None,
    ensures
        board_ok(
            installed(b, tower, pos, direction).towers,
            installed(b, tower, pos, direction).index,
        ),
{
    let at = installed(b, tower, pos, direction);
    let n = b.towers.len() as int;
    assert forall|c: Cell| (#[trigger] at.index[c]) is Some implies at.index[c].unwrap()
        < at.towers.len() && at.towers[at.index[c].unwrap() as int].grid_pos == c by {
        if c != pos {
            assert(b.index[c] is Some);
            assert(at.towers[b.index[c].unwrap() as int] == b.towers[b.index[c].unwrap() as int]);
        }
    }
    assert forall|t: int| 0 <= t < at.towers.len() implies at.index[(#[trigger] at.towers[t]).grid_pos]
        == Some(t as usize) by {
        if t < n {
            assert(at.towers[t] == b.towers[t]);
            assert(b.index[b.towers[t].grid_pos] == Some(t as usize));
        }
    }
}

/// All the events that come in to a tower placed on `pos`.
pub open spec fn all_incoming(
    pos: Cell,
    towers: Seq<PlacedTower>,
    tower_index: Map<Cell, Option<usize>>,
    columns: int,
    rows: int,
) -> Seq<AddDebuff> {
    incoming_events(Shape::Neighbours, pos, towers, tower_index, columns, rows) + incoming_events(
        Shape::Row,
        pos,
        towers,
        tower_index,
        columns,
        rows,
    ) + incoming_events(Shape::Column, pos, towers, tower_index, columns, rows)
}

/// What a placement does to each tower.
///
/// A tower that stood on the board before is hit by the new tower's debuff
/// once if it stands where the debuff spreads to, and is not touched
/// otherwise. The new tower is hit by its own debuff if that spreads to
/// the tower itself, and then by every debuff that comes in, in order.
/// No tower moves.
pub proof fn lemma_placement_effect(
    b: Board,
    tower: Tower,
    pos: Cell,
    direction: Direction,
    columns: int,
    rows: int,
)
    requires
        board_ok(b.towers, b.index),
        b.towers.len() < usize::MAX,
        b.index[pos] is None,
    ensures
        board_after_placement(b, tower, pos, direction, columns, rows).towers.len()
            == b.towers.len() + 1,
        forall|t: int|
            0 <= t < b.towers.len() ==> #[trigger] board_after_placement(
                b,
                tower,
                pos,
                direction,
                columns,
                rows,
            ).towers[t] == hit_if(
                b.towers[t],
                in_shape(tower.debuff.shape(), pos, b.towers[t].grid_pos, columns, rows),
                tower.debuff.effect(),
            ),
        board_after_placement(b, tower, pos, direction, columns, rows).towers[b.towers.len() as int]
            == hits_upto(
            hit_if(
                PlacedTower {
                    tower,
                    grid_pos: pos,
                    weapon: weapon_for(tower, direction),
                    overheat: None,
                },
                tower.debuff.shape() == Shape::Own,
                tower.debuff.effect(),
            ),
            all_incoming(
                pos,
                installed(b, tower, pos, direction).towers,
                installed(b, tower, pos, direction).index,
                columns,
                rows,
            ),
            all_incoming(
                pos,
                installed(b, tower, pos, direction).towers,
                installed(b, tower, pos, direction).index,
                columns,
                rows,
            ).len() as int,
        ),
        board_after_placement(b, tower, pos, direction, columns, rows).index == b.index.insert(
            pos,
            Some(b.towers.len() as usize),
        ),
        board_ok(
            board_after_placement(b, tower, pos, direction, columns, rows).towers,
            board_after_placement(b, tower, pos, direction, columns, rows).index,
        ),
{
    let n = b.towers.len() as int;
    let at = installed(b, tower, pos, direction);
    let start = Fitting { towers: at.towers, points: at.points };
    let shape = tower.debuff.shape();
    let effect = tower.debuff.effect();
    let cells = shape_cells(shape, pos, columns, rows);
    let out = outgoing_events(tower.debuff, pos, columns, rows);
    let inc = all_incoming(pos, at.towers, at.index, columns, rows);
    let events = placement_events(tower.debuff, pos, at.towers, at.index, columns, rows);
    lemma_installed_board(b, tower, pos, direction);
    lemma_shape_cells(shape, pos, columns, rows);
    assert(events =~= out + inc);
    lemma_debuffed_concat(start, out, inc, at.index);
    let spread = debuffed_upto(start, out, out.len() as int, at.index);
    assert(out == events_for(cells, effect));
    lemma_spread(start, cells, cells.len() as int, effect, at.index);
    assert(cells.take(cells.len() as int) == cells);
    lemma_incoming_target(
        shape_cells(Shape::Neighbours, pos, columns, rows),
        shape_cells(Shape::Neighbours, pos, columns, rows).len() as int,
        Shape::Neighbours,
        pos,
        at.towers,
        at.index,
    );
    lemma_incoming_target(
        shape_cells(Shape::Row, pos, columns, rows),
        shape_cells(Shape::Row, pos, columns, rows).len() as int,
        Shape::Row,
        pos,
        at.towers,
        at.index,
    );
    lemma_incoming_target(
        shape_cells(Shape::Column, pos, columns, rows),
        shape_cells(Shape::Column, pos, columns, rows).len() as int,
        Shape::Column,
        pos,
        at.towers,
        at.index,
    );
    assert forall|i: int| 0 <= i < inc.len() implies (#[trigger] inc[i]).grid_pos == pos by {
        let a = incoming_events(Shape::Neighbours, pos, at.towers, at.index, columns, rows);
        let r = incoming_events(Shape::Row, pos, at.towers, at.index, columns, rows);
        let c = incoming_events(Shape::Column, pos, at.towers, at.index, columns, rows);
        if i < a.len() {
            assert(inc[i] == a[i]);
        } else if i < a.len() + r.len() {
            assert(inc[i] == r[i - a.len()]);
        } else {
            assert(inc[i] == c[i - a.len() - r.len()]);
        }
    }
    lemma_gather(spread, inc, inc.len() as int, pos, at.index);
    let after = board_after_placement(b, tower, pos, direction, columns, rows);
    assert(after.towers == spread.towers.update(n, hits_upto(spread.towers[n], inc, inc.len() as int)));
    assert(spread.towers[n] == hit_if(at.towers[n], cells.contains(pos), effect));
    assert(cells.contains(pos) == (shape == Shape::Own));
    assert forall|t: int| 0 <= t < n implies #[trigger] after.towers[t] == hit_if(
        b.towers[t],
        in_shape(shape, pos, b.towers[t].grid_pos, columns, rows),
        effect,
    ) by {
        assert(at.towers[t] == b.towers[t]);
        assert(spread.towers[t] == hit_if(
            at.towers[t],
            cells.contains(at.towers[t].grid_pos),
            effect,
        ));
    }
    lemma_hits_keep(spread.towers[n], inc, inc.len() as int);
    assert forall|t: int| 0 <= t < after.towers.len() implies (#[trigger] after.towers[t]).grid_pos
        == at.towers[t].grid_pos by {
        assert(spread.towers[t] == hit_if(
            at.towers[t],
            cells.contains(at.towers[t].grid_pos),
            effect,
        ));
    }
    assert forall|c: Cell| (#[trigger] at.index[c]) is Some implies at.index[c].unwrap()
        < after.towers.len() && after.towers[at.index[c].unwrap() as int].grid_pos == c by {
        assert(at.towers[at.index[c].unwrap() as int].grid_pos == c);
    }
    assert forall|t: int| 0 <= t < after.towers.len() implies at.index[(
    #[trigger] after.towers[t]).grid_pos] == Some(t as usize) by {
        assert(at.index[at.towers[t].grid_pos] == Some(t as usize));
    }
}

/// The board with nothing on it.
pub open spec fn empty_board() -> Board {
    Board {
        towers: Seq::empty(),
        points: Seq::empty(),
        index: Map::new(|c: Cell| true, |c: Cell| None::<usize>),
    }
}

/// `tower` as it stands on `pos` once its own debuff has acted on it, if
/// it is one that acts on the tower itself.
pub open spec fn own_hit(tower: Tower, pos: Cell, direction: Direction) -> PlacedTower {
    hit_if(
        PlacedTower { tower, grid_pos: pos, weapon: weapon_for(tower, direction), overheat: None },
        tower.debuff.shape() == Shape::Own,
        tower.debuff.effect(),
    )
}

/// Whether the tower on cell `c`, if there is one, sends no debuff to a
/// tower on `pos`.
pub open spec fn mute(
    c: Cell,
    pos: Cell,
    towers: Seq<PlacedTower>,
    tower_index: Map<Cell, Option<usize>>,
    columns: int,
    rows: int,
) -> bool {
    &&& in_shape(Shape::Neighbours, pos, c, columns, rows) ==> sent_from(
        c,
        Shape::Neighbours,
        towers,
        tower_index,
    ) is None
    &&& in_shape(Shape::Row, pos, c, columns, rows) ==> sent_from(
        c,
        Shape::Row,
        towers,
        tower_index,
    ) is None
    &&& in_shape(Shape::Column, pos, c, columns, rows) ==> sent_from(
        c,
        Shape::Column,
        towers,
        tower_index,
    ) is None
}

/// On a board on which at most the tower on `q` sends a debuff to a tower
/// on `pos`, the debuffs that come in to a tower placed on `pos` are at
/// most the one of the tower on `q`, and that one comes in if `pos` is
/// where it spreads to.
pub proof fn lemma_incoming_from_one(
    pos: Cell,
    towers: Seq<PlacedTower>,
    tower_index: Map<Cell, Option<usize>>,
    columns: int,
    rows: int,
    q: Cell,
)
    requires
        q != pos,
        forall|c: Cell| c != q ==> #[trigger] mute(c, pos, towers, tower_index, columns, rows),
    ensures
        all_incoming(pos, towers, tower_index, columns, rows) == match tower_index[q] {
            Some(t) => if t < towers.len() && towers[t as int].tower.debuff.shape() != Shape::Own
                && in_shape(towers[t as int].tower.debuff.shape(), pos, q, columns, rows) {
                seq![AddDebuff { grid_pos: pos, debuff: towers[t as int].tower.debuff.effect() }]
            } else {
                Seq::<AddDebuff>::empty()
            },
            None => Seq::<AddDebuff>::empty(),
        },
{
    let near = shape_cells(Shape::Neighbours, pos, columns, rows);
    let row = shape_cells(Shape::Row, pos, columns, rows);
    let column = shape_cells(Shape::Column, pos, columns, rows);
    lemma_shape_cells(Shape::Neighbours, pos, columns, rows);
    lemma_shape_cells(Shape::Row, pos, columns, rows);
    lemma_shape_cells(Shape::Column, pos, columns, rows);
    assert forall|i: int| 0 <= i < near.len() && near[i] != q implies sent_from(
        #[trigger] near[i],
        Shape::Neighbours,
        towers,
        tower_index,
    ) is None by {
        assert(near.contains(near[i]));
        assert(mute(near[i], pos, towers, tower_index, columns, rows));
    }
    assert forall|i: int| 0 <= i < row.len() && row[i] != q implies sent_from(
        #[trigger] row[i],
        Shape::Row,
        towers,
        tower_index,
    ) is None by {
        assert(row.contains(row[i]));
        assert(mute(row[i], pos, towers, tower_index, columns, rows));
    }
    assert forall|i: int| 0 <= i < column.len() && column[i] != q implies sent_from(
        #[trigger] column[i],
        Shape::Column,
        towers,
        tower_index,
    ) is None by {
        assert(column.contains(column[i]));
        assert(mute(column[i], pos, towers, tower_index, columns, rows));
    }
    lemma_incoming_single(near, near.len() as int, Shape::Neighbours, pos, towers, tower_index, q);
    lemma_incoming_single(row, row.len() as int, Shape::Row, pos, towers, tower_index, q);
    lemma_incoming_single(column, column.len() as int, Shape::Column, pos, towers, tower_index, q);
    assert(near.take(near.len() as int) == near);
    assert(row.take(row.len() as int) == row);
    assert(column.take(column.len() as int) == column);
    let a = incoming_events(Shape::Neighbours, pos, towers, tower_index, columns, rows);
    let r = incoming_events(Shape::Row, pos, towers, tower_index, columns, rows);
    let c = incoming_events(Shape::Column, pos, towers, tower_index, columns, rows);
    let all = all_incoming(pos, towers, tower_index, columns, rows);
    assert(all == a + r + c);
    match tower_index[q] {
        Some(t) => {
            if t < towers.len() {
                let shape = towers[t as int].tower.debuff.shape();
                if shape == Shape::Neighbours {
                    assert(all =~= a);
                } else if shape == Shape::Row {
                    assert(all =~= r);
                } else if shape == Shape::Column {
                    assert(all =~= c);
                } else {
                    assert(all =~= Seq::<AddDebuff>::empty());
                }
            } else {
                assert(all =~= Seq::<AddDebuff>::empty());
            }
        },
        None => {
            assert(all =~= Seq::<AddDebuff>::empty());
        },
    }
}

/// The board with nothing on it is consistent.
pub proof fn lemma_empty_board()
    ensures
        board_ok(empty_board().towers, empty_board().index),
        forall|c: Cell| (#[trigger] empty_board().index[c]) is None,
{
}

/// What a placement on an empty board makes of the tower: it is hit by
/// its own debuff if that acts on the tower itself, and by nothing else.
pub proof fn lemma_first_placement(
    a: Tower,
    pa: Cell,
    da: Direction,
    columns: int,
    rows: int,
)
    ensures
        board_after_placement(empty_board(), a, pa, da, columns, rows).towers.len() == 1,
        board_after_placement(empty_board(), a, pa, da, columns, rows).towers[0] == own_hit(
            a,
            pa,
            da,
        ),
        board_after_placement(empty_board(), a, pa, da, columns, rows).index
            == empty_board().index.insert(pa, Some(0usize)),
        board_ok(
            board_after_placement(empty_board(), a, pa, da, columns, rows).towers,
            board_after_placement(empty_board(), a, pa, da, columns, rows).index,
        ),
{
    let empty = empty_board();
    lemma_empty_board();
    lemma_placement_effect(empty, a, pa, da, columns, rows);
    let at = installed(empty, a, pa, da);
    let other: Cell = if pa.0 == 0 {
        (1i8, pa.1)
    } else {
        (0i8, pa.1)
    };
    assert forall|c: Cell| c != other implies #[trigger] mute(
        c,
        pa,
        at.towers,
        at.index,
        columns,
        rows,
    ) by {
        if c != pa {
            assert(empty.index[c] is None);
            assert(at.index[c] is None);
        }
    }
    assert(at.index[other] is None) by {
        assert(empty.index[other] is None);
    }
    lemma_incoming_from_one(pa, at.towers, at.index, columns, rows, other);
}

/// What a placement next to one standing tower makes of the two towers:
/// the standing tower is hit by the new tower's debuff if it stands where
/// that spreads to; the new tower is hit by its own debuff if that acts
/// on the tower itself, and then by the debuff of the standing tower if
/// the new tower stands where that one spreads to.
pub proof fn lemma_second_placement(
    first: Board,
    b: Tower,
    pb: Cell,
    db: Direction,
    columns: int,
    rows: int,
)
    requires
        first.towers.len() == 1,
        first.towers[0].grid_pos != pb,
        first.index == empty_board().index.insert(first.towers[0].grid_pos, Some(0usize)),
        board_ok(first.towers, first.index),
    ensures
        board_after_placement(first, b, pb, db, columns, rows).towers.len() == 2,
        board_after_placement(first, b, pb, db, columns, rows).towers[0] == hit_if(
            first.towers[0],
            in_shape(b.debuff.shape(), pb, first.towers[0].grid_pos, columns, rows),
            b.debuff.effect(),
        ),
        board_after_placement(first, b, pb, db, columns, rows).towers[1] == hit_if(
            own_hit(b, pb, db),
            first.towers[0].tower.debuff.shape() != Shape::Own && in_shape(
                first.towers[0].tower.debuff.shape(),
                pb,
                first.towers[0].grid_pos,
                columns,
                rows,
            ),
            first.towers[0].tower.debuff.effect(),
        ),
{
    let pa = first.towers[0].grid_pos;
    lemma_empty_board();
    assert(first.index[pb] is None) by {
        assert(empty_board().index[pb] is None);
    }
    lemma_placement_effect(first, b, pb, db, columns, rows);
    let at = installed(first, b, pb, db);
    assert forall|c: Cell| c != pa implies #[trigger] mute(
        c,
        pb,
        at.towers,
        at.index,
        columns,
        rows,
    ) by {
        if c != pb {
            assert(empty_board().index[c] is None);
            assert(at.index[c] is None);
        }
    }
    lemma_incoming_from_one(pb, at.towers, at.index, columns, rows, pa);
    assert(at.index[pa] == Some(0usize));
    assert(at.towers[0] == first.towers[0]);
    let inc = all_incoming(pb, at.towers, at.index, columns, rows);
    let standing = first.towers[0].tower.debuff;
    if standing.shape() != Shape::Own && in_shape(standing.shape(), pb, pa, columns, rows) {
        assert(inc == seq![AddDebuff { grid_pos: pb, debuff: standing.effect() }]);
        assert(inc.len() == 1);
        assert(hits_upto(own_hit(b, pb, db), inc, 0) == own_hit(b, pb, db));
        assert(hits_upto(own_hit(b, pb, db), inc, 1) == own_hit(b, pb, db).hit_by(inc[0].debuff));
    } else {
        assert(inc == Seq::<AddDebuff>::empty());
        assert(inc.len() == 0);
    }
}

/// What two placements on an empty board make of the two towers: each is
/// hit by its own debuff if that acts on the tower itself, and then by the
/// debuff of the other if it stands where that one spreads to.
pub proof fn lemma_two_placements(
    a: Tower,
    b: Tower,
    pa: Cell,
    pb: Cell,
    da: Direction,
    db: Direction,
    columns: int,
    rows: int,
)
    requires
        pa != pb,
    ensures
        board_after_placement(
            board_after_placement(empty_board(), a, pa, da, columns, rows),
            b,
            pb,
            db,
            columns,
            rows,
        ).towers.len() == 2,
        board_after_placement(
            board_after_placement(empty_board(), a, pa, da, columns, rows),
            b,
            pb,
            db,
            columns,
            rows,
        ).towers[0] == hit_if(
            own_hit(a, pa, da),
            in_shape(b.debuff.shape(), pb, pa, columns, rows),
            b.debuff.effect(),
        ),
        board_after_placement(
            board_after_placement(empty_board(), a, pa, da, columns, rows),
            b,
            pb,
            db,
            columns,
            rows,
        ).towers[1] == hit_if(
            own_hit(b, pb, db),
            a.debuff.shape() != Shape::Own && in_shape(a.debuff.shape(), pb, pa, columns, rows),
            a.debuff.effect(),
        ),
{
    let first = board_after_placement(empty_board(), a, pa, da, columns, rows);
    lemma_first_placement(a, pa, da, columns, rows);
    lemma_own_hit_keeps(a, pa, da);
    lemma_second_placement(first, b, pb, db, columns, rows);
}

/// A tower's own debuff changes neither where it stands nor what it
/// radiates.
pub proof fn lemma_own_hit_keeps(tower: Tower, pos: Cell, direction: Direction)
    ensures
        own_hit(tower, pos, direction).grid_pos == pos,
        own_hit(tower, pos, direction).tower.debuff == tower.debuff,
{
}

/// Two towers placed on an empty board end up the same whichever of them
/// is placed first: with the same stats, the same target mode, the same
/// weapon and the same liability to overheat.
///
/// This holds for every pair of debuffs. It does not go further: a third
/// tower that both debuffs reach takes two reductions one after the other,
/// and what is cut off by rounding depends on which comes first.
pub proof fn lemma_placement_order(
    a: Tower,
    b: Tower,
    pa: Cell,
    pb: Cell,
    da: Direction,
    db: Direction,
    columns: int,
    rows: int,
)
    requires
        pa != pb,
        on_board(pa.0 as int, pa.1 as int, columns, rows),
        on_board(pb.0 as int, pb.1 as int, columns, rows),
    ensures
        board_after_placement(
            board_after_placement(empty_board(), a, pa, da, columns, rows),
            b,
            pb,
            db,
            columns,
            rows,
        ).towers[0] == board_after_placement(
            board_after_placement(empty_board(), b, pb, db, columns, rows),
            a,
            pa,
            da,
            columns,
            rows,
        ).towers[1],
        board_after_placement(
            board_after_placement(empty_board(), a, pa, da, columns, rows),
            b,
            pb,
            db,
            columns,
            rows,
        ).towers[1] == board_after_placement(
            board_after_placement(empty_board(), b, pb, db, columns, rows),
            a,
            pa,
            da,
            columns,
            rows,
        ).towers[0],
{
    lemma_two_placements(a, b, pa, pb, da, db, columns, rows);
    lemma_two_placements(b, a, pb, pa, db, da, columns, rows);
    if a.debuff.shape() != Shape::Own {
        lemma_in_shape_symmetric(a.debuff.shape(), pa, pb, columns, rows);
    }
    if b.debuff.shape() != Shape::Own {
        lemma_in_shape_symmetric(b.debuff.shape(), pa, pb, columns, rows);
    }
}

/// Boards whose towers send the same debuffs from the first `k` of `cells`
/// send the same events in from them.
pub proof fn lemma_incoming_same(
    cells: Seq<Cell>,
    k: int,
    shape: Shape,
    pos: Cell,
    towers1: Seq<PlacedTower>,
    index1: Map<Cell, Option<usize>>,
    towers2: Seq<PlacedTower>,
    index2: Map<Cell, Option<usize>>,
)
    requires
        0 <= k <= cells.len(),
        forall|i: int|
            0 <= i < k ==> sent_from(#[trigger] cells[i], shape, towers1, index1) == sent_from(
                cells[i],
                shape,
                towers2,
                index2,
            ),
    ensures
        incoming_upto(cells, k, shape, pos, towers1, index1) == incoming_upto(
            cells,
            k,
            shape,
            pos,
            towers2,
            index2,
        ),
    decreases k,
{
    if k > 0 {
        lemma_incoming_same(cells, k - 1, shape, pos, towers1, index1, towers2, index2);
        assert(sent_from(cells[k - 1], shape, towers1, index1) == sent_from(
            cells[k - 1],
            shape,
            towers2,
            index2,
        ));
    }
}

/// Where no event comes in from the first `k` of `cells`, no tower on
/// them sends one.
pub proof fn lemma_incoming_none(
    cells: Seq<Cell>,
    k: int,
    shape: Shape,
    pos: Cell,
    towers: Seq<PlacedTower>,
    tower_index: Map<Cell, Option<usize>>,
)
    requires
        0 <= k <= cells.len(),
        incoming_upto(cells, k, shape, pos, towers, tower_index).len() == 0,
    ensures
        forall|i: int|
            0 <= i < k ==> sent_from(#[trigger] cells[i], shape, towers, tower_index) is None,
    decreases k,
{
    if k > 0 {
        let before = incoming_upto(cells, k - 1, shape, pos, towers, tower_index);
        if sent_from(cells[k - 1], shape, towers, tower_index) is Some {
            assert(incoming_upto(cells, k, shape, pos, towers, tower_index).len() == before.len() + 1);
        }
        lemma_incoming_none(cells, k - 1, shape, pos, towers, tower_index);
    }
}

/// Whether no tower of board `b` sends a debuff to a tower placed on
/// `pos`.
pub open spec fn quiet(
    b: Board,
    tower: Tower,
    pos: Cell,
    direction: Direction,
    columns: int,
    rows: int,
) -> bool {
    all_incoming(
        pos,
        installed(b, tower, pos, direction).towers,
        installed(b, tower, pos, direction).index,
        columns,
        rows,
    ).len() == 0
}

/// Whether the debuff of `sender` on cell `from` reaches another tower on
/// cell `to`.
pub open spec fn sends_to(sender: Tower, from: Cell, to: Cell, columns: int, rows: int) -> bool {
    sender.debuff.shape() != Shape::Own && in_shape(sender.debuff.shape(), from, to, columns, rows)
}

/// Where no tower of a board sends a debuff to a tower placed on `pos`,
/// every tower of the board is mute towards `pos`.
proof fn lemma_quiet_mute(
    b: Board,
    tower: Tower,
    pos: Cell,
    direction: Direction,
    columns: int,
    rows: int,
)
    requires
        quiet(b, tower, pos, direction, columns, rows),
    ensures
        forall|c: Cell| #[trigger]
            mute(
                c,
                pos,
                installed(b, tower, pos, direction).towers,
                installed(b, tower, pos, direction).index,
                columns,
                rows,
            ),
{
    let at = installed(b, tower, pos, direction);
    let near = shape_cells(Shape::Neighbours, pos, columns, rows);
    let row = shape_cells(Shape::Row, pos, columns, rows);
    let column = shape_cells(Shape::Column, pos, columns, rows);
    lemma_shape_cells(Shape::Neighbours, pos, columns, rows);
    lemma_shape_cells(Shape::Row, pos, columns, rows);
    lemma_shape_cells(Shape::Column, pos, columns, rows);
    let a = incoming_events(Shape::Neighbours, pos, at.towers, at.index, columns, rows);
    let r = incoming_events(Shape::Row, pos, at.towers, at.index, columns, rows);
    let c = incoming_events(Shape::Column, pos, at.towers, at.index, columns, rows);
    assert((a + r + c).len() == a.len() + r.len() + c.len());
    lemma_incoming_none(near, near.len() as int, Shape::Neighbours, pos, at.towers, at.index);
    lemma_incoming_none(row, row.len() as int, Shape::Row, pos, at.towers, at.index);
    lemma_incoming_none(column, column.len() as int, Shape::Column, pos, at.towers, at.index);
    assert forall|q: Cell| #[trigger] mute(q, pos, at.towers, at.index, columns, rows) by {
        if in_shape(Shape::Neighbours, pos, q, columns, rows) {
            assert(near.contains(q));
            let i = choose|i: int| 0 <= i < near.len() && near[i] == q;
            assert(sent_from(near[i], Shape::Neighbours, at.towers, at.index) is None);
        }
        if in_shape(Shape::Row, pos, q, columns, rows) {
            assert(row.contains(q));
            let i = choose|i: int| 0 <= i < row.len() && row[i] == q;
            assert(sent_from(row[i], Shape::Row, at.towers, at.index) is None);
        }
        if in_shape(Shape::Column, pos, q, columns, rows) {
            assert(column.contains(q));
            let i = choose|i: int| 0 <= i < column.len() && column[i] == q;
            assert(sent_from(column[i], Shape::Column, at.towers, at.index) is None);
        }
    }
}

/// A hit changes neither where a tower stands nor what it radiates.
pub proof fn lemma_hit_if_keeps(placed: PlacedTower, hit: bool, debuff: Debuff)
    ensures
        hit_if(placed, hit, debuff).grid_pos == placed.grid_pos,
        hit_if(placed, hit, debuff).tower.debuff == placed.tower.debuff,
{
}

/// Placing another tower first does not change what the towers of the
/// board send to a cell, and adds what the other tower sends.
proof fn lemma_senders_after_placement(
    b: Board,
    a: Tower,
    other: Tower,
    pa: Cell,
    pb: Cell,
    da: Direction,
    db: Direction,
    columns: int,
    rows: int,
    shape: Shape,
    c: Cell,
)
    requires
        board_ok(b.towers, b.index),
        b.towers.len() + 1 < usize::MAX,
        pa != pb,
        b.index[pa] is None,
        b.index[pb] is None,
        c != pa,
    ensures
        sent_from(
            c,
            shape,
            installed(
                board_after_placement(b, other, pb, db, columns, rows),
                a,
                pa,
                da,
            ).towers,
            installed(board_after_placement(b, other, pb, db, columns, rows), a, pa, da).index,
        ) == if c == pb {
            if other.debuff.shape() == shape {
                Some(other.debuff.effect())
            } else {
                None
            }
        } else {
            sent_from(c, shape, installed(b, a, pa, da).towers, installed(b, a, pa, da).index)
        },
{
    let n = b.towers.len() as int;
    let first = board_after_placement(b, other, pb, db, columns, rows);
    lemma_placement_effect(b, other, pb, db, columns, rows);
    let x1 = installed(b, a, pa, da);
    let x2 = installed(first, a, pa, da);
    if c == pb {
        assert(x2.index[pb] == Some(n as usize));
        assert(x2.towers[n] == first.towers[n]);
        lemma_hits_keep(
            hit_if(
                PlacedTower {
                    tower: other,
                    grid_pos: pb,
                    weapon: weapon_for(other, db),
                    overheat: None,
                },
                other.debuff.shape() == Shape::Own,
                other.debuff.effect(),
            ),
            all_incoming(
                pb,
                installed(b, other, pb, db).towers,
                installed(b, other, pb, db).index,
                columns,
                rows,
            ),
            all_incoming(
                pb,
                installed(b, other, pb, db).towers,
                installed(b, other, pb, db).index,
                columns,
                rows,
            ).len() as int,
        );
    } else {
        assert(x1.index[c] == b.index[c]);
        assert(x2.index[c] == b.index[c]);
        if b.index[c] is Some {
            let t = b.index[c].unwrap() as int;
            assert(x1.towers[t] == b.towers[t]);
            assert(x2.towers[t] == first.towers[t]);
            lemma_hit_if_keeps(
                b.towers[t],
                in_shape(other.debuff.shape(), pb, b.towers[t].grid_pos, columns, rows),
                other.debuff.effect(),
            );
        }
    }
}

/// What becomes of the tower `a` in either order, in terms of the events
/// that come in to it.
proof fn lemma_order_forms(
    b: Board,
    a: Tower,
    other: Tower,
    pa: Cell,
    pb: Cell,
    da: Direction,
    db: Direction,
    columns: int,
    rows: int,
)
    requires
        board_ok(b.towers, b.index),
        b.towers.len() + 1 < usize::MAX,
        pa != pb,
        b.index[pa] is None,
        b.index[pb] is None,
    ensures
        board_after_placement(
            board_after_placement(b, a, pa, da, columns, rows),
            other,
            pb,
            db,
            columns,
            rows,
        ).towers[b.towers.len() as int] == hit_if(
            hits_upto(
                own_hit(a, pa, da),
                all_incoming(
                    pa,
                    installed(b, a, pa, da).towers,
                    installed(b, a, pa, da).index,
                    columns,
                    rows,
                ),
                all_incoming(
                    pa,
                    installed(b, a, pa, da).towers,
                    installed(b, a, pa, da).index,
                    columns,
                    rows,
                ).len() as int,
            ),
            in_shape(other.debuff.shape(), pb, pa, columns, rows),
            other.debuff.effect(),
        ),
        board_after_placement(
            board_after_placement(b, other, pb, db, columns, rows),
            a,
            pa,
            da,
            columns,
            rows,
        ).towers[b.towers.len() as int + 1] == hits_upto(
            own_hit(a, pa, da),
            all_incoming(
                pa,
                installed(board_after_placement(b, other, pb, db, columns, rows), a, pa, da).towers,
                installed(board_after_placement(b, other, pb, db, columns, rows), a, pa, da).index,
                columns,
                rows,
            ),
            all_incoming(
                pa,
                installed(board_after_placement(b, other, pb, db, columns, rows), a, pa, da).towers,
                installed(board_after_placement(b, other, pb, db, columns, rows), a, pa, da).index,
                columns,
                rows,
            ).len() as int,
        ),
{
    let n = b.towers.len() as int;
    let ab1 = board_after_placement(b, a, pa, da, columns, rows);
    let ba1 = board_after_placement(b, other, pb, db, columns, rows);
    let x1 = installed(b, a, pa, da);
    let inc1 = all_incoming(pa, x1.towers, x1.index, columns, rows);
    let own = own_hit(a, pa, da);
    lemma_placement_effect(b, a, pa, da, columns, rows);
    assert(ab1.towers[n] == hits_upto(own, inc1, inc1.len() as int));
    lemma_hits_keep(own, inc1, inc1.len() as int);
    assert(ab1.index[pb] is None);
    lemma_placement_effect(ab1, other, pb, db, columns, rows);
    lemma_placement_effect(b, other, pb, db, columns, rows);
    assert(ba1.index[pa] is None);
    lemma_placement_effect(ba1, a, pa, da, columns, rows);
}

/// A tower that the other tower does not reach gets the same events in
/// whether or not the other tower stands already.
proof fn lemma_incoming_unreached(
    b: Board,
    a: Tower,
    other: Tower,
    pa: Cell,
    pb: Cell,
    da: Direction,
    db: Direction,
    columns: int,
    rows: int,
)
    requires
        board_ok(b.towers, b.index),
        b.towers.len() + 1 < usize::MAX,
        pa != pb,
        b.index[pa] is None,
        b.index[pb] is None,
        on_board(pa.0 as int, pa.1 as int, columns, rows),
        on_board(pb.0 as int, pb.1 as int, columns, rows),
        !sends_to(other, pb, pa, columns, rows),
    ensures
        all_incoming(
            pa,
            installed(board_after_placement(b, other, pb, db, columns, rows), a, pa, da).towers,
            installed(board_after_placement(b, other, pb, db, columns, rows), a, pa, da).index,
            columns,
            rows,
        ) == all_incoming(
            pa,
            installed(b, a, pa, da).towers,
            installed(b, a, pa, da).index,
            columns,
            rows,
        ),
{
    let ba1 = board_after_placement(b, other, pb, db, columns, rows);
    let x1 = installed(b, a, pa, da);
    let x2 = installed(ba1, a, pa, da);
    if other.debuff.shape() != Shape::Own {
        lemma_in_shape_symmetric(other.debuff.shape(), pa, pb, columns, rows);
    }
    assert(x1.index[pb] is None);
    lemma_incoming_unreached_in(b, a, other, pa, pb, da, db, columns, rows, Shape::Neighbours);
    lemma_incoming_unreached_in(b, a, other, pa, pb, da, db, columns, rows, Shape::Row);
    lemma_incoming_unreached_in(b, a, other, pa, pb, da, db, columns, rows, Shape::Column);
}

/// [`lemma_incoming_unreached`] for the events of one shape.
proof fn lemma_incoming_unreached_in(
    b: Board,
    a: Tower,
    other: Tower,
    pa: Cell,
    pb: Cell,
    da: Direction,
    db: Direction,
    columns: int,
    rows: int,
    shape: Shape,
)
    requires
        board_ok(b.towers, b.index),
        b.towers.len() + 1 < usize::MAX,
        pa != pb,
        b.index[pa] is None,
        b.index[pb] is None,
        shape == Shape::Neighbours || shape == Shape::Row || shape == Shape::Column,
        other.debuff.shape() == shape ==> !in_shape(shape, pa, pb, columns, rows),
    ensures
        incoming_events(
            shape,
            pa,
            installed(board_after_placement(b, other, pb, db, columns, rows), a, pa, da).towers,
            installed(board_after_placement(b, other, pb, db, columns, rows), a, pa, da).index,
            columns,
            rows,
        ) == incoming_events(
            shape,
            pa,
            installed(b, a, pa, da).towers,
            installed(b, a, pa, da).index,
            columns,
            rows,
        ),
{
    let ba1 = board_after_placement(b, other, pb, db, columns, rows);
    let x1 = installed(b, a, pa, da);
    let x2 = installed(ba1, a, pa, da);
    let cells = shape_cells(shape, pa, columns, rows);
    lemma_shape_cells(shape, pa, columns, rows);
    assert(x1.index[pb] is None);
    assert forall|i: int| 0 <= i < cells.len() implies sent_from(
        #[trigger] cells[i],
        shape,
        x1.towers,
        x1.index,
    ) == sent_from(cells[i], shape, x2.towers, x2.index) by {
        assert(cells.contains(cells[i]));
        lemma_senders_after_placement(b, a, other, pa, pb, da, db, columns, rows, shape, cells[i]);
    }
    lemma_incoming_same(
        cells,
        cells.len() as int,
        shape,
        pa,
        x1.towers,
        x1.index,
        x2.towers,
        x2.index,
    );
}

/// A tower that no tower of the board sends a debuff to gets exactly the
/// debuff of the other tower in, if that one stands already and reaches
/// it.
proof fn lemma_incoming_reached(
    b: Board,
    a: Tower,
    other: Tower,
    pa: Cell,
    pb: Cell,
    da: Direction,
    db: Direction,
    columns: int,
    rows: int,
)
    requires
        board_ok(b.towers, b.index),
        b.towers.len() + 1 < usize::MAX,
        pa != pb,
        b.index[pa] is None,
        b.index[pb] is None,
        on_board(pa.0 as int, pa.1 as int, columns, rows),
        on_board(pb.0 as int, pb.1 as int, columns, rows),
        sends_to(other, pb, pa, columns, rows),
        quiet(b, a, pa, da, columns, rows),
    ensures
        all_incoming(
            pa,
            installed(board_after_placement(b, other, pb, db, columns, rows), a, pa, da).towers,
            installed(board_after_placement(b, other, pb, db, columns, rows), a, pa, da).index,
            columns,
            rows,
        ) == seq![AddDebuff { grid_pos: pa, debuff: other.debuff.effect() }],
{
    let n = b.towers.len() as int;
    let ba1 = board_after_placement(b, other, pb, db, columns, rows);
    let x1 = installed(b, a, pa, da);
    let x2 = installed(ba1, a, pa, da);
    lemma_in_shape_symmetric(other.debuff.shape(), pa, pb, columns, rows);
    lemma_quiet_mute(b, a, pa, da, columns, rows);
    assert forall|c: Cell| c != pb implies #[trigger] mute(
        c,
        pa,
        x2.towers,
        x2.index,
        columns,
        rows,
    ) by {
        assert(mute(c, pa, x1.towers, x1.index, columns, rows));
        if c != pa {
            lemma_senders_after_placement(
                b,
                a,
                other,
                pa,
                pb,
                da,
                db,
                columns,
                rows,
                Shape::Neighbours,
                c,
            );
            lemma_senders_after_placement(b, a, other, pa, pb, da, db, columns, rows, Shape::Row, c);
            lemma_senders_after_placement(
                b,
                a,
                other,
                pa,
                pb,
                da,
                db,
                columns,
                rows,
                Shape::Column,
                c,
            );
        }
    }
    lemma_incoming_from_one(pa, x2.towers, x2.index, columns, rows, pb);
    lemma_senders_after_placement(
        b,
        a,
        other,
        pa,
        pb,
        da,
        db,
        columns,
        rows,
        other.debuff.shape(),
        pb,
    );
    lemma_placement_effect(b, other, pb, db, columns, rows);
    assert(x2.index[pb] == Some(n as usize));
}

/// One half of [`lemma_placement_order_on_board`]: what becomes of the
/// tower `a`.
proof fn lemma_order_half(
    b: Board,
    a: Tower,
    other: Tower,
    pa: Cell,
    pb: Cell,
    da: Direction,
    db: Direction,
    columns: int,
    rows: int,
)
    requires
        board_ok(b.towers, b.index),
        b.towers.len() + 1 < usize::MAX,
        pa != pb,
        b.index[pa] is None,
        b.index[pb] is None,
        on_board(pa.0 as int, pa.1 as int, columns, rows),
        on_board(pb.0 as int, pb.1 as int, columns, rows),
        !sends_to(other, pb, pa, columns, rows) || quiet(b, a, pa, da, columns, rows),
    ensures
        board_after_placement(
            board_after_placement(b, a, pa, da, columns, rows),
            other,
            pb,
            db,
            columns,
            rows,
        ).towers[b.towers.len() as int] == board_after_placement(
            board_after_placement(b, other, pb, db, columns, rows),
            a,
            pa,
            da,
            columns,
            rows,
        ).towers[b.towers.len() as int + 1],
{
    let ba1 = board_after_placement(b, other, pb, db, columns, rows);
    let x1 = installed(b, a, pa, da);
    let x2 = installed(ba1, a, pa, da);
    let inc1 = all_incoming(pa, x1.towers, x1.index, columns, rows);
    let inc2 = all_incoming(pa, x2.towers, x2.index, columns, rows);
    let own = own_hit(a, pa, da);
    lemma_order_forms(b, a, other, pa, pb, da, db, columns, rows);
    if !sends_to(other, pb, pa, columns, rows) {
        lemma_incoming_unreached(b, a, other, pa, pb, da, db, columns, rows);
        assert(inc1 == inc2);
        assert(!in_shape(other.debuff.shape(), pb, pa, columns, rows));
    } else {
        lemma_incoming_reached(b, a, other, pa, pb, da, db, columns, rows);
        assert(inc1.len() == 0);
        assert(inc2.len() == 1);
        assert(hits_upto(own, inc1, 0) == own);
        assert(hits_upto(own, inc2, 0) == own);
        assert(hits_upto(own, inc2, 1) == hits_upto(own, inc2, 0).hit_by(inc2[0].debuff));
    }
}

/// Two towers placed on free cells of a board end up the same whichever
/// of them is placed first, as far as the debuffs that reach a tower do
/// not overlap:
///
/// - the tower `a` ends up the same if `b` does not reach it or it is the
///   only one that does;
/// - likewise the tower `b`;
/// - a tower that stood on the board before ends up the same if at most
///   one of the two reaches it.
///
/// Where two debuffs reach one tower, each cuts a percentage off what the
/// other has left, and what is lost to rounding depends on which comes
/// first.
pub proof fn lemma_placement_order_on_board(
    board: Board,
    a: Tower,
    b: Tower,
    pa: Cell,
    pb: Cell,
    da: Direction,
    db: Direction,
    columns: int,
    rows: int,
)
    requires
        board_ok(board.towers, board.index),
        board.towers.len() + 1 < usize::MAX,
        pa != pb,
        board.index[pa] is None,
        board.index[pb] is None,
        on_board(pa.0 as int, pa.1 as int, columns, rows),
        on_board(pb.0 as int, pb.1 as int, columns, rows),
    ensures
        !sends_to(b, pb, pa, columns, rows) || quiet(board, a, pa, da, columns, rows)
            ==> board_after_placement(
            board_after_placement(board, a, pa, da, columns, rows),
            b,
            pb,
            db,
            columns,
            rows,
        ).towers[board.towers.len() as int] == board_after_placement(
            board_after_placement(board, b, pb, db, columns, rows),
            a,
            pa,
            da,
            columns,
            rows,
        ).towers[board.towers.len() as int + 1],
        !sends_to(a, pa, pb, columns, rows) || quiet(board, b, pb, db, columns, rows)
            ==> board_after_placement(
            board_after_placement(board, a, pa, da, columns, rows),
            b,
            pb,
            db,
            columns,
            rows,
        ).towers[board.towers.len() as int + 1] == board_after_placement(
            board_after_placement(board, b, pb, db, columns, rows),
            a,
            pa,
            da,
            columns,
            rows,
        ).towers[board.towers.len() as int],
        forall|t: int|
            0 <= t < board.towers.len() && !(in_shape(
                a.debuff.shape(),
                pa,
                board.towers[t].grid_pos,
                columns,
                rows,
            ) && in_shape(b.debuff.shape(), pb, board.towers[t].grid_pos, columns, rows))
                ==> #[trigger] board_after_placement(
                board_after_placement(board, a, pa, da, columns, rows),
                b,
                pb,
                db,
                columns,
                rows,
            ).towers[t] == board_after_placement(
                board_after_placement(board, b, pb, db, columns, rows),
                a,
                pa,
                da,
                columns,
                rows,
            ).towers[t],
{
    if !sends_to(b, pb, pa, columns, rows) || quiet(board, a, pa, da, columns, rows) {
        lemma_order_half(board, a, b, pa, pb, da, db, columns, rows);
    }
    if !sends_to(a, pa, pb, columns, rows) || quiet(board, b, pb, db, columns, rows) {
        lemma_order_half(board, b, a, pb, pa, db, da, columns, rows);
    }
    assert forall|t: int|
        0 <= t < board.towers.len() && !(in_shape(
            a.debuff.shape(),
            pa,
            board.towers[t].grid_pos,
            columns,
            rows,
        ) && in_shape(b.debuff.shape(), pb, board.towers[t].grid_pos, columns, rows)) implies #[trigger] board_after_placement(
        board_after_placement(board, a, pa, da, columns, rows),
        b,
        pb,
        db,
        columns,
        rows,
    ).towers[t] == board_after_placement(
        board_after_placement(board, b, pb, db, columns, rows),
        a,
        pa,
        da,
        columns,
        rows,
    ).towers[t] by {
        lemma_order_standing(board, a, b, pa, pb, da, db, columns, rows, t);
    }
}

/// What two placements make of a tower that stood on the board before:
/// it is hit by the debuff of each of the two that reaches it, in the
/// order of the placements.
pub proof fn lemma_order_standing(
    board: Board,
    a: Tower,
    b: Tower,
    pa: Cell,
    pb: Cell,
    da: Direction,
    db: Direction,
    columns: int,
    rows: int,
    t: int,
)
    requires
        board_ok(board.towers, board.index),
        board.towers.len() + 1 < usize::MAX,
        pa != pb,
        board.index[pa] is None,
        board.index[pb] is None,
        0 <= t < board.towers.len(),
    ensures
        board_after_placement(
            board_after_placement(board, a, pa, da, columns, rows),
            b,
            pb,
            db,
            columns,
            rows,
        ).towers[t] == hit_if(
            hit_if(
                board.towers[t],
                in_shape(a.debuff.shape(), pa, board.towers[t].grid_pos, columns, rows),
                a.debuff.effect(),
            ),
            in_shape(b.debuff.shape(), pb, board.towers[t].grid_pos, columns, rows),
            b.debuff.effect(),
        ),
        board_after_placement(
            board_after_placement(board, b, pb, db, columns, rows),
            a,
            pa,
            da,
            columns,
            rows,
        ).towers[t] == hit_if(
            hit_if(
                board.towers[t],
                in_shape(b.debuff.shape(), pb, board.towers[t].grid_pos, columns, rows),
                b.debuff.effect(),
            ),
            in_shape(a.debuff.shape(), pa, board.towers[t].grid_pos, columns, rows),
            a.debuff.effect(),
        ),
{
    let ab1 = board_after_placement(board, a, pa, da, columns, rows);
    let ba1 = board_after_placement(board, b, pb, db, columns, rows);
    let here = board.towers[t].grid_pos;
    lemma_placement_effect(board, a, pa, da, columns, rows);
    lemma_placement_effect(board, b, pb, db, columns, rows);
    assert(ab1.index[pb] is None);
    assert(ba1.index[pa] is None);
    lemma_placement_effect(ab1, b, pb, db, columns, rows);
    lemma_placement_effect(ba1, a, pa, da, columns, rows);
    lemma_hit_if_keeps(
        board.towers[t],
        in_shape(a.debuff.shape(), pa, here, columns, rows),
        a.debuff.effect(),
    );
    lemma_hit_if_keeps(
        board.towers[t],
        in_shape(b.debuff.shape(), pb, here, columns, rows),
        b.debuff.effect(),
    );
    assert(ab1.towers[t].grid_pos == here);
    assert(ba1.towers[t].grid_pos == here);
}

} // verus!
