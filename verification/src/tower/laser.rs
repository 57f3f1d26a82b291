//! The laser: a beam along one of the four directions of the grid.

use vstd::prelude::*;
use crate::enemies::{consistent, filed, only_hurt, Enemy};
use crate::grid::{Cell, GridMap};
use crate::timer::Timer;
use crate::tower::{
    board_ok, cool_down, cooled, fires, install, span, PlacedTower, Tower, TowerPlaced, Weapon,
};
use crate::units::{cooldown_ms, period_ms};

verus! {

/// The direction of a beam. `Up` is towards higher rows.
#[derive(Debug, Clone, Copy, PartialEq, Eq, Structural)]
pub enum Direction {
    Up,
    Down,
    Left,
    Right,
}

impl Direction {
    /// The direction a quarter turn further: up, right, down, left, up.
    pub open spec fn turned(self) -> Direction {
        match self {
            Direction::Up => Direction::Right,
            Direction::Right => Direction::Down,
            Direction::Down => Direction::Left,
            Direction::Left => Direction::Up,
        }
    }
}

/// The emitter of a laser tower.
#[derive(Debug, Clone, Copy, PartialEq, Eq, Structural)]
pub struct Laser {
    pub direction: Direction,
    /// Counts down to the next firing.
    pub timer: Timer,
}

impl Laser {
    /// An emitter pointing in `direction` whose first firing is due after
    /// one period of `rate` thousandths of a firing per second.
    pub fn new(direction: Direction, rate: u32) -> (l: Laser)
        ensures
            l == (Laser { direction, timer: Timer::new_spec(period_ms(rate)) }),
    {
        Laser { direction, timer: Timer::new(cooldown_ms(rate)) }
    }

    /// Turns the beam by a quarter turn.
    pub fn toggle_direction(&mut self)
        ensures
            *final(self) == (Laser { direction: old(self).direction.turned(), ..*old(self) }),
    {
        self.direction = match self.direction {
            Direction::Up => Direction::Right,
            Direction::Right => Direction::Down,
            Direction::Down => Direction::Left,
            Direction::Left => Direction::Up,
        }
    }
}

/// `n`, or zero if `n` is negative.
pub open spec fn at_least_zero(n: int) -> nat {
    if n < 0 {
        0
    } else {
        n as nat
    }
}

/// The cells that a beam from a tower on `pos` crosses: every cell from
/// the one next to the tower to the edge of the grid, nearest first.
pub open spec fn beam_cells(pos: Cell, direction: Direction, columns: int, rows: int) -> Seq<Cell> {
    match direction {
        Direction::Up => Seq::new(
            at_least_zero(span(rows) - (pos.1 + 1)),
            |i: int| (pos.0, (pos.1 + 1 + i) as i8),
        ),
        Direction::Down => Seq::new(
            at_least_zero(pos.1 as int),
            |i: int| (pos.0, (pos.1 - 1 - i) as i8),
        ),
        Direction::Left => Seq::new(
            at_least_zero(pos.0 as int),
            |i: int| ((pos.0 - 1 - i) as i8, pos.1),
        ),
        Direction::Right => Seq::new(
            at_least_zero(span(columns) - (pos.0 + 1)),
            |i: int| ((pos.0 + 1 + i) as i8, pos.1),
        ),
    }
}

/// Computes [`beam_cells`].
pub fn beam(pos: Cell, direction: Direction, columns: usize, rows: usize) -> (cells: Vec<Cell>)
    ensures
        cells@ == beam_cells(pos, direction, columns as int, rows as int),
{
    let w: i16 = if columns > 128 {
        128
    } else {
        columns as i16
    };
    let h: i16 = if rows > 128 {
        128
    } else {
        rows as i16
    };
    let x: i16 = pos.0 as i16;
    let y: i16 = pos.1 as i16;
    let mut cells: Vec<Cell> = Vec::new();
    match direction {
        Direction::Up => {
            let mut cy: i16 = y + 1;
            while cy < h
                invariant
                    y + 1 <= cy,
                    cy <= h || cells@.len() == 0,
                    -128 <= y <= 127,
                    h <= 128,
                    cells@ =~= Seq::new(
                        (cy - (y + 1)) as nat,
                        |i: int| (pos.0, (pos.1 + 1 + i) as i8),
                    ),
                    y == pos.1,
                decreases h - cy,
            {
                cells.push((pos.0, cy as i8));
                cy = cy + 1;
            }
        },
        Direction::Down => {
            let mut cy: i16 = y - 1;
            while cy >= 0
                invariant
                    -1 <= cy <= y - 1 || cells@.len() == 0,
                    cy <= y - 1,
                    -128 <= y <= 127,
                    cells@ =~= Seq::new((y - 1 - cy) as nat, |i: int| (pos.0, (pos.1 - 1 - i) as i8)),
                    y == pos.1,
                decreases cy + 1,
            {
                cells.push((pos.0, cy as i8));
                cy = cy - 1;
            }
        },
        Direction::Left => {
            let mut cx: i16 = x - 1;
            while cx >= 0
                invariant
                    -1 <= cx <= x - 1 || cells@.len() == 0,
                    cx <= x - 1,
                    -128 <= x <= 127,
                    cells@ =~= Seq::new((x - 1 - cx) as nat, |i: int| ((pos.0 - 1 - i) as i8, pos.1)),
                    x == pos.0,
                decreases cx + 1,
            {
                cells.push((cx as i8, pos.1));
                cx = cx - 1;
            }
        },
        Direction::Right => {
            let mut cx: i16 = x + 1;
            while cx < w
                invariant
                    x + 1 <= cx,
                    cx <= w || cells@.len() == 0,
                    -128 <= x <= 127,
                    w <= 128,
                    cells@ =~= Seq::new(
                        (cx - (x + 1)) as nat,
                        |i: int| ((pos.0 + 1 + i) as i8, pos.1),
                    ),
                    x == pos.0,
                decreases w - cx,
            {
                cells.push((cx as i8, pos.1));
                cx = cx + 1;
            }
        },
    }
    cells
}

/// The enemies after the living ones among the first `k` handles of a
/// bucket each lost `damage`.
pub open spec fn burn_bucket(
    enemies: Seq<Option<Enemy>>,
    bucket: Seq<usize>,
    k: int,
    damage: u32,
) -> Seq<Option<Enemy>>
    decreases k,
{
    if k <= 0 {
        enemies
    } else {
        let before = burn_bucket(enemies, bucket, k - 1, damage);
        let id = bucket[k - 1];
        if id < before.len() && before[id as int] is Some {
            before.update(id as int, Some(before[id as int].unwrap().hurt(damage)))
        } else {
            before
        }
    }
}

/// The enemies after every enemy filed under one of the first `k` of
/// `cells` lost `damage`.
pub open spec fn burn_cells(
    enemies: Seq<Option<Enemy>>,
    cells: Seq<Cell>,
    k: int,
    index: Map<Cell, Seq<usize>>,
    damage: u32,
) -> Seq<Option<Enemy>>
    decreases k,
{
    if k <= 0 {
        enemies
    } else {
        burn_bucket(
            burn_cells(enemies, cells, k - 1, index, damage),
            index[cells[k - 1]],
            index[cells[k - 1]].len() as int,
            damage,
        )
    }
}

/// An enemy after a beam that crosses `cells` took `damage` from whatever
/// is filed under them.
pub open spec fn burnt(slot: Option<Enemy>, cells: Seq<Cell>, damage: u32) -> Option<Enemy> {
    match slot {
        Some(e) => if cells.contains(e.current_grid_pos) {
            Some(e.hurt(damage))
        } else {
            Some(e)
        },
        None => None,
    }
}

/// What burning the first `n` handles of a bucket does: where the bucket
/// names no handle twice and all its handles live, each of those enemies
/// loses the damage once, and nothing else changes.
pub proof fn lemma_burn_bucket(
    enemies: Seq<Option<Enemy>>,
    bucket: Seq<usize>,
    n: int,
    damage: u32,
)
    requires
        0 <= n <= bucket.len(),
        enemies.len() <= usize::MAX,
        bucket.no_duplicates(),
        forall|i: int|
            0 <= i < bucket.len() ==> (#[trigger] bucket[i]) < enemies.len()
                && enemies[bucket[i] as int] is Some,
    ensures
        burn_bucket(enemies, bucket, n, damage).len() == enemies.len(),
        forall|e: int|
            0 <= e < enemies.len() ==> #[trigger] burn_bucket(enemies, bucket, n, damage)[e]
                == if bucket.take(n).contains(e as usize) {
                Some(enemies[e].unwrap().hurt(damage))
            } else {
                enemies[e]
            },
    decreases n,
{
    if n > 0 {
        lemma_burn_bucket(enemies, bucket, n - 1, damage);
        let before = burn_bucket(enemies, bucket, n - 1, damage);
        let after = burn_bucket(enemies, bucket, n, damage);
        let id = bucket[n - 1];
        let head = bucket.take(n - 1);
        let upto = bucket.take(n);
        assert(!head.contains(id)) by {
            if head.contains(id) {
                let j = choose|j: int| 0 <= j < head.len() && head[j] == id;
                assert(bucket[j] == bucket[n - 1]);
            }
        }
        assert(before[id as int] == enemies[id as int]);
        assert forall|e: int| 0 <= e < enemies.len() implies #[trigger] after[e] == if upto.contains(
            e as usize,
        ) {
            Some(enemies[e].unwrap().hurt(damage))
        } else {
            enemies[e]
        } by {
            if e == id {
                assert(upto[n - 1] == id);
            } else {
                if upto.contains(e as usize) {
                    let j = choose|j: int| 0 <= j < upto.len() && upto[j] == e as usize;
                    assert(head[j] == e as usize);
                }
                if head.contains(e as usize) {
                    let j = choose|j: int| 0 <= j < head.len() && head[j] == e as usize;
                    assert(upto[j] == e as usize);
                }
            }
        }
    } else {
        assert(bucket.take(0).len() == 0);
    }
}

/// What a beam does to each enemy: with a consistent index, an enemy
/// filed under one of the cells that the beam crosses loses the damage
/// once, and every other enemy stays as it is.
pub proof fn lemma_burn_cells(
    enemies: Seq<Option<Enemy>>,
    cells: Seq<Cell>,
    k: int,
    index: Map<Cell, Seq<usize>>,
    damage: u32,
)
    requires
        consistent(enemies, index),
        cells.no_duplicates(),
        0 <= k <= cells.len(),
    ensures
        burn_cells(enemies, cells, k, index, damage).len() == enemies.len(),
        forall|e: int|
            0 <= e < enemies.len() ==> #[trigger] burn_cells(enemies, cells, k, index, damage)[e]
                == burnt(enemies[e], cells.take(k), damage),
    decreases k,
{
    if k > 0 {
        lemma_burn_cells(enemies, cells, k - 1, index, damage);
        let before = burn_cells(enemies, cells, k - 1, index, damage);
        let after = burn_cells(enemies, cells, k, index, damage);
        let cell = cells[k - 1];
        let bucket = index[cell];
        let head = cells.take(k - 1);
        let upto = cells.take(k);
        assert(!head.contains(cell)) by {
            if head.contains(cell) {
                let j = choose|j: int| 0 <= j < head.len() && head[j] == cell;
                assert(cells[j] == cells[k - 1]);
            }
        }
        assert forall|i: int| 0 <= i < bucket.len() implies (#[trigger] bucket[i]) < before.len()
            && before[bucket[i] as int] is Some by {
            assert(filed(enemies, index[cell][i], cell));
        }
        lemma_burn_bucket(before, bucket, bucket.len() as int, damage);
        assert(bucket.take(bucket.len() as int) == bucket);
        assert forall|e: int| 0 <= e < enemies.len() implies #[trigger] after[e] == burnt(
            enemies[e],
            upto,
            damage,
        ) by {
            assert(before[e] == burnt(enemies[e], head, damage));
            if bucket.contains(e as usize) {
                let i = choose|i: int| 0 <= i < bucket.len() && bucket[i] == e as usize;
                assert(filed(enemies, index[cell][i], cell));
                assert(upto[k - 1] == cell);
            } else if enemies[e] is Some {
                let here = enemies[e].unwrap().current_grid_pos;
                if here == cell {
                    assert(index[here].contains(e as usize));
                }
                if upto.contains(here) {
                    let j = choose|j: int| 0 <= j < upto.len() && upto[j] == here;
                    assert(head[j] == here);
                }
                if head.contains(here) {
                    let j = choose|j: int| 0 <= j < head.len() && head[j] == here;
                    assert(upto[j] == here);
                }
            }
        }
    } else {
        assert forall|e: int| 0 <= e < enemies.len() implies #[trigger] burn_cells(
            enemies,
            cells,
            k,
            index,
            damage,
        )[e] == burnt(enemies[e], cells.take(k), damage) by {
            if enemies[e] is Some {
                assert(!cells.take(0).contains(enemies[e].unwrap().current_grid_pos));
            }
        }
    }
}

/// A beam crosses no cell twice.
pub proof fn lemma_beam_cells_distinct(pos: Cell, direction: Direction, columns: int, rows: int)
    ensures
        beam_cells(pos, direction, columns, rows).no_duplicates(),
{
    let cells = beam_cells(pos, direction, columns, rows);
    assert forall|i: int, j: int| 0 <= i < cells.len() && 0 <= j < cells.len() && i != j implies cells[i]
        != cells[j] by {
        match direction {
            Direction::Up => {
                assert(cells[i].1 == (pos.1 + 1 + i) as i8 && cells[j].1 == (pos.1 + 1 + j) as i8);
            },
            Direction::Down => {
                assert(cells[i].1 == (pos.1 - 1 - i) as i8 && cells[j].1 == (pos.1 - 1 - j) as i8);
            },
            Direction::Left => {
                assert(cells[i].0 == (pos.0 - 1 - i) as i8 && cells[j].0 == (pos.0 - 1 - j) as i8);
            },
            Direction::Right => {
                assert(cells[i].0 == (pos.0 + 1 + i) as i8 && cells[j].0 == (pos.0 + 1 + j) as i8);
            },
        }
    }
}

/// A laser tower after its emitter ran for `dt` milliseconds; other towers
/// are not touched.
pub open spec fn laser_after(placed: PlacedTower, dt: u32) -> PlacedTower {
    match placed.weapon {
        Weapon::Laser(laser) => PlacedTower {
            weapon: Weapon::Laser(
                Laser { timer: cooled(laser.timer, dt, placed.tower.rate), ..laser },
            ),
            ..placed
        },
        _ => placed,
    }
}

/// The enemies after tower `placed` had its turn: a laser that fires and
/// is not overheating takes its damage from every enemy its beam crosses.
pub open spec fn laser_fire_one(
    enemies: Seq<Option<Enemy>>,
    placed: PlacedTower,
    index: Map<Cell, Seq<usize>>,
    columns: int,
    rows: int,
    dt: u32,
) -> Seq<Option<Enemy>> {
    match placed.weapon {
        Weapon::Laser(laser) => if fires(laser.timer, dt) && !placed.tower.overheating {
            let cells = beam_cells(placed.grid_pos, laser.direction, columns, rows);
            burn_cells(enemies, cells, cells.len() as int, index, placed.tower.damage)
        } else {
            enemies
        },
        _ => enemies,
    }
}

/// What the turn of one tower does to each enemy: if the tower is a laser
/// that fires and is not overheating, every enemy filed under a cell of
/// its beam loses the tower's damage once; otherwise nothing happens.
pub proof fn lemma_laser_fire_one(
    enemies: Seq<Option<Enemy>>,
    placed: PlacedTower,
    index: Map<Cell, Seq<usize>>,
    columns: int,
    rows: int,
    dt: u32,
)
    requires
        consistent(enemies, index),
    ensures
        laser_fire_one(enemies, placed, index, columns, rows, dt).len() == enemies.len(),
        forall|e: int|
            0 <= e < enemies.len() ==> #[trigger] laser_fire_one(
                enemies,
                placed,
                index,
                columns,
                rows,
                dt,
            )[e] == match placed.weapon {
                Weapon::Laser(laser) => if fires(laser.timer, dt) && !placed.tower.overheating {
                    burnt(
                        enemies[e],
                        beam_cells(placed.grid_pos, laser.direction, columns, rows),
                        placed.tower.damage,
                    )
                } else {
                    enemies[e]
                },
                _ => enemies[e],
            },
{
    match placed.weapon {
        Weapon::Laser(laser) => {
            let cells = beam_cells(placed.grid_pos, laser.direction, columns, rows);
            lemma_beam_cells_distinct(placed.grid_pos, laser.direction, columns, rows);
            lemma_burn_cells(enemies, cells, cells.len() as int, index, placed.tower.damage);
            assert(cells.take(cells.len() as int) == cells);
        },
        _ => {},
    }
}

/// The enemies after the first `k` towers had their turns, in order.
pub open spec fn lasered(
    enemies: Seq<Option<Enemy>>,
    towers: Seq<PlacedTower>,
    k: int,
    index: Map<Cell, Seq<usize>>,
    columns: int,
    rows: int,
    dt: u32,
) -> Seq<Option<Enemy>>
    decreases k,
{
    if k <= 0 {
        enemies
    } else {
        laser_fire_one(
            lasered(enemies, towers, k - 1, index, columns, rows, dt),
            towers[k - 1],
            index,
            columns,
            rows,
            dt,
        )
    }
}

fn burn(
    enemies: &mut Vec<Option<Enemy>>,
    cells: &Vec<Cell>,
    map: &GridMap,
    damage: u32,
)
    ensures
        final(enemies)@ == burn_cells(
            old(enemies)@,
            cells@,
            cells@.len() as int,
            map.enemy_index(),
            damage,
        ),
        only_hurt(old(enemies)@, final(enemies)@),
{
    let mut c: usize = 0;
    while c < cells.len()
        invariant
            c <= cells.len(),
            enemies@ == burn_cells(old(enemies)@, cells@, c as int, map.enemy_index(), damage),
            only_hurt(old(enemies)@, enemies@),
        decreases cells.len() - c,
    {
        let ghost at_cell = enemies@;
        match map.enemies_at(cells[c]) {
            None => {},
            Some(bucket) => {
                let mut k: usize = 0;
                while k < bucket.len()
                    invariant
                        k <= bucket.len(),
                        enemies@ == burn_bucket(at_cell, bucket@, k as int, damage),
                        only_hurt(old(enemies)@, enemies@),
                    decreases bucket.len() - k,
                {
                    let id = bucket[k];
                    if id < enemies.len() {
                        match enemies[id] {
                            Some(e) => {
                                let mut e = e;
                                e.take_damage(damage);
                                enemies.set(id, Some(e));
                            },
                            None => {},
                        }
                    }
                    k = k + 1;
                }
            },
        }
        c = c + 1;
    }
}

/// Runs every laser for `dt` milliseconds. A laser that fires takes its
/// damage from every enemy filed under a cell its beam crosses, all at
/// once; enemies only ever lose health by it.
pub fn shoot(
    towers: &mut Vec<PlacedTower>,
    enemies: &mut Vec<Option<Enemy>>,
    map: &GridMap,
    dt: u32,
)
    ensures
        final(towers)@.len() == old(towers)@.len(),
        forall|t: int|
            0 <= t < old(towers)@.len() ==> #[trigger] final(towers)@[t] == laser_after(
                old(towers)@[t],
                dt,
            ),
        final(enemies)@ == lasered(
            old(enemies)@,
            old(towers)@,
            old(towers)@.len() as int,
            map.enemy_index(),
            map.columns(),
            map.rows(),
            dt,
        ),
        only_hurt(old(enemies)@, final(enemies)@),
{
    let n = towers.len();
    let mut t: usize = 0;
    while t < n
        invariant
            t <= n,
            towers@.len() == n,
            n == old(towers)@.len(),
            forall|u: int| t <= u < n ==> towers@[u] == old(towers)@[u],
            forall|u: int| 0 <= u < t ==> #[trigger] towers@[u] == laser_after(old(towers)@[u], dt),
            enemies@ == lasered(
                old(enemies)@,
                old(towers)@,
                t as int,
                map.enemy_index(),
                map.columns(),
                map.rows(),
                dt,
            ),
            only_hurt(old(enemies)@, enemies@),
        decreases n - t,
    {
        let mut placed = towers[t];
        match placed.weapon {
            Weapon::Laser(laser) => {
                let mut timer = laser.timer;
                let fired = cool_down(&mut timer, dt, placed.tower.rate);
                placed.weapon = Weapon::Laser(Laser { direction: laser.direction, timer });
                towers.set(t, placed);
                if fired && !placed.tower.overheating {
                    let cells = beam(placed.grid_pos, laser.direction, map.width(), map.height());
                    let ghost before = enemies@;
                    burn(enemies, &cells, map, placed.tower.damage);
                }
            },
            _ => {},
        }
        t = t + 1;
    }
}

/// Places `tower` on the free cell `grid_pos` as a laser whose beam points
/// in `direction`. The tower becomes the last of `towers` and the map
/// names it under its cell.
pub fn spawn_laser(
    tower: Tower,
    grid_pos: Cell,
    direction: Direction,
    towers: &mut Vec<PlacedTower>,
    map: &mut GridMap,
) -> (event: TowerPlaced)
    requires
        old(map).buildable(grid_pos),
    ensures
        event.grid_pos == grid_pos,
        final(towers)@ == old(towers)@.push(
            PlacedTower {
                tower,
                grid_pos,
                weapon: Weapon::Laser(
                    Laser { direction, timer: Timer::new_spec(period_ms(tower.rate)) },
                ),
                overheat: None,
            },
        ),
        final(map).tower_index() == old(map).tower_index().insert(
            grid_pos,
            Some(old(towers)@.len() as usize),
        ),
        final(map).same_ground(old(map)),
        final(map).enemies == old(map).enemies,
        board_ok(old(towers)@, old(map).tower_index()) ==> board_ok(
            final(towers)@,
            final(map).tower_index(),
        ),
{
    install(tower, grid_pos, Weapon::Laser(Laser::new(direction, tower.rate)), towers, map)
}

} // verus!
