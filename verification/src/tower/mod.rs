//! Towers: their kinds, their stats, and what placing one does to the others.

pub mod charge_shot;
pub mod debuffs;
pub mod jammer;
pub mod laser;
pub mod missile;
pub mod order;
pub mod sniper;
pub mod targeting;

use vstd::prelude::*;
use crate::enemies::{only_hurt, Enemy};
use crate::geometry::{step_towards, stepped_towards};
use crate::grid::{Cell, GridMap, PlacementError};
use crate::rng::roll_inclusive;
use crate::timer::Timer;
use self::targeting::distance_sq;
use crate::units::{cooldown_ms, period_ms, reduce_by_percent, reduced};
use self::charge_shot::{spawn_charge_shot, ChargeShot, TURRET_RANGE};
use self::debuffs::{
    debuff_event_handler, debuffed_upto, AddDebuff, Debuff, Fitting, Overheatable, Shape,
    SpeedUpPoint,
};
use self::jammer::{jammer_zone, spawn_jammer};
use self::laser::{spawn_laser, Direction, Laser};
use self::missile::{spawn_silo, Silo};
use self::sniper::{spawn_sniper, Sniper, SNIPER_RANGE};

verus! {

/// The weapon a tower carries.
#[derive(Debug, Clone, Copy, PartialEq, Eq, Structural)]
pub enum TowerType {
    ChargeShot,
    Laser,
    Sniper,
    Jammer,
    Missile,
}

impl TowerType {
    /// The kind of tower that a roll of the nine-sided die stands for:
    /// three faces for the turret, two each for laser and sniper, one each
    /// for jammer and missile launcher.
    pub open spec fn of_roll(roll: u32) -> TowerType {
        if roll <= 2 {
            TowerType::ChargeShot
        } else if roll <= 4 {
            TowerType::Laser
        } else if roll <= 6 {
            TowerType::Sniper
        } else if roll == 7 {
            TowerType::Jammer
        } else {
            TowerType::Missile
        }
    }

    /// Computes [`TowerType::of_roll`].
    pub fn from_roll(roll: u32) -> (t: TowerType)
        ensures
            t == TowerType::of_roll(roll),
    {
        if roll <= 2 {
            TowerType::ChargeShot
        } else if roll <= 4 {
            TowerType::Laser
        } else if roll <= 6 {
            TowerType::Sniper
        } else if roll == 7 {
            TowerType::Jammer
        } else {
            TowerType::Missile
        }
    }

    /// The name shown to the player.
    pub fn name(&self) -> (s: &'static str)
        ensures
            s@ == match self {
                TowerType::ChargeShot => "Turret"@,
                TowerType::Laser => "Laser"@,
                TowerType::Sniper => "Sniper"@,
                TowerType::Jammer => "Signal Jammer"@,
                TowerType::Missile => "Missile Launcher"@,
            },
    {
        match self {
            TowerType::ChargeShot => "Turret",
            TowerType::Laser => "Laser",
            TowerType::Sniper => "Sniper",
            TowerType::Jammer => "Signal Jammer",
            TowerType::Missile => "Missile Launcher",
        }
    }

    /// One sentence on what the tower does.
    pub fn description(&self) -> (s: &'static str)
        ensures
            s@ == match self {
                TowerType::ChargeShot => "A tower that regularly shoots a projectile at the first enemy in range"@,
                TowerType::Laser => "A tower that shoots a continuous beam. Pierces enemies"@,
                TowerType::Sniper => "A long range tower with high damage but slow rate of fire"@,
                TowerType::Jammer => "Slows down enemies within 1 tile"@,
                TowerType::Missile => "Launches a high damage missile at the strongest enemy. Infinite range"@,
            },
    {
        match self {
            TowerType::ChargeShot => "A tower that regularly shoots a projectile at the first enemy in range",
            TowerType::Laser => "A tower that shoots a continuous beam. Pierces enemies",
            TowerType::Sniper => "A long range tower with high damage but slow rate of fire",
            TowerType::Jammer => "Slows down enemies within 1 tile",
            TowerType::Missile => "Launches a high damage missile at the strongest enemy. Infinite range",
        }
    }
}

/// How a tower picks its target among the enemies in range.
#[derive(Debug, Clone, Copy, PartialEq, Eq, Structural)]
pub enum TargetMode {
    /// The enemy that has come furthest along the path.
    First,
    /// The enemy nearest to the tower.
    Closest,
    /// Any enemy in range, picked at random.
    Random,
}

/// The stats of a tower.
#[derive(Debug, Clone, Copy, PartialEq, Eq, Structural)]
pub struct Tower {
    /// Health taken per hit, in thousandths.
    pub damage: u32,
    /// Shots per second, in thousandths.
    pub rate: u32,
    pub variant: TowerType,
    /// The side effect the tower radiates when it is placed.
    pub debuff: Debuff,
    /// While set, the tower does not fire.
    pub overheating: bool,
    pub target_mode: TargetMode,
}

impl Tower {
    /// A tower with the given stats that is not overheating and targets the
    /// enemy furthest along the path.
    pub open spec fn fresh(damage: u32, rate: u32, variant: TowerType, debuff: Debuff) -> Tower {
        Tower { damage, rate, variant, debuff, overheating: false, target_mode: TargetMode::First }
    }

    /// Creates a tower; see [`Tower::fresh`].
    pub fn new(damage: u32, rate: u32, variant: TowerType, debuff: Debuff) -> (t: Tower)
        ensures
            t == Tower::fresh(damage, rate, variant, debuff),
    {
        Tower { damage, rate, variant, debuff, overheating: false, target_mode: TargetMode::First }
    }

    /// Takes `percent` hundredths of the damage away; the damage does not
    /// fall below zero.
    pub fn reduce_damage_by(&mut self, percent: u32)
        ensures
            *final(self) == (Tower { damage: reduced(old(self).damage, percent), ..*old(self) }),
            final(self).damage <= old(self).damage,
    {
        self.damage = reduce_by_percent(self.damage, percent);
    }

    /// Takes `percent` hundredths of the rate away; the rate does not fall
    /// below zero.
    pub fn reduce_rate_by(&mut self, percent: u32)
        ensures
            *final(self) == (Tower { rate: reduced(old(self).rate, percent), ..*old(self) }),
            final(self).rate <= old(self).rate,
    {
        self.rate = reduce_by_percent(self.rate, percent);
    }

    /// The stats after `debuff` arrived at the tower. An immune tower is
    /// not changed by anything. Reductions lower damage or rate; an
    /// incompatibility halves the damage of the kind of tower it names and
    /// leaves the others alone; the targeting debuffs set the target mode.
    pub open spec fn debuffed(self, debuff: Debuff) -> Tower {
        if self.debuff == Debuff::Immune {
            self
        } else {
            match debuff {
                Debuff::ReduceNeighbourDamage(percent) => Tower {
                    damage: reduced(self.damage, percent),
                    ..self
                },
                Debuff::ReduceNeighbourRate(percent) => Tower {
                    rate: reduced(self.rate, percent),
                    ..self
                },
                Debuff::TurretIncompatible => if self.variant == TowerType::ChargeShot {
                    Tower { damage: reduced(self.damage, 50), ..self }
                } else {
                    self
                },
                Debuff::SniperIncompatible => if self.variant == TowerType::Sniper {
                    Tower { damage: reduced(self.damage, 50), ..self }
                } else {
                    self
                },
                Debuff::LaserIncompatible => if self.variant == TowerType::Laser {
                    Tower { damage: reduced(self.damage, 50), ..self }
                } else {
                    self
                },
                Debuff::MissileIncompatible => if self.variant == TowerType::Missile {
                    Tower { damage: reduced(self.damage, 50), ..self }
                } else {
                    self
                },
                Debuff::TargetClosest => Tower { target_mode: TargetMode::Closest, ..self },
                Debuff::TargetRandom => Tower { target_mode: TargetMode::Random, ..self },
                _ => self,
            }
        }
    }

    /// Applies `debuff` to the stats; see [`Tower::debuffed`].
    pub fn apply_debuff(&mut self, debuff: Debuff)
        ensures
            *final(self) == old(self).debuffed(debuff),
            final(self).damage <= old(self).damage,
            final(self).rate <= old(self).rate,
    {
        if self.debuff == Debuff::Immune {
            return ;
        }
        match debuff {
            Debuff::ReduceNeighbourDamage(percent) => self.reduce_damage_by(percent),
            Debuff::ReduceNeighbourRate(percent) => self.reduce_rate_by(percent),
            Debuff::TurretIncompatible => {
                if self.variant == TowerType::ChargeShot {
                    self.reduce_damage_by(50);
                }
            },
            Debuff::SniperIncompatible => {
                if self.variant == TowerType::Sniper {
                    self.reduce_damage_by(50);
                }
            },
            Debuff::LaserIncompatible => {
                if self.variant == TowerType::Laser {
                    self.reduce_damage_by(50);
                }
            },
            Debuff::MissileIncompatible => {
                if self.variant == TowerType::Missile {
                    self.reduce_damage_by(50);
                }
            },
            Debuff::TargetClosest => {
                self.target_mode = TargetMode::Closest;
            },
            Debuff::TargetRandom => {
                self.target_mode = TargetMode::Random;
            },
            _ => {},
        }
    }
}

/// The notification that a tower now stands on a cell.
#[derive(Debug, Clone, Copy, PartialEq, Eq)]
pub struct TowerPlaced {
    pub grid_pos: Cell,
}

/// The machinery a placed tower carries, one kind per kind of tower.
#[derive(Debug, Clone, Copy, PartialEq, Eq, Structural)]
pub enum Weapon {
    ChargeShot(ChargeShot),
    Laser(Laser),
    Sniper(Sniper),
    /// A jammer has no machinery; it acts through its speed zone.
    Jammer,
    Missile(Silo),
}

/// A tower on the board.
#[derive(Debug, Clone, Copy, PartialEq, Eq)]
pub struct PlacedTower {
    pub tower: Tower,
    /// The cell the tower stands on.
    pub grid_pos: Cell,
    pub weapon: Weapon,
    /// Present once the tower has been made liable to overheat.
    pub overheat: Option<Overheatable>,
}

/// Number of cells along an axis of `n` cells that a cell coordinate can
/// name.
pub open spec fn span(n: int) -> int {
    if n > 128 {
        128
    } else if n < 0 {
        0
    } else {
        n
    }
}

/// Whether `(x, y)` is a cell of a board of `columns` by `rows` cells.
pub open spec fn on_board(x: int, y: int, columns: int, rows: int) -> bool {
    0 <= x < span(columns) && 0 <= y < span(rows)
}

/// The `i`-th coordinate of an axis when `own` is left out.
pub open spec fn skip_own(i: int, own: int) -> int {
    if 0 <= own <= i {
        i + 1
    } else {
        i
    }
}

/// The cell at offset `(dx, dy)` from `pos`, if it is on the board.
pub open spec fn cell_beside(pos: Cell, dx: int, dy: int, columns: int, rows: int) -> Seq<Cell> {
    if on_board(pos.0 + dx, pos.1 + dy, columns, rows) {
        seq![((pos.0 + dx) as i8, (pos.1 + dy) as i8)]
    } else {
        Seq::empty()
    }
}

/// The cells of the board that share an edge with `pos`: above, below,
/// right, left.
pub open spec fn neighbour_cells(pos: Cell, columns: int, rows: int) -> Seq<Cell> {
    cell_beside(pos, 0, 1, columns, rows) + cell_beside(pos, 0, -1, columns, rows) + cell_beside(
        pos,
        1,
        0,
        columns,
        rows,
    ) + cell_beside(pos, -1, 0, columns, rows)
}

/// The cells of the row of `pos` other than `pos`, by rising column.
pub open spec fn row_cells(pos: Cell, columns: int) -> Seq<Cell> {
    Seq::new(
        (if 0 <= pos.0 < span(columns) {
            span(columns) - 1
        } else {
            span(columns)
        }) as nat,
        |i: int| (skip_own(i, pos.0 as int) as i8, pos.1),
    )
}

/// The cells of the column of `pos` other than `pos`, by rising row.
pub open spec fn column_cells(pos: Cell, rows: int) -> Seq<Cell> {
    Seq::new(
        (if 0 <= pos.1 < span(rows) {
            span(rows) - 1
        } else {
            span(rows)
        }) as nat,
        |i: int| (pos.0, skip_own(i, pos.1 as int) as i8),
    )
}

/// The cells that a debuff of the given shape spreads to from a tower on
/// `pos`, in the order in which they are visited.
pub open spec fn shape_cells(shape: Shape, pos: Cell, columns: int, rows: int) -> Seq<Cell> {
    match shape {
        Shape::Own => seq![pos],
        Shape::Neighbours => neighbour_cells(pos, columns, rows),
        Shape::Row => row_cells(pos, columns),
        Shape::Column => column_cells(pos, rows),
        Shape::Nowhere => Seq::empty(),
    }
}

/// Computes [`shape_cells`].
pub fn cells_of_shape(shape: Shape, pos: Cell, columns: usize, rows: usize) -> (cells: Vec<Cell>)
    ensures
        cells@ == shape_cells(shape, pos, columns as int, rows as int),
{
    let mut cells: Vec<Cell> = Vec::new();
    let w: i16 = if columns > 128 {
        128
    } else {
        columns as i16
    };
    let h: i16 = if rows > 128 {
        128
    } else {
        rows as i16
    };
    let x: i16 = pos.0 as i16;
    let y: i16 = pos.1 as i16;
    match shape {
        Shape::Own => {
            cells.push(pos);
        },
        Shape::Neighbours => {
            if 0 <= x && x < w && 0 <= y + 1 && y + 1 < h {
                cells.push((pos.0, (y + 1) as i8));
            }
            if 0 <= x && x < w && 0 <= y - 1 && y - 1 < h {
                cells.push((pos.0, (y - 1) as i8));
            }
            if 0 <= x + 1 && x + 1 < w && 0 <= y && y < h {
                cells.push(((x + 1) as i8, pos.1));
            }
            if 0 <= x - 1 && x - 1 < w && 0 <= y && y < h {
                cells.push(((x - 1) as i8, pos.1));
            }
        },
        Shape::Row => {
            let mut i: i16 = 0;
            while i < w
                invariant
                    0 <= i <= w,
                    w == span(columns as int),
                    x == pos.0,
                    cells@ =~= Seq::new(
                        (if 0 <= x < i {
                            i - 1
                        } else {
                            i as int
                        }) as nat,
                        |j: int| (skip_own(j, pos.0 as int) as i8, pos.1),
                    ),
                decreases w - i,
            {
                if i != x {
                    cells.push((i as i8, pos.1));
                }
                i = i + 1;
            }
        },
        Shape::Column => {
            let mut i: i16 = 0;
            while i < h
                invariant
                    0 <= i <= h,
                    h == span(rows as int),
                    y == pos.1,
                    cells@ =~= Seq::new(
                        (if 0 <= y < i {
                            i - 1
                        } else {
                            i as int
                        }) as nat,
                        |j: int| (pos.0, skip_own(j, pos.1 as int) as i8),
                    ),
                decreases h - i,
            {
                if i != y {
                    cells.push((pos.0, i as i8));
                }
                i = i + 1;
            }
        },
        Shape::Nowhere => {},
    }
    cells
}

/// One event for each of `cells`, each carrying `debuff`.
pub open spec fn events_for(cells: Seq<Cell>, debuff: Debuff) -> Seq<AddDebuff> {
    Seq::new(cells.len(), |i: int| AddDebuff { grid_pos: cells[i], debuff })
}

/// The events by which a tower with `debuff` on `pos` acts on the cells
/// of its shape.
pub open spec fn outgoing_events(debuff: Debuff, pos: Cell, columns: int, rows: int) -> Seq<
    AddDebuff,
> {
    events_for(shape_cells(debuff.shape(), pos, columns, rows), debuff.effect())
}

/// The debuff that the tower on cell `c` sends to a tower it stands in
/// relation `shape` to, if there is such a tower and its debuff spreads in
/// that shape.
pub open spec fn sent_from(
    c: Cell,
    shape: Shape,
    towers: Seq<PlacedTower>,
    tower_index: Map<Cell, Option<usize>>,
) -> Option<Debuff> {
    match tower_index[c] {
        Some(t) => if t < towers.len() && towers[t as int].tower.debuff.shape() == shape {
            Some(towers[t as int].tower.debuff.effect())
        } else {
            None
        },
        None => None,
    }
}

/// The events by which the towers on the first `k` of `cells` act on the
/// tower on `pos`.
pub open spec fn incoming_upto(
    cells: Seq<Cell>,
    k: int,
    shape: Shape,
    pos: Cell,
    towers: Seq<PlacedTower>,
    tower_index: Map<Cell, Option<usize>>,
) -> Seq<AddDebuff>
    decreases k,
{
    if k <= 0 {
        Seq::empty()
    } else {
        let before = incoming_upto(cells, k - 1, shape, pos, towers, tower_index);
        match sent_from(cells[k - 1], shape, towers, tower_index) {
            Some(debuff) => before.push(AddDebuff { grid_pos: pos, debuff }),
            None => before,
        }
    }
}

/// The events by which the towers that stand in relation `shape` to `pos`
/// act on the tower on `pos`.
pub open spec fn incoming_events(
    shape: Shape,
    pos: Cell,
    towers: Seq<PlacedTower>,
    tower_index: Map<Cell, Option<usize>>,
    columns: int,
    rows: int,
) -> Seq<AddDebuff> {
    incoming_upto(
        shape_cells(shape, pos, columns, rows),
        shape_cells(shape, pos, columns, rows).len() as int,
        shape,
        pos,
        towers,
        tower_index,
    )
}

/// All events that the placement of a tower with `debuff` on `pos` gives
/// rise to: first what the new tower sends out, then what its neighbours,
/// its row and its column send to it.
pub open spec fn placement_events(
    debuff: Debuff,
    pos: Cell,
    towers: Seq<PlacedTower>,
    tower_index: Map<Cell, Option<usize>>,
    columns: int,
    rows: int,
) -> Seq<AddDebuff> {
    outgoing_events(debuff, pos, columns, rows) + incoming_events(
        Shape::Neighbours,
        pos,
        towers,
        tower_index,
        columns,
        rows,
    ) + incoming_events(Shape::Row, pos, towers, tower_index, columns, rows) + incoming_events(
        Shape::Column,
        pos,
        towers,
        tower_index,
        columns,
        rows,
    )
}

fn push_outgoing(events: &mut Vec<AddDebuff>, debuff: Debuff, pos: Cell, columns: usize, rows: usize)
    ensures
        final(events)@ == old(events)@ + outgoing_events(debuff, pos, columns as int, rows as int),
{
    let cells = cells_of_shape(debuff.reach(), pos, columns, rows);
    let effect = debuff.delivered();
    let ghost before = events@;
    let mut i: usize = 0;
    while i < cells.len()
        invariant
            i <= cells.len(),
            events@ =~= before + events_for(cells@.take(i as int), effect),
        decreases cells.len() - i,
    {
        events.push(AddDebuff { grid_pos: cells[i], debuff: effect });
        i = i + 1;
    }
}

fn push_incoming(
    events: &mut Vec<AddDebuff>,
    shape: Shape,
    pos: Cell,
    towers: &Vec<PlacedTower>,
    map: &GridMap,
)
    ensures
        final(events)@ == old(events)@ + incoming_events(
            shape,
            pos,
            towers@,
            map.tower_index(),
            map.columns(),
            map.rows(),
        ),
{
    let cells = cells_of_shape(shape, pos, map.width(), map.height());
    let ghost before = events@;
    let mut i: usize = 0;
    while i < cells.len()
        invariant
            i <= cells.len(),
            events@ =~= before + incoming_upto(
                cells@,
                i as int,
                shape,
                pos,
                towers@,
                map.tower_index(),
            ),
        decreases cells.len() - i,
    {
        match map.tower_at(cells[i]) {
            Some(t) => {
                if t < towers.len() {
                    let debuff = towers[t].tower.debuff;
                    if debuff.reach() == shape {
                        events.push(AddDebuff { grid_pos: pos, debuff: debuff.delivered() });
                    }
                }
            },
            None => {},
        }
        i = i + 1;
    }
}

/// Works out what the placement of a tower sets off: the events by which
/// the new tower acts on the cells of its debuff's shape, and the events
/// by which the towers already standing next to it, in its row and in its
/// column act on it.
pub fn handle_tower_placement(event: &TowerPlaced, towers: &Vec<PlacedTower>, map: &GridMap) -> (events:
    Vec<AddDebuff>)
    requires
        map.tower_in(event.grid_pos) is Some,
        map.tower_in(event.grid_pos).unwrap() < towers@.len(),
    ensures
        events@ == placement_events(
            towers@[map.tower_in(event.grid_pos).unwrap() as int].tower.debuff,
            event.grid_pos,
            towers@,
            map.tower_index(),
            map.columns(),
            map.rows(),
        ),
{
    let pos = event.grid_pos;
    let t = map.tower_at(pos).unwrap();
    let debuff = towers[t].tower.debuff;
    let mut events: Vec<AddDebuff> = Vec::new();
    push_outgoing(&mut events, debuff, pos, map.width(), map.height());
    push_incoming(&mut events, Shape::Neighbours, pos, towers, map);
    push_incoming(&mut events, Shape::Row, pos, towers, map);
    push_incoming(&mut events, Shape::Column, pos, towers, map);
    events
}

/// Whether a weapon whose timer stands at `timer` fires within the next
/// `dt` milliseconds.
pub open spec fn fires(timer: Timer, dt: u32) -> bool {
    timer.ticked(dt as u64).finished
}

/// The timer of a weapon after `dt` milliseconds: it runs on, and when it
/// fires it starts again with the period of the tower's rate as it is
/// then, whether or not a shot follows.
pub open spec fn cooled(timer: Timer, dt: u32, rate: u32) -> Timer {
    if fires(timer, dt) {
        Timer::new_spec(period_ms(rate))
    } else {
        timer.ticked(dt as u64)
    }
}

/// Runs the timer of a weapon for `dt` milliseconds and says whether the
/// weapon fires; see [`cooled`].
pub fn cool_down(timer: &mut Timer, dt: u32, rate: u32) -> (fired: bool)
    ensures
        fired == fires(*old(timer), dt),
        *final(timer) == cooled(*old(timer), dt, rate),
{
    timer.tick(dt as u64);
    if timer.finished() {
        timer.set_duration(cooldown_ms(rate));
        timer.reset();
        true
    } else {
        false
    }
}

/// A projectile in flight.
#[derive(Debug, Clone, Copy, PartialEq, Eq, Structural)]
pub struct Projectile {
    /// Health taken on impact, in thousandths.
    pub damage: u32,
    /// Thousandths of a unit per second.
    pub speed: u32,
    /// The enemy the projectile flies at.
    pub target: usize,
    /// World position.
    pub x: i32,
    pub y: i32,
}

/// The projectiles among the first `k` of `shots`, in order.
pub open spec fn launched(shots: Seq<Option<Projectile>>, k: int) -> Seq<Projectile>
    decreases k,
{
    if k <= 0 {
        Seq::empty()
    } else {
        match shots[k - 1] {
            Some(p) => launched(shots, k - 1).push(p),
            None => launched(shots, k - 1),
        }
    }
}

/// Shots that agree on their first `k` entries launch the same projectiles
/// from them.
pub proof fn lemma_launched_prefix(a: Seq<Option<Projectile>>, b: Seq<Option<Projectile>>, k: int)
    requires
        0 <= k <= a.len(),
        k <= b.len(),
        forall|i: int| 0 <= i < k ==> a[i] == b[i],
    ensures
        launched(a, k) == launched(b, k),
    decreases k,
{
    if k > 0 {
        lemma_launched_prefix(a, b, k - 1);
    }
}

/// Distance below which a projectile or missile hits its target, in
/// thousandths of a unit.
pub const HIT_RADIUS: i64 = 15000;

/// Whether `(x, y)` is within hitting distance of `(ex, ey)`.
pub open spec fn hits(x: i32, y: i32, ex: i32, ey: i32) -> bool {
    distance_sq(x as int, y as int, ex as int, ey as int) < HIT_RADIUS * HIT_RADIUS
}

/// Computes [`hits`].
pub fn in_hit_range(x: i32, y: i32, ex: i32, ey: i32) -> (b: bool)
    ensures
        b == hits(x, y, ex, ey),
{
    let dx: i64 = x as i64 - ex as i64;
    let dy: i64 = y as i64 - ey as i64;
    if dx >= HIT_RADIUS || dx <= -HIT_RADIUS || dy >= HIT_RADIUS || dy <= -HIT_RADIUS {
        assert(dx * dx + dy * dy >= 15000 * 15000) by (nonlinear_arith)
            requires
                dx >= 15000 || dx <= -15000 || dy >= 15000 || dy <= -15000,
        ;
        false
    } else {
        assert(0 <= dx * dx <= 15000 * 15000 && 0 <= dy * dy <= 15000 * 15000) by (nonlinear_arith)
            requires
                -15000 < dx < 15000,
                -15000 < dy < 15000,
        ;
        dx * dx + dy * dy < HIT_RADIUS * HIT_RADIUS
    }
}

/// Distance flown in `dt` milliseconds at `speed` thousandths of a unit
/// per second.
pub open spec fn flight(speed: u32, dt: u32) -> u64 {
    ((speed as int) * (dt as int) / 1000) as u64
}

/// Computes [`flight`].
pub fn flight_of(speed: u32, dt: u32) -> (d: u64)
    ensures
        d == flight(speed, dt),
{
    assert(0 <= (speed as int) * (dt as int) <= 0xffff_ffff * 0xffff_ffff) by (nonlinear_arith)
        requires
            0 <= speed <= 0xffff_ffff,
            0 <= dt <= 0xffff_ffff,
    ;
    (speed as u64) * (dt as u64) / 1000
}

/// The enemies and the projectiles that stay in flight while projectiles
/// are moved.
pub struct Volley {
    pub enemies: Seq<Option<Enemy>>,
    pub flying: Seq<Projectile>,
}

/// One projectile moved for `dt` milliseconds. While its target lives it
/// flies straight towards it; if that brings it within hitting distance,
/// it takes its damage from the target and is gone. A projectile whose
/// target no longer lives is gone without effect.
pub open spec fn fly_one(v: Volley, p: Projectile, dt: u32) -> Volley {
    if p.target < v.enemies.len() && v.enemies[p.target as int] is Some {
        let e = v.enemies[p.target as int].unwrap();
        let to = stepped_towards(p.x, p.y, e.x, e.y, flight(p.speed, dt));
        if hits(to.0, to.1, e.x, e.y) {
            Volley { enemies: v.enemies.update(p.target as int, Some(e.hurt(p.damage))), ..v }
        } else {
            Volley { flying: v.flying.push(Projectile { x: to.0, y: to.1, ..p }), ..v }
        }
    } else {
        v
    }
}

/// The first `k` projectiles moved, in order.
pub open spec fn flown(v: Volley, projectiles: Seq<Projectile>, k: int, dt: u32) -> Volley
    decreases k,
{
    if k <= 0 {
        v
    } else {
        fly_one(flown(v, projectiles, k - 1, dt), projectiles[k - 1], dt)
    }
}

/// Moves every projectile for `dt` milliseconds; see [`fly_one`]. The
/// projectiles that remain are those still in flight, in their old order.
/// Enemies only ever lose health by it.
pub fn handle_projectiles(
    projectiles: &mut Vec<Projectile>,
    enemies: &mut Vec<Option<Enemy>>,
    dt: u32,
)
    ensures
        (Volley { enemies: final(enemies)@, flying: final(projectiles)@ }) == flown(
            Volley { enemies: old(enemies)@, flying: Seq::empty() },
            old(projectiles)@,
            old(projectiles)@.len() as int,
            dt,
        ),
        only_hurt(old(enemies)@, final(enemies)@),
{
    let mut flying: Vec<Projectile> = Vec::new();
    let mut i: usize = 0;
    while i < projectiles.len()
        invariant
            i <= projectiles.len(),
            projectiles@ == old(projectiles)@,
            (Volley { enemies: enemies@, flying: flying@ }) == flown(
                Volley { enemies: old(enemies)@, flying: Seq::empty() },
                old(projectiles)@,
                i as int,
                dt,
            ),
            only_hurt(old(enemies)@, enemies@),
        decreases projectiles.len() - i,
    {
        let p = projectiles[i];
        if p.target < enemies.len() {
            match enemies[p.target] {
                Some(e) => {
                    let mut e = e;
                    let to = step_towards(p.x, p.y, e.x, e.y, flight_of(p.speed, dt));
                    if in_hit_range(to.0, to.1, e.x, e.y) {
                        e.take_damage(p.damage);
                        enemies.set(p.target, Some(e));
                    } else {
                        flying.push(
                            Projectile {
                                damage: p.damage,
                                speed: p.speed,
                                target: p.target,
                                x: to.0,
                                y: to.1,
                            },
                        );
                    }
                },
                None => {},
            }
        }
        i = i + 1;
    }
    *projectiles = flying;
}

/// Number of times a debuff is drawn anew for a tower it does not suit
/// before the tower is given immunity instead.
pub const REROLLS: u32 = 1000;

/// Least damage of a random turret, in hundredths.
pub const TURRET_DAMAGE_MIN: u32 = 30;

/// Greatest damage of a random turret, in hundredths.
pub const TURRET_DAMAGE_MAX: u32 = 50;

impl Tower {
    /// Whether a tower of kind `variant` can have `debuff`. Lasers, missile
    /// launchers and jammers pick no target, so the targeting debuffs do
    /// not suit them; a jammer, which slows enemies down and never fires,
    /// cannot speed them up or overheat either.
    pub open spec fn compatible(variant: TowerType, debuff: Debuff) -> bool {
        match variant {
            TowerType::ChargeShot => true,
            TowerType::Sniper => true,
            TowerType::Laser => debuff != Debuff::TargetClosest && debuff != Debuff::TargetRandom,
            TowerType::Missile => debuff != Debuff::TargetClosest && debuff != Debuff::TargetRandom,
            TowerType::Jammer => debuff != Debuff::TargetClosest && debuff != Debuff::TargetRandom
                && debuff != Debuff::Overheat && !(debuff is MoveSpeedUp),
        }
    }

    /// Computes [`Tower::compatible`].
    pub fn suits(variant: TowerType, debuff: Debuff) -> (b: bool)
        ensures
            b == Tower::compatible(variant, debuff),
    {
        let targeting = match debuff {
            Debuff::TargetClosest => true,
            Debuff::TargetRandom => true,
            _ => false,
        };
        let jamming = match debuff {
            Debuff::Overheat => true,
            Debuff::MoveSpeedUp(_) => true,
            _ => false,
        };
        match variant {
            TowerType::ChargeShot => true,
            TowerType::Sniper => true,
            TowerType::Laser => !targeting,
            TowerType::Missile => !targeting,
            TowerType::Jammer => !targeting && !jamming,
        }
    }

    /// The tower of kind `variant` as it comes out of the factory. Only a
    /// turret's damage varies: it is `damage_roll` hundredths, held at the
    /// largest `u32`.
    pub open spec fn stock(variant: TowerType, damage_roll: u32, debuff: Debuff) -> Tower {
        match variant {
            TowerType::ChargeShot => Tower::fresh(
                if damage_roll * 10 > u32::MAX {
                    u32::MAX
                } else {
                    (damage_roll * 10) as u32
                },
                1800,
                variant,
                debuff,
            ),
            TowerType::Laser => Tower::fresh(160, 4000, variant, debuff),
            TowerType::Sniper => Tower::fresh(3000, 300, variant, debuff),
            TowerType::Jammer => Tower::fresh(0, 0, variant, debuff),
            TowerType::Missile => Tower::fresh(8000, 135, variant, debuff),
        }
    }

    /// Builds the tower that [`Tower::stock`] describes.
    pub fn assemble(variant: TowerType, damage_roll: u32, debuff: Debuff) -> (t: Tower)
        ensures
            t == Tower::stock(variant, damage_roll, debuff),
    {
        match variant {
            TowerType::ChargeShot => Tower::new(
                if damage_roll > u32::MAX / 10 {
                    u32::MAX
                } else {
                    damage_roll * 10
                },
                1800,
                variant,
                debuff,
            ),
            TowerType::Laser => Tower::new(160, 4000, variant, debuff),
            TowerType::Sniper => Tower::new(3000, 300, variant, debuff),
            TowerType::Jammer => Tower::new(0, 0, variant, debuff),
            TowerType::Missile => Tower::new(8000, 135, variant, debuff),
        }
    }

    /// Whether the tower can come out of [`Tower::new_random`]: it has the
    /// stats of its kind, and its debuff suits its kind and is one that
    /// can be drawn, or immunity.
    pub open spec fn is_random_stock(self) -> bool {
        &&& Tower::compatible(self.variant, self.debuff)
        &&& self.debuff.drawable() || self.debuff == Debuff::Immune
        &&& exists|damage_roll: u32|
            TURRET_DAMAGE_MIN <= damage_roll <= TURRET_DAMAGE_MAX && self == #[trigger] Tower::stock(
                self.variant,
                damage_roll,
                self.debuff,
            )
    }

    /// Draws a debuff that suits a tower of kind `variant`: draws again
    /// while the debuff does not suit, and settles for immunity after
    /// [`REROLLS`] draws.
    pub fn draw_debuff(variant: TowerType) -> (d: Debuff)
        ensures
            Tower::compatible(variant, d),
            d.drawable() || d == Debuff::Immune,
    {
        let mut tries: u32 = 0;
        while tries < REROLLS
            invariant
                tries <= REROLLS,
            decreases REROLLS - tries,
        {
            let d = Debuff::random();
            if Tower::suits(variant, d) {
                return d;
            }
            tries = tries + 1;
        }
        Debuff::Immune
    }

    /// Draws a tower: a roll of the die picks the kind, a turret gets its
    /// damage drawn, and the debuff is drawn to suit the kind.
    pub fn new_random() -> (t: Tower)
        ensures
            t.is_random_stock(),
    {
        let variant = TowerType::from_roll(roll_inclusive(0, 8));
        let damage_roll = roll_inclusive(TURRET_DAMAGE_MIN, TURRET_DAMAGE_MAX);
        let debuff = Tower::draw_debuff(variant);
        let t = Tower::assemble(variant, damage_roll, debuff);
        t
    }
}

/// The towers and the tower index agree: every cell of the index names a
/// tower that stands on that cell, and every tower is found under its
/// cell.
pub open spec fn board_ok(towers: Seq<PlacedTower>, tower_index: Map<Cell, Option<usize>>) -> bool {
    &&& towers.len() <= usize::MAX
    &&& forall|c: Cell| tower_index.contains_key(c)
    &&& forall|c: Cell| (#[trigger] tower_index[c]) is Some ==> tower_index[c].unwrap() < towers.len()
            && towers[tower_index[c].unwrap() as int].grid_pos == c
    &&& forall|t: int| 0 <= t < towers.len() ==> tower_index[(#[trigger] towers[t]).grid_pos] == Some(
            t as usize,
        )
}

/// Puts `tower` with `weapon` on the free cell `grid_pos`: it becomes the
/// last tower and the tower index names it under its cell.
pub(crate) fn install(
    tower: Tower,
    grid_pos: Cell,
    weapon: Weapon,
    towers: &mut Vec<PlacedTower>,
    map: &mut GridMap,
) -> (event: TowerPlaced)
    requires
        old(map).buildable(grid_pos),
    ensures
        event.grid_pos == grid_pos,
        final(towers)@ == old(towers)@.push(
            PlacedTower { tower, grid_pos, weapon, overheat: None },
        ),
        final(map).tower_index() == old(map).tower_index().insert(
            grid_pos,
            Some(old(towers)@.len() as usize),
        ),
        final(map).same_ground(old(map)),
        final(map).enemies == old(map).enemies,
        board_ok(old(towers)@, old(map).tower_index()) ==> board_ok(
            final(towers)@,
            final(map).tower_index(),
        ),
{
    let id = towers.len();
    let placed = map.place_tower(grid_pos, id);
    towers.push(PlacedTower { tower, grid_pos, weapon, overheat: None });
    assert(towers.len() == id + 1);
    TowerPlaced { grid_pos }
}

/// The machinery that a tower gets when it is placed; `direction` is
/// where a laser's beam points.
pub open spec fn weapon_for(tower: Tower, direction: Direction) -> Weapon {
    match tower.variant {
        TowerType::ChargeShot => Weapon::ChargeShot(
            ChargeShot { range: TURRET_RANGE, timer: Timer::new_spec(period_ms(tower.rate)) },
        ),
        TowerType::Laser => Weapon::Laser(
            Laser { direction, timer: Timer::new_spec(period_ms(tower.rate)) },
        ),
        TowerType::Sniper => Weapon::Sniper(
            Sniper { range: SNIPER_RANGE, timer: Timer::new_spec(period_ms(tower.rate)) },
        ),
        TowerType::Jammer => Weapon::Jammer,
        TowerType::Missile => Weapon::Missile(
            Silo { timer: Timer::new_spec(period_ms(tower.rate)) },
        ),
    }
}

/// The towers, the speed zones and the tower index of a board.
pub struct Board {
    pub towers: Seq<PlacedTower>,
    pub points: Seq<SpeedUpPoint>,
    pub index: Map<Cell, Option<usize>>,
}

/// The board after `tower` was put on the free cell `pos`, before any
/// debuff acts: the tower is the last one, the index names it, and a
/// jammer has opened its speed zone.
pub open spec fn installed(b: Board, tower: Tower, pos: Cell, direction: Direction) -> Board {
    Board {
        towers: b.towers.push(
            PlacedTower { tower, grid_pos: pos, weapon: weapon_for(tower, direction), overheat: None },
        ),
        points: if tower.variant == TowerType::Jammer {
            b.points.push(jammer_zone(pos))
        } else {
            b.points
        },
        index: b.index.insert(pos, Some(b.towers.len() as usize)),
    }
}

/// The board after `tower` was placed on the free cell `pos` of a grid of
/// `columns` by `rows` cells: the tower is installed, then every event of
/// its placement acts, in order.
pub open spec fn board_after_placement(
    b: Board,
    tower: Tower,
    pos: Cell,
    direction: Direction,
    columns: int,
    rows: int,
) -> Board {
    let at = installed(b, tower, pos, direction);
    let events = placement_events(tower.debuff, pos, at.towers, at.index, columns, rows);
    let fitted = debuffed_upto(
        Fitting { towers: at.towers, points: at.points },
        events,
        events.len() as int,
        at.index,
    );
    Board { towers: fitted.towers, points: fitted.points, index: at.index }
}

/// Places `tower` on cell `pos` and lets the debuffs act: the tower's own
/// on the towers it reaches, and those of the towers around it on the
/// tower. A laser's beam points in `direction`. A cell that cannot take a
/// tower rejects the placement, and nothing changes.
pub fn place_tower(
    tower: Tower,
    pos: Cell,
    direction: Direction,
    towers: &mut Vec<PlacedTower>,
    map: &mut GridMap,
    speed_up_points: &mut Vec<SpeedUpPoint>,
) -> (r: Result<TowerPlaced, PlacementError>)
    ensures
        final(map).same_ground(old(map)),
        final(map).enemies == old(map).enemies,
        r is Ok <==> old(map).buildable(pos),
        r == Err::<TowerPlaced, PlacementError>(PlacementError::AlreadyOccupied) <==> old(
            map,
        ).tower_in(pos) is Some,
        r is Err ==> final(towers)@ == old(towers)@ && final(speed_up_points)@ == old(
            speed_up_points,
        )@ && final(map).placements == old(map).placements,
        r is Ok ==> r.unwrap().grid_pos == pos && (Board {
            towers: final(towers)@,
            points: final(speed_up_points)@,
            index: final(map).tower_index(),
        }) == board_after_placement(
            Board {
                towers: old(towers)@,
                points: old(speed_up_points)@,
                index: old(map).tower_index(),
            },
            tower,
            pos,
            direction,
            old(map).columns(),
            old(map).rows(),
        ),
        board_ok(old(towers)@, old(map).tower_index()) ==> board_ok(
            final(towers)@,
            final(map).tower_index(),
        ),
{
    if map.tower_at(pos).is_some() {
        return Err(PlacementError::AlreadyOccupied);
    }
    if !map.is_valid_placement(pos) {
        return Err(PlacementError::NotBuildable);
    }
    let id = towers.len();
    let event = match tower.variant {
        TowerType::ChargeShot => spawn_charge_shot(tower, pos, towers, map),
        TowerType::Laser => spawn_laser(tower, pos, direction, towers, map),
        TowerType::Sniper => spawn_sniper(tower, pos, towers, map),
        TowerType::Jammer => spawn_jammer(tower, pos, towers, map, speed_up_points),
        TowerType::Missile => spawn_silo(tower, pos, towers, map),
    };
    assert(map.tower_index()[pos] == map.tower_in(pos));
    let events = handle_tower_placement(&event, towers, map);
    debuff_event_handler(&events, towers, map, speed_up_points);
    Ok(event)
}

} // verus!
