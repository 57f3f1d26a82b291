//! The side effects that towers radiate when they are placed.

use vstd::prelude::*;
use crate::gameplay::WaveState;
use crate::grid::{Cell, GridMap};
use crate::rng::roll_inclusive;
use crate::text::{around, with_number};
use crate::timer::Timer;
use crate::tower::PlacedTower;
use crate::units::{grid_to_world, world_coord};

verus! {

/// The request to let `debuff` act on whatever tower stands on `grid_pos`.
#[derive(Debug, Clone, Copy, PartialEq, Eq)]
pub struct AddDebuff {
    pub grid_pos: Cell,
    pub debuff: Debuff,
}

/// The clock of a tower that is liable to overheat: it runs down to the
/// next change between working and overheating.
#[derive(Debug, Clone, Copy, PartialEq, Eq, Structural)]
pub struct Overheatable(pub Timer);

/// The side effect of a tower. Each kind spreads in one shape: to the
/// tower itself, to its four neighbours, along its row or along its column.
/// The numbers are percentages.
#[derive(Debug, Clone, Copy, PartialEq, Eq, Structural)]
pub enum Debuff {
    MoveSpeedUp(u32),
    ReduceNeighbourDamage(u32),
    ReduceRowDamage(u32),
    ReduceColumnDamage(u32),
    ReduceNeighbourRate(u32),
    ReduceRowRate(u32),
    ReduceColumnRate(u32),
    Overheat,
    RowOverheat,
    ColumnOverheat,
    TurretIncompatible,
    SniperIncompatible,
    LaserIncompatible,
    MissileIncompatible,
    TargetClosest,
    TargetRandom,
    Immune,
}

/// The cells that a debuff spreads to, seen from the tower that has it.
#[derive(Debug, Clone, Copy, PartialEq, Eq, Structural)]
pub enum Shape {
    /// Only the tower itself.
    Own,
    /// The four cells that share an edge with the tower's cell.
    Neighbours,
    /// Every other cell of the tower's row.
    Row,
    /// Every other cell of the tower's column.
    Column,
    /// No cell at all.
    Nowhere,
}

impl Debuff {
    /// The shape in which the debuff spreads.
    pub open spec fn shape(self) -> Shape {
        match self {
            Debuff::MoveSpeedUp(_) => Shape::Own,
            Debuff::Overheat => Shape::Own,
            Debuff::TargetClosest => Shape::Own,
            Debuff::TargetRandom => Shape::Own,
            Debuff::ReduceNeighbourDamage(_) => Shape::Neighbours,
            Debuff::ReduceNeighbourRate(_) => Shape::Neighbours,
            Debuff::TurretIncompatible => Shape::Neighbours,
            Debuff::SniperIncompatible => Shape::Neighbours,
            Debuff::LaserIncompatible => Shape::Neighbours,
            Debuff::MissileIncompatible => Shape::Neighbours,
            Debuff::RowOverheat => Shape::Row,
            Debuff::ReduceRowDamage(_) => Shape::Row,
            Debuff::ReduceRowRate(_) => Shape::Row,
            Debuff::ColumnOverheat => Shape::Column,
            Debuff::ReduceColumnDamage(_) => Shape::Column,
            Debuff::ReduceColumnRate(_) => Shape::Column,
            Debuff::Immune => Shape::Nowhere,
        }
    }

    /// What arrives at a tower the debuff spreads to: the row and column
    /// kinds arrive as the plain kind, every other kind as itself.
    pub open spec fn effect(self) -> Debuff {
        match self {
            Debuff::RowOverheat => Debuff::Overheat,
            Debuff::ColumnOverheat => Debuff::Overheat,
            Debuff::ReduceRowDamage(percent) => Debuff::ReduceNeighbourDamage(percent),
            Debuff::ReduceColumnDamage(percent) => Debuff::ReduceNeighbourDamage(percent),
            Debuff::ReduceRowRate(percent) => Debuff::ReduceNeighbourRate(percent),
            Debuff::ReduceColumnRate(percent) => Debuff::ReduceNeighbourRate(percent),
            other => other,
        }
    }

    /// Computes [`Debuff::shape`].
    pub fn reach(&self) -> (s: Shape)
        ensures
            s == self.shape(),
    {
        match self {
            Debuff::MoveSpeedUp(_) => Shape::Own,
            Debuff::Overheat => Shape::Own,
            Debuff::TargetClosest => Shape::Own,
            Debuff::TargetRandom => Shape::Own,
            Debuff::ReduceNeighbourDamage(_) => Shape::Neighbours,
            Debuff::ReduceNeighbourRate(_) => Shape::Neighbours,
            Debuff::TurretIncompatible => Shape::Neighbours,
            Debuff::SniperIncompatible => Shape::Neighbours,
            Debuff::LaserIncompatible => Shape::Neighbours,
            Debuff::MissileIncompatible => Shape::Neighbours,
            Debuff::RowOverheat => Shape::Row,
            Debuff::ReduceRowDamage(_) => Shape::Row,
            Debuff::ReduceRowRate(_) => Shape::Row,
            Debuff::ColumnOverheat => Shape::Column,
            Debuff::ReduceColumnDamage(_) => Shape::Column,
            Debuff::ReduceColumnRate(_) => Shape::Column,
            Debuff::Immune => Shape::Nowhere,
        }
    }

    /// Computes [`Debuff::effect`].
    pub fn delivered(&self) -> (d: Debuff)
        ensures
            d == self.effect(),
    {
        match self {
            Debuff::RowOverheat => Debuff::Overheat,
            Debuff::ColumnOverheat => Debuff::Overheat,
            Debuff::ReduceRowDamage(percent) => Debuff::ReduceNeighbourDamage(*percent),
            Debuff::ReduceColumnDamage(percent) => Debuff::ReduceNeighbourDamage(*percent),
            Debuff::ReduceRowRate(percent) => Debuff::ReduceNeighbourRate(*percent),
            Debuff::ReduceColumnRate(percent) => Debuff::ReduceNeighbourRate(*percent),
            other => *other,
        }
    }
}

/// Radius within which a speed zone acts on an enemy, in thousandths of a
/// world unit: one and a half cells.
pub const ZONE_RADIUS: i64 = 48000;

/// A zone that changes the speed of the enemies near it.
#[derive(Debug, Clone, Copy, PartialEq, Eq, Structural)]
pub struct SpeedUpPoint {
    /// Change of speed in percent; negative values slow enemies down.
    pub percent: i32,
    /// World position of the centre of the zone.
    pub x: i32,
    pub y: i32,
}

impl SpeedUpPoint {
    /// Whether the zone reaches the world position `(x, y)`.
    pub open spec fn reaches(self, x: int, y: int) -> bool {
        (self.x - x) * (self.x - x) + (self.y - y) * (self.y - y) <= ZONE_RADIUS * ZONE_RADIUS
    }

    /// Computes [`SpeedUpPoint::reaches`].
    pub fn is_near(&self, x: i32, y: i32) -> (b: bool)
        ensures
            b == self.reaches(x as int, y as int),
    {
        let dx: i64 = self.x as i64 - x as i64;
        let dy: i64 = self.y as i64 - y as i64;
        let r: i64 = ZONE_RADIUS;
        if dx > r || dx < -r || dy > r || dy < -r {
            assert(!self.reaches(x as int, y as int)) by (nonlinear_arith)
                requires
                    dx == self.x - x,
                    dy == self.y - y,
                    dx > 48000 || dx < -48000 || dy > 48000 || dy < -48000,
                    ZONE_RADIUS == 48000,
                    self.reaches(x as int, y as int) == (dx * dx + dy * dy <= ZONE_RADIUS
                        * ZONE_RADIUS),
            ;
            false
        } else {
            assert(dx * dx >= 0 && dy * dy >= 0 && dx * dx <= 48000 * 48000 && dy * dy <= 48000 * 48000) by (nonlinear_arith)
                requires
                    -48000 <= dx <= 48000,
                    -48000 <= dy <= 48000,
            ;
            dx * dx + dy * dy <= r * r
        }
    }
}

/// Sum of the percentages of those among the first `k` zones that reach
/// `(x, y)`.
pub open spec fn zone_bonus(points: Seq<SpeedUpPoint>, x: int, y: int, k: int) -> int
    decreases k,
{
    if k <= 0 {
        0
    } else {
        zone_bonus(points, x, y, k - 1) + if points[k - 1].reaches(x, y) {
            points[k - 1].percent as int
        } else {
            0
        }
    }
}

/// Computes [`zone_bonus`] over all zones.
pub fn zone_bonus_at(points: &Vec<SpeedUpPoint>, x: i32, y: i32) -> (bonus: i128)
    ensures
        bonus == zone_bonus(points@, x as int, y as int, points@.len() as int),
{
    let mut bonus: i128 = 0;
    let mut i: usize = 0;
    while i < points.len()
        invariant
            i <= points.len(),
            bonus == zone_bonus(points@, x as int, y as int, i as int),
            -(i as int) * 0x8000_0000 <= bonus <= (i as int) * 0x8000_0000,
        decreases points.len() - i,
    {
        if points[i].is_near(x, y) {
            bonus = bonus + points[i].percent as i128;
        }
        i = i + 1;
    }
    bonus
}

/// Milliseconds from the moment a tower becomes liable to overheat to its
/// first overheating.
pub const OVERHEAT_DELAY: u64 = 20000;

/// Milliseconds that an overheating lasts.
pub const OVERHEAT_TIME: u64 = 8000;

/// The percentage of a speed-up debuff as a speed zone holds it.
pub open spec fn zone_percent(percent: u32) -> i32 {
    if percent > i32::MAX {
        i32::MAX
    } else {
        percent as i32
    }
}

impl PlacedTower {
    /// The tower after `debuff` arrived at it: its stats change as
    /// [`crate::tower::Tower::debuffed`] says, and an overheat debuff makes a tower that
    /// is not immune liable to overheat, with a fresh clock.
    pub open spec fn hit_by(self, debuff: Debuff) -> PlacedTower {
        PlacedTower {
            tower: self.tower.debuffed(debuff),
            overheat: if self.tower.debuff != Debuff::Immune && debuff == Debuff::Overheat {
                Some(Overheatable(Timer::new_spec(OVERHEAT_DELAY)))
            } else {
                self.overheat
            },
            ..self
        }
    }

    /// The speed zone that `debuff` opens when it arrives at this tower on
    /// cell `pos`: a speed-up debuff opens one at the centre of the cell,
    /// unless the tower is immune.
    pub open spec fn zone_opened(self, debuff: Debuff, pos: Cell) -> Option<SpeedUpPoint> {
        match debuff {
            Debuff::MoveSpeedUp(percent) => if self.tower.debuff != Debuff::Immune {
                Some(
                    SpeedUpPoint {
                        percent: zone_percent(percent),
                        x: world_coord(pos.0 as int) as i32,
                        y: world_coord(pos.1 as int) as i32,
                    },
                )
            } else {
                None
            },
            _ => None,
        }
    }
}

/// The towers and the speed zones while debuffs are applied.
pub struct Fitting {
    pub towers: Seq<PlacedTower>,
    pub points: Seq<SpeedUpPoint>,
}

/// One event applied: it acts on the tower that stands on its cell, and
/// is lost where no tower stands.
pub open spec fn debuff_one(
    f: Fitting,
    event: AddDebuff,
    tower_index: Map<Cell, Option<usize>>,
) -> Fitting {
    match tower_index[event.grid_pos] {
        Some(t) => if t < f.towers.len() {
            Fitting {
                towers: f.towers.update(t as int, f.towers[t as int].hit_by(event.debuff)),
                points: match f.towers[t as int].zone_opened(event.debuff, event.grid_pos) {
                    Some(zone) => f.points.push(zone),
                    None => f.points,
                },
            }
        } else {
            f
        },
        None => f,
    }
}

/// The first `k` events applied, in order.
pub open spec fn debuffed_upto(
    f: Fitting,
    events: Seq<AddDebuff>,
    k: int,
    tower_index: Map<Cell, Option<usize>>,
) -> Fitting
    decreases k,
{
    if k <= 0 {
        f
    } else {
        debuff_one(debuffed_upto(f, events, k - 1, tower_index), events[k - 1], tower_index)
    }
}

/// Applies the events in order, each to the tower on its cell. Towers keep
/// their cells and weapons, and no damage or rate ever goes up.
pub fn debuff_event_handler(
    events: &Vec<AddDebuff>,
    towers: &mut Vec<PlacedTower>,
    map: &GridMap,
    speed_up_points: &mut Vec<SpeedUpPoint>,
)
    ensures
        (Fitting { towers: final(towers)@, points: final(speed_up_points)@ }) == debuffed_upto(
            Fitting { towers: old(towers)@, points: old(speed_up_points)@ },
            events@,
            events@.len() as int,
            map.tower_index(),
        ),
        final(towers)@.len() == old(towers)@.len(),
        forall|t: int|
            0 <= t < final(towers)@.len() ==> {
                &&& (#[trigger] final(towers)@[t]).grid_pos == old(towers)@[t].grid_pos
                &&& final(towers)@[t].weapon == old(towers)@[t].weapon
                &&& final(towers)@[t].tower.damage <= old(towers)@[t].tower.damage
                &&& final(towers)@[t].tower.rate <= old(towers)@[t].tower.rate
                &&& final(towers)@[t].tower.debuff == old(towers)@[t].tower.debuff
                &&& final(towers)@[t].tower.variant == old(towers)@[t].tower.variant
            },
{
    let ghost start = Fitting { towers: towers@, points: speed_up_points@ };
    let mut i: usize = 0;
    while i < events.len()
        invariant
            i <= events.len(),
            towers@.len() == old(towers)@.len(),
            start.towers == old(towers)@,
            (Fitting { towers: towers@, points: speed_up_points@ }) == debuffed_upto(
                start,
                events@,
                i as int,
                map.tower_index(),
            ),
            forall|t: int|
                0 <= t < towers@.len() ==> {
                    &&& (#[trigger] towers@[t]).grid_pos == old(towers)@[t].grid_pos
                    &&& towers@[t].weapon == old(towers)@[t].weapon
                    &&& towers@[t].tower.damage <= old(towers)@[t].tower.damage
                    &&& towers@[t].tower.rate <= old(towers)@[t].tower.rate
                    &&& towers@[t].tower.debuff == old(towers)@[t].tower.debuff
                    &&& towers@[t].tower.variant == old(towers)@[t].tower.variant
                },
        decreases events.len() - i,
    {
        let event = events[i];
        match map.tower_at(event.grid_pos) {
            Some(t) => {
                if t < towers.len() {
                    let mut placed = towers[t];
                    let immune = placed.tower.debuff == Debuff::Immune;
                    placed.tower.apply_debuff(event.debuff);
                    if !immune {
                        match event.debuff {
                            Debuff::MoveSpeedUp(percent) => {
                                speed_up_points.push(
                                    SpeedUpPoint {
                                        percent: if percent > i32::MAX as u32 {
                                            i32::MAX
                                        } else {
                                            percent as i32
                                        },
                                        x: grid_to_world(event.grid_pos.0 as i16),
                                        y: grid_to_world(event.grid_pos.1 as i16),
                                    },
                                );
                            },
                            Debuff::Overheat => {
                                placed.overheat = Some(Overheatable(Timer::new(OVERHEAT_DELAY)));
                            },
                            _ => {},
                        }
                    }
                    towers.set(t, placed);
                }
            },
            None => {},
        }
        i = i + 1;
    }
}

/// Least number of milliseconds that a tower works between two
/// overheatings.
pub const REST_MIN: u32 = 10000;

/// Number of milliseconds over which the time between two overheatings
/// varies.
pub const REST_SPREAD: u32 = 60000;

impl PlacedTower {
    /// The tower after `dt` milliseconds of its overheat clock. When the
    /// clock runs out, a working tower starts to overheat for
    /// [`OVERHEAT_TIME`], and an overheating tower works again for `rest`
    /// milliseconds. A tower that is not liable to overheat does not
    /// change.
    pub open spec fn heated(self, dt: u32, rest: u64) -> PlacedTower {
        match self.overheat {
            Some(Overheatable(timer)) => if timer.ticked(dt as u64).just_finished {
                if self.tower.overheating {
                    PlacedTower {
                        tower: crate::tower::Tower { overheating: false, ..self.tower },
                        overheat: Some(Overheatable(Timer::new_spec(rest))),
                        ..self
                    }
                } else {
                    PlacedTower {
                        tower: crate::tower::Tower { overheating: true, ..self.tower },
                        overheat: Some(Overheatable(Timer::new_spec(OVERHEAT_TIME))),
                        ..self
                    }
                }
            } else {
                PlacedTower { overheat: Some(Overheatable(timer.ticked(dt as u64))), ..self }
            },
            None => self,
        }
    }

    /// Runs the overheat clock for `dt` milliseconds; `rest` is the time
    /// for which the tower works again if it stops overheating now. See
    /// [`PlacedTower::heated`].
    pub fn heat(&mut self, dt: u32, rest: u64)
        ensures
            *final(self) == old(self).heated(dt, rest),
    {
        match self.overheat {
            Some(Overheatable(timer)) => {
                let mut timer = timer;
                timer.tick(dt as u64);
                if timer.just_finished() {
                    if self.tower.overheating {
                        self.tower.overheating = false;
                        timer.set_duration(rest);
                    } else {
                        self.tower.overheating = true;
                        timer.set_duration(OVERHEAT_TIME);
                    }
                    timer.reset();
                }
                self.overheat = Some(Overheatable(timer));
            },
            None => {},
        }
    }
}

/// Whether `after` is `before` after `dt` milliseconds of its overheat
/// clock, with a time to work again between [`REST_MIN`] and [`REST_MIN`]
/// plus [`REST_SPREAD`] milliseconds.
pub open spec fn heat_ok(before: PlacedTower, after: PlacedTower, dt: u32) -> bool {
    exists|rest: u64|
        REST_MIN <= rest < REST_MIN + REST_SPREAD && after == #[trigger] before.heated(dt, rest)
}

/// Runs the overheat clocks of all towers for `dt` milliseconds. Nothing
/// happens while the scheduler waits for a wave. Otherwise every tower
/// changes as [`PlacedTower::heated`] says, each with a time to work again
/// that is drawn between [`REST_MIN`] and [`REST_MIN`] plus
/// [`REST_SPREAD`] milliseconds.
pub fn handle_overheat(towers: &mut Vec<PlacedTower>, wave_state: WaveState, dt: u32)
    ensures
        final(towers)@.len() == old(towers)@.len(),
        wave_state == WaveState::Waiting ==> final(towers)@ == old(towers)@,
        wave_state != WaveState::Waiting ==> forall|t: int|
            0 <= t < old(towers)@.len() ==> heat_ok(
                old(towers)@[t],
                #[trigger] final(towers)@[t],
                dt,
            ),
{
    if wave_state == WaveState::Waiting {
        return ;
    }
    let n = towers.len();
    let mut t: usize = 0;
    while t < n
        invariant
            t <= n,
            towers@.len() == n,
            n == old(towers)@.len(),
            forall|u: int| t <= u < n ==> towers@[u] == old(towers)@[u],
            forall|u: int| 0 <= u < t ==> heat_ok(old(towers)@[u], #[trigger] towers@[u], dt),
        decreases n - t,
    {
        let mut placed = towers[t];
        let rest: u64 = (REST_MIN + roll_inclusive(0, REST_SPREAD - 1)) as u64;
        placed.heat(dt, rest);
        towers.set(t, placed);
        t = t + 1;
    }
}

/// Number of faces of the die that picks a debuff.
pub const DEBUFF_FACES: u32 = 30;

impl Debuff {
    /// The debuff that a roll of the thirty-sided die stands for, with
    /// `percent` as its number where it takes one.
    pub open spec fn of_roll(roll: u32, percent: u32) -> Debuff {
        if roll <= 1 {
            Debuff::MoveSpeedUp(percent)
        } else if roll <= 3 {
            Debuff::ReduceNeighbourDamage(percent)
        } else if roll <= 5 {
            Debuff::ReduceNeighbourRate(percent)
        } else if roll <= 7 {
            Debuff::Overheat
        } else if roll <= 9 {
            Debuff::TurretIncompatible
        } else if roll == 10 {
            Debuff::SniperIncompatible
        } else if roll == 11 {
            Debuff::LaserIncompatible
        } else if roll == 12 {
            Debuff::MissileIncompatible
        } else if roll <= 14 {
            Debuff::TargetClosest
        } else if roll <= 16 {
            Debuff::TargetRandom
        } else if roll <= 18 {
            Debuff::RowOverheat
        } else if roll <= 20 {
            Debuff::ColumnOverheat
        } else if roll <= 22 {
            Debuff::ReduceRowDamage(percent)
        } else if roll <= 24 {
            Debuff::ReduceColumnDamage(percent)
        } else if roll <= 26 {
            Debuff::ReduceRowRate(percent)
        } else if roll <= 28 {
            Debuff::ReduceColumnRate(percent)
        } else {
            Debuff::Immune
        }
    }

    /// The least and the greatest percentage that the debuff of a roll is
    /// drawn with. Debuffs without a number get the bounds of the rolls
    /// next to them, which changes nothing.
    pub open spec fn percent_bounds(roll: u32) -> (u32, u32) {
        if roll <= 1 {
            (15, 45)
        } else if roll <= 3 {
            (15, 40)
        } else if roll <= 5 {
            (10, 40)
        } else {
            (10, 35)
        }
    }

    /// Whether a debuff can come out of [`Debuff::random`].
    pub open spec fn drawable(self) -> bool {
        exists|roll: u32, percent: u32|
            roll < DEBUFF_FACES && Debuff::percent_bounds(roll).0 <= percent
                <= Debuff::percent_bounds(roll).1 && self == #[trigger] Debuff::of_roll(
                roll,
                percent,
            )
    }

    /// Computes [`Debuff::of_roll`].
    pub fn from_roll(roll: u32, percent: u32) -> (d: Debuff)
        ensures
            d == Debuff::of_roll(roll, percent),
    {
        if roll <= 1 {
            Debuff::MoveSpeedUp(percent)
        } else if roll <= 3 {
            Debuff::ReduceNeighbourDamage(percent)
        } else if roll <= 5 {
            Debuff::ReduceNeighbourRate(percent)
        } else if roll <= 7 {
            Debuff::Overheat
        } else if roll <= 9 {
            Debuff::TurretIncompatible
        } else if roll == 10 {
            Debuff::SniperIncompatible
        } else if roll == 11 {
            Debuff::LaserIncompatible
        } else if roll == 12 {
            Debuff::MissileIncompatible
        } else if roll <= 14 {
            Debuff::TargetClosest
        } else if roll <= 16 {
            Debuff::TargetRandom
        } else if roll <= 18 {
            Debuff::RowOverheat
        } else if roll <= 20 {
            Debuff::ColumnOverheat
        } else if roll <= 22 {
            Debuff::ReduceRowDamage(percent)
        } else if roll <= 24 {
            Debuff::ReduceColumnDamage(percent)
        } else if roll <= 26 {
            Debuff::ReduceRowRate(percent)
        } else if roll <= 28 {
            Debuff::ReduceColumnRate(percent)
        } else {
            Debuff::Immune
        }
    }

    /// Computes [`Debuff::percent_bounds`].
    pub fn bounds_of_roll(roll: u32) -> (b: (u32, u32))
        ensures
            b == Debuff::percent_bounds(roll),
            b.0 <= b.1,
    {
        if roll <= 1 {
            (15, 45)
        } else if roll <= 3 {
            (15, 40)
        } else if roll <= 5 {
            (10, 40)
        } else {
            (10, 35)
        }
    }

    /// Draws a debuff: a roll of the die picks the kind, a second draw the
    /// percentage.
    pub fn random() -> (d: Debuff)
        ensures
            d.drawable(),
    {
        let roll = roll_inclusive(0, DEBUFF_FACES - 1);
        let bounds = Debuff::bounds_of_roll(roll);
        let percent = roll_inclusive(bounds.0, bounds.1);
        Debuff::from_roll(roll, percent)
    }
}

impl Debuff {
    /// The sentence that tells the player what the debuff does.
    pub open spec fn describe(self) -> Seq<char> {
        match self {
            Debuff::MoveSpeedUp(percent) => around(
                "Enemies within 1 tile move "@,
                percent as nat,
                "% faster"@,
            ),
            Debuff::ReduceNeighbourDamage(percent) => around(
                "Towers directly next to this one do "@,
                percent as nat,
                "% less damage"@,
            ),
            Debuff::ReduceRowDamage(percent) => around(
                "Towers in the same row do "@,
                percent as nat,
                "% less damage"@,
            ),
            Debuff::ReduceColumnDamage(percent) => around(
                "Towers in the same column do "@,
                percent as nat,
                "% less damage"@,
            ),
            Debuff::ReduceNeighbourRate(percent) => around(
                "Towers directly next to this one shoot "@,
                percent as nat,
                "% slower"@,
            ),
            Debuff::ReduceRowRate(percent) => around(
                "Towers in the same row shoot "@,
                percent as nat,
                "% slower"@,
            ),
            Debuff::ReduceColumnRate(percent) => around(
                "Towers in the same column shoot "@,
                percent as nat,
                "% slower"@,
            ),
            Debuff::Overheat => "Has a chance to randomly overheat, rendering it ineffective for a few seconds"@,
            Debuff::RowOverheat => "All towers in the same row have a chance to randomly overheat, rendering them ineffective for a few seconds"@,
            Debuff::ColumnOverheat => "All towers in the same column have a chance to randomly overheat, rendering them ineffective for a few seconds"@,
            Debuff::TurretIncompatible => "Towers of type 'Turret' directly next to this one do half damage"@,
            Debuff::SniperIncompatible => "Towers of type 'Sniper' directly next to this one do half damage"@,
            Debuff::LaserIncompatible => "Towers of type 'Laser' directly next to this one do half damage"@,
            Debuff::MissileIncompatible => "Towers of type 'Missile Launcher' directly next to this one do half damage"@,
            Debuff::TargetClosest => "This tower will target the closest enemy in range instead of the one at the front"@,
            Debuff::TargetRandom => "This tower will fire randomly at enemies in range"@,
            Debuff::Immune => "This tower is immune to the effects of neighbouring tiles"@,
        }
    }

    /// Writes the sentence that tells the player what the debuff does.
    pub fn description(&self) -> (s: String)
        ensures
            s@ == self.describe(),
    {
        match self {
            Debuff::MoveSpeedUp(percent) => with_number(
                "Enemies within 1 tile move ",
                *percent as u64,
                "% faster",
            ),
            Debuff::ReduceNeighbourDamage(percent) => with_number(
                "Towers directly next to this one do ",
                *percent as u64,
                "% less damage",
            ),
            Debuff::ReduceRowDamage(percent) => with_number(
                "Towers in the same row do ",
                *percent as u64,
                "% less damage",
            ),
            Debuff::ReduceColumnDamage(percent) => with_number(
                "Towers in the same column do ",
                *percent as u64,
                "% less damage",
            ),
            Debuff::ReduceNeighbourRate(percent) => with_number(
                "Towers directly next to this one shoot ",
                *percent as u64,
                "% slower",
            ),
            Debuff::ReduceRowRate(percent) => with_number(
                "Towers in the same row shoot ",
                *percent as u64,
                "% slower",
            ),
            Debuff::ReduceColumnRate(percent) => with_number(
                "Towers in the same column shoot ",
                *percent as u64,
                "% slower",
            ),
            Debuff::Overheat => "Has a chance to randomly overheat, rendering it ineffective for a few seconds".to_owned(),
            Debuff::RowOverheat => "All towers in the same row have a chance to randomly overheat, rendering them ineffective for a few seconds".to_owned(),
            Debuff::ColumnOverheat => "All towers in the same column have a chance to randomly overheat, rendering them ineffective for a few seconds".to_owned(),
            Debuff::TurretIncompatible => "Towers of type 'Turret' directly next to this one do half damage".to_owned(),
            Debuff::SniperIncompatible => "Towers of type 'Sniper' directly next to this one do half damage".to_owned(),
            Debuff::LaserIncompatible => "Towers of type 'Laser' directly next to this one do half damage".to_owned(),
            Debuff::MissileIncompatible => "Towers of type 'Missile Launcher' directly next to this one do half damage".to_owned(),
            Debuff::TargetClosest => "This tower will target the closest enemy in range instead of the one at the front".to_owned(),
            Debuff::TargetRandom => "This tower will fire randomly at enemies in range".to_owned(),
            Debuff::Immune => "This tower is immune to the effects of neighbouring tiles".to_owned(),
        }
    }
}

} // verus!
