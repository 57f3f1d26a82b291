//! The turret: a short-range gun that fires projectiles.

use vstd::prelude::*;
use crate::enemies::Enemy;
use crate::grid::{Cell, GridMap};
use crate::timer::Timer;
use crate::tower::{
    board_ok, cooled, install, launched, lemma_launched_prefix, PlacedTower, Projectile, Tower,
    TowerPlaced, Weapon,
};
use crate::tower::targeting::{gun_shot_ok, shoot_gun};
use crate::units::{cooldown_ms, period_ms};

verus! {

/// Range of a turret in thousandths of a cell.
pub const TURRET_RANGE: u32 = 1000;

/// Speed of a turret's projectile in thousandths of a unit per second.
pub const TURRET_SHOT_SPEED: u32 = 150000;

/// The gun of a turret.
#[derive(Debug, Clone, Copy, PartialEq, Eq, Structural)]
pub struct ChargeShot {
    /// Range in thousandths of a cell.
    pub range: u32,
    /// Counts down to the next shot.
    pub timer: Timer,
}

impl ChargeShot {
    /// A gun with the given range whose first shot is due after one period
    /// of `rate` thousandths of a shot per second.
    pub fn new(range: u32, rate: u32) -> (c: ChargeShot)
        ensures
            c == (ChargeShot { range, timer: Timer::new_spec(period_ms(rate)) }),
    {
        ChargeShot { range, timer: Timer::new(cooldown_ms(rate)) }
    }
}

/// A turret's tower after its gun ran for `dt` milliseconds; other towers
/// are not touched.
pub open spec fn turret_after(placed: PlacedTower, dt: u32) -> PlacedTower {
    match placed.weapon {
        Weapon::ChargeShot(gun) => PlacedTower {
            weapon: Weapon::ChargeShot(
                ChargeShot { timer: cooled(gun.timer, dt, placed.tower.rate), ..gun },
            ),
            ..placed
        },
        _ => placed,
    }
}

/// Whether `shot` is what `placed` may fire in a step of `dt`
/// milliseconds: a turret fires as [`gun_shot_ok`] says, any other tower
/// not at all.
pub open spec fn turret_shot_ok(
    placed: PlacedTower,
    enemies: Seq<Option<Enemy>>,
    index: Map<Cell, Seq<usize>>,
    dt: u32,
    shot: Option<Projectile>,
) -> bool {
    match placed.weapon {
        Weapon::ChargeShot(gun) => gun_shot_ok(
            placed.tower,
            placed.grid_pos,
            gun.range,
            gun.timer,
            TURRET_SHOT_SPEED,
            enemies,
            index,
            dt,
            shot,
        ),
        _ => shot is None,
    }
}

/// Runs every turret for `dt` milliseconds. Returns, tower by tower, the
/// projectile that the tower fired, and adds those projectiles to
/// `projectiles` in the order of the towers.
pub fn shoot(
    towers: &mut Vec<PlacedTower>,
    enemies: &Vec<Option<Enemy>>,
    map: &GridMap,
    projectiles: &mut Vec<Projectile>,
    dt: u32,
) -> (shots: Vec<Option<Projectile>>)
    ensures
        final(towers)@.len() == old(towers)@.len(),
        shots@.len() == old(towers)@.len(),
        forall|t: int|
            0 <= t < old(towers)@.len() ==> #[trigger] final(towers)@[t] == turret_after(
                old(towers)@[t],
                dt,
            ),
        forall|t: int|
            0 <= t < old(towers)@.len() ==> turret_shot_ok(
                old(towers)@[t],
                enemies@,
                map.enemy_index(),
                dt,
                #[trigger] shots@[t],
            ),
        final(projectiles)@ == old(projectiles)@ + launched(shots@, shots@.len() as int),
{
    let n = towers.len();
    let mut shots: Vec<Option<Projectile>> = Vec::new();
    let mut t: usize = 0;
    while t < n
        invariant
            t <= n,
            towers@.len() == n,
            n == old(towers)@.len(),
            shots@.len() == t,
            forall|u: int| t <= u < n ==> towers@[u] == old(towers)@[u],
            forall|u: int| 0 <= u < t ==> #[trigger] towers@[u] == turret_after(old(towers)@[u], dt),
            forall|u: int|
                0 <= u < t ==> turret_shot_ok(
                    old(towers)@[u],
                    enemies@,
                    map.enemy_index(),
                    dt,
                    #[trigger] shots@[u],
                ),
            projectiles@ == old(projectiles)@ + launched(shots@, t as int),
        decreases n - t,
    {
        let mut placed = towers[t];
        let ghost fired_before = shots@;
        let shot = match placed.weapon {
            Weapon::ChargeShot(gun) => {
                let mut timer = gun.timer;
                let shot = shoot_gun(
                    &placed.tower,
                    placed.grid_pos,
                    gun.range,
                    &mut timer,
                    TURRET_SHOT_SPEED,
                    enemies,
                    map,
                    dt,
                );
                placed.weapon = Weapon::ChargeShot(ChargeShot { range: gun.range, timer });
                towers.set(t, placed);
                shot
            },
            _ => None,
        };
        shots.push(shot);
        match shot {
            Some(p) => {
                projectiles.push(p);
            },
            None => {},
        }
        proof {
            lemma_launched_prefix(fired_before, shots@, t as int);
        }
        t = t + 1;
    }
    shots
}

/// Places `tower` on the free cell `grid_pos` as a turret. The tower becomes
/// the last of `towers` and the map names it under its cell.
pub fn spawn_charge_shot(
    tower: Tower,
    grid_pos: Cell,
    towers: &mut Vec<PlacedTower>,
    map: &mut GridMap,
) -> (event: TowerPlaced)
    requires
        old(map).buildable(grid_pos),
    ensures
        event.grid_pos == grid_pos,
        final(towers)@ == old(towers)@.push(
            PlacedTower {
                tower,
                grid_pos,
                weapon: Weapon::ChargeShot(
                    ChargeShot { range: TURRET_RANGE, timer: Timer::new_spec(period_ms(tower.rate)) },
                ),
                overheat: None,
            },
        ),
        final(map).tower_index() == old(map).tower_index().insert(
            grid_pos,
            Some(old(towers)@.len() as usize),
        ),
        final(map).same_ground(old(map)),
        final(map).enemies == old(map).enemies,
        board_ok(old(towers)@, old(map).tower_index()) ==> board_ok(
            final(towers)@,
            final(map).tower_index(),
        ),
{
    install(tower, grid_pos, Weapon::ChargeShot(ChargeShot::new(TURRET_RANGE, tower.rate)), towers, map)
}

} // verus!
