//! The missile launcher: a silo that launches homing missiles.

use vstd::prelude::*;
use crate::enemies::{only_hurt, Enemy};
use crate::geometry::{step_towards, stepped_towards};
use crate::timer::Timer;
use crate::grid::{Cell, GridMap};
use crate::tower::{
    board_ok, cool_down, cooled, fires, flight, hits, in_hit_range, install, PlacedTower, Tower,
    TowerPlaced, Weapon,
};
use crate::units::{cooldown_ms, grid_to_world, period_ms, world_coord};

verus! {

/// Speed of a missile in thousandths of a unit per second.
pub const MISSILE_SPEED: u32 = 100000;

/// The launcher of a missile tower.
#[derive(Debug, Clone, Copy, PartialEq, Eq, Structural)]
pub struct Silo {
    /// Counts down to the next launch.
    pub timer: Timer,
}

/// A missile in flight.
#[derive(Debug, Clone, Copy, PartialEq, Eq, Structural)]
pub struct Missile {
    /// The enemy the missile homes in on, once it has picked one.
    pub target: Option<usize>,
    /// Health taken on impact, in thousandths.
    pub damage: u32,
    /// Thousandths of a unit per second.
    pub speed: u32,
    /// World position.
    pub x: i32,
    pub y: i32,
}

/// A missile tower after its silo ran for `dt` milliseconds; other towers
/// are not touched.
pub open spec fn silo_after(placed: PlacedTower, dt: u32) -> PlacedTower {
    match placed.weapon {
        Weapon::Missile(silo) => PlacedTower {
            weapon: Weapon::Missile(Silo { timer: cooled(silo.timer, dt, placed.tower.rate) }),
            ..placed
        },
        _ => placed,
    }
}

/// The missile that `placed` launches in a step of `dt` milliseconds: a
/// silo that fires and is not overheating launches one from the centre of
/// its cell, with the tower's damage and no target yet.
pub open spec fn silo_launch(placed: PlacedTower, dt: u32) -> Option<Missile> {
    match placed.weapon {
        Weapon::Missile(silo) => if fires(silo.timer, dt) && !placed.tower.overheating {
            Some(
                Missile {
                    target: None,
                    damage: placed.tower.damage,
                    speed: MISSILE_SPEED,
                    x: world_coord(placed.grid_pos.0 as int) as i32,
                    y: world_coord(placed.grid_pos.1 as int) as i32,
                },
            )
        } else {
            None
        },
        _ => None,
    }
}

/// The missiles that the first `k` towers launch, in order.
pub open spec fn silo_launches(towers: Seq<PlacedTower>, k: int, dt: u32) -> Seq<Missile>
    decreases k,
{
    if k <= 0 {
        Seq::empty()
    } else {
        match silo_launch(towers[k - 1], dt) {
            Some(m) => silo_launches(towers, k - 1, dt).push(m),
            None => silo_launches(towers, k - 1, dt),
        }
    }
}

/// Runs every silo for `dt` milliseconds and adds the missiles they launch
/// to `missiles`, in the order of the towers.
pub fn spawn_missile(towers: &mut Vec<PlacedTower>, missiles: &mut Vec<Missile>, dt: u32)
    ensures
        final(towers)@.len() == old(towers)@.len(),
        forall|t: int|
            0 <= t < old(towers)@.len() ==> #[trigger] final(towers)@[t] == silo_after(
                old(towers)@[t],
                dt,
            ),
        final(missiles)@ == old(missiles)@ + silo_launches(
            old(towers)@,
            old(towers)@.len() as int,
            dt,
        ),
{
    let n = towers.len();
    let mut t: usize = 0;
    while t < n
        invariant
            t <= n,
            towers@.len() == n,
            n == old(towers)@.len(),
            forall|u: int| t <= u < n ==> towers@[u] == old(towers)@[u],
            forall|u: int| 0 <= u < t ==> #[trigger] towers@[u] == silo_after(old(towers)@[u], dt),
            missiles@ == old(missiles)@ + silo_launches(old(towers)@, t as int, dt),
        decreases n - t,
    {
        let mut placed = towers[t];
        match placed.weapon {
            Weapon::Missile(silo) => {
                let mut timer = silo.timer;
                let fired = cool_down(&mut timer, dt, placed.tower.rate);
                placed.weapon = Weapon::Missile(Silo { timer });
                towers.set(t, placed);
                if fired && !placed.tower.overheating {
                    missiles.push(
                        Missile {
                            target: None,
                            damage: placed.tower.damage,
                            speed: MISSILE_SPEED,
                            x: grid_to_world(placed.grid_pos.0 as i16),
                            y: grid_to_world(placed.grid_pos.1 as i16),
                        },
                    );
                }
            },
            _ => {},
        }
        t = t + 1;
    }
}

/// The enemy among the first `k` with the most health left, provided it
/// has any; the earliest of them if several have the most.
pub open spec fn strongest_upto(enemies: Seq<Option<Enemy>>, k: int) -> Option<usize>
    decreases k,
{
    if k <= 0 {
        None
    } else {
        let before = strongest_upto(enemies, k - 1);
        match enemies[k - 1] {
            Some(e) => if e.current_health > 0 && (before is None || e.current_health
                > enemies[before.unwrap() as int].unwrap().current_health) {
                Some((k - 1) as usize)
            } else {
                before
            },
            None => before,
        }
    }
}

/// The living enemy with the most health left, if any enemy has health
/// left.
pub open spec fn strongest(enemies: Seq<Option<Enemy>>) -> Option<usize> {
    strongest_upto(enemies, enemies.len() as int)
}

/// What [`strongest_upto`] finds: a living enemy with health left that no
/// enemy among the first `k` exceeds and no earlier one equals; nothing
/// only if none of them has health left.
pub proof fn lemma_strongest(enemies: Seq<Option<Enemy>>, k: int)
    requires
        0 <= k <= enemies.len() <= usize::MAX,
    ensures
        match strongest_upto(enemies, k) {
            Some(s) => {
                &&& s < k
                &&& enemies[s as int] is Some
                &&& enemies[s as int].unwrap().current_health > 0
                &&& forall|j: int|
                    0 <= j < k && (#[trigger] enemies[j]) is Some
                        ==> enemies[j].unwrap().current_health
                        <= enemies[s as int].unwrap().current_health
                &&& forall|j: int|
                    0 <= j < s && (#[trigger] enemies[j]) is Some
                        ==> enemies[j].unwrap().current_health
                        < enemies[s as int].unwrap().current_health
            },
            None => forall|j: int|
                0 <= j < k && (#[trigger] enemies[j]) is Some
                    ==> enemies[j].unwrap().current_health <= 0,
        },
    decreases k,
{
    if k > 0 {
        lemma_strongest(enemies, k - 1);
    }
}

/// Finds the living enemy with the most health left.
pub fn find_next_target(enemies: &Vec<Option<Enemy>>) -> (pick: Option<usize>)
    ensures
        pick == strongest(enemies@),
{
    let mut pick: Option<usize> = None;
    let mut most: i64 = 0;
    let mut i: usize = 0;
    while i < enemies.len()
        invariant
            i <= enemies.len(),
            pick == strongest_upto(enemies@, i as int),
            match pick {
                Some(s) => s < i && enemies@[s as int] is Some && most
                    == enemies@[s as int].unwrap().current_health,
                None => most == 0,
            },
        decreases enemies.len() - i,
    {
        match enemies[i] {
            Some(e) => {
                if e.current_health > 0 && (pick.is_none() || e.current_health > most) {
                    most = e.current_health;
                    pick = Some(i);
                }
            },
            None => {},
        }
        i = i + 1;
    }
    pick
}

/// The enemies and the missiles that stay in flight while missiles are
/// guided.
pub struct Salvo {
    pub enemies: Seq<Option<Enemy>>,
    pub flying: Seq<Missile>,
}

/// One missile guided for `dt` milliseconds. A missile whose target lives
/// flies towards it; if it was within hitting distance before the step, it
/// takes its damage from the target and is gone. A missile without a
/// living target picks the strongest enemy and stays where it is, or is
/// gone if no enemy has health left.
pub open spec fn guide_one(s: Salvo, m: Missile, dt: u32) -> Salvo {
    if m.target is Some && m.target.unwrap() < s.enemies.len()
        && s.enemies[m.target.unwrap() as int] is Some {
        let t = m.target.unwrap() as int;
        let e = s.enemies[t].unwrap();
        if hits(m.x, m.y, e.x, e.y) {
            Salvo { enemies: s.enemies.update(t, Some(e.hurt(m.damage))), ..s }
        } else {
            let to = stepped_towards(m.x, m.y, e.x, e.y, flight(m.speed, dt));
            Salvo { flying: s.flying.push(Missile { x: to.0, y: to.1, ..m }), ..s }
        }
    } else {
        match strongest(s.enemies) {
            Some(next) => Salvo { flying: s.flying.push(Missile { target: Some(next), ..m }), ..s },
            None => s,
        }
    }
}

/// The first `k` missiles guided, in order.
pub open spec fn guided(s: Salvo, missiles: Seq<Missile>, k: int, dt: u32) -> Salvo
    decreases k,
{
    if k <= 0 {
        s
    } else {
        guide_one(guided(s, missiles, k - 1, dt), missiles[k - 1], dt)
    }
}

/// Guides every missile for `dt` milliseconds; see [`guide_one`]. The
/// missiles that remain are those still in flight, in their old order.
/// Enemies only ever lose health by it.
pub fn handle_missile(missiles: &mut Vec<Missile>, enemies: &mut Vec<Option<Enemy>>, dt: u32)
    ensures
        (Salvo { enemies: final(enemies)@, flying: final(missiles)@ }) == guided(
            Salvo { enemies: old(enemies)@, flying: Seq::empty() },
            old(missiles)@,
            old(missiles)@.len() as int,
            dt,
        ),
        only_hurt(old(enemies)@, final(enemies)@),
{
    let mut flying: Vec<Missile> = Vec::new();
    let mut i: usize = 0;
    while i < missiles.len()
        invariant
            i <= missiles.len(),
            missiles@ == old(missiles)@,
            (Salvo { enemies: enemies@, flying: flying@ }) == guided(
                Salvo { enemies: old(enemies)@, flying: Seq::empty() },
                old(missiles)@,
                i as int,
                dt,
            ),
            only_hurt(old(enemies)@, enemies@),
        decreases missiles.len() - i,
    {
        let m = missiles[i];
        let live_target: Option<usize> = match m.target {
            Some(t) => if t < enemies.len() && enemies[t].is_some() {
                Some(t)
            } else {
                None
            },
            None => None,
        };
        match live_target {
            Some(t) => {
                let mut e = enemies[t].unwrap();
                if in_hit_range(m.x, m.y, e.x, e.y) {
                    e.take_damage(m.damage);
                    enemies.set(t, Some(e));
                } else {
                    let to = step_towards(m.x, m.y, e.x, e.y, crate::tower::flight_of(m.speed, dt));
                    flying.push(Missile { target: m.target, damage: m.damage, speed: m.speed, x: to.0, y: to.1 });
                }
            },
            None => {
                match find_next_target(enemies) {
                    Some(next) => {
                        flying.push(
                            Missile { target: Some(next), damage: m.damage, speed: m.speed, x: m.x, y: m.y },
                        );
                    },
                    None => {},
                }
            },
        }
        i = i + 1;
    }
    *missiles = flying;
}

/// Places `tower` on the free cell `grid_pos` as a missile launcher. The tower becomes
/// the last of `towers` and the map names it under its cell.
pub fn spawn_silo(
    tower: Tower,
    grid_pos: Cell,
    towers: &mut Vec<PlacedTower>,
    map: &mut GridMap,
) -> (event: TowerPlaced)
    requires
        old(map).buildable(grid_pos),
    ensures
        event.grid_pos == grid_pos,
        final(towers)@ == old(towers)@.push(
            PlacedTower {
                tower,
                grid_pos,
                weapon: Weapon::Missile(Silo { timer: Timer::new_spec(period_ms(tower.rate)) }),
                overheat: None,
            },
        ),
        final(map).tower_index() == old(map).tower_index().insert(
            grid_pos,
            Some(old(towers)@.len() as usize),
        ),
        final(map).same_ground(old(map)),
        final(map).enemies == old(map).enemies,
        board_ok(old(towers)@, old(map).tower_index()) ==> board_ok(
            final(towers)@,
            final(map).tower_index(),
        ),
{
    install(tower, grid_pos, Weapon::Missile(Silo { timer: Timer::new(cooldown_ms(tower.rate)) }), towers, map)
}

} // verus!
