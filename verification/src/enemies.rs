//! Enemies: their kinds, their state and how they walk the path.

use vstd::prelude::*;
use crate::gameplay::GameManager;
use crate::grid::{
    default_path, default_start, lemma_without, moved_index, without, Cell, GridMap,
};
use crate::tower::debuffs::{SpeedUpPoint, zone_bonus, zone_bonus_at};
use crate::units::{
    cell_coord, clamp_i32, clamp_i64, clamp_to_i32, clamp_u64, grid_to_world, world_coord,
};

verus! {

/// The tiers of enemy, each with its own health, speed and reward.
#[derive(Debug, Clone, Copy, PartialEq, Eq, Structural)]
pub enum EnemyVariant {
    Weak,
    Normal,
    Fast,
    Strong,
    Boss,
    StrongFast,
    UltraBoss,
}

impl EnemyVariant {
    /// Score awarded for killing an enemy of this kind.
    pub open spec fn reward(self) -> u32 {
        match self {
            EnemyVariant::Weak => 1,
            EnemyVariant::Normal => 2,
            EnemyVariant::Fast => 4,
            EnemyVariant::Strong => 10,
            EnemyVariant::Boss => 20,
            EnemyVariant::StrongFast => 15,
            EnemyVariant::UltraBoss => 50,
        }
    }

    /// Health in whole units before any multiplier.
    pub open spec fn base_health(self) -> u32 {
        match self {
            EnemyVariant::Weak => 2,
            EnemyVariant::Normal => 5,
            EnemyVariant::Fast => 5,
            EnemyVariant::Strong => 20,
            EnemyVariant::Boss => 100,
            EnemyVariant::StrongFast => 20,
            EnemyVariant::UltraBoss => 250,
        }
    }

    /// Speed in whole world units per second before any multiplier.
    pub open spec fn base_speed(self) -> u32 {
        match self {
            EnemyVariant::Weak => 15,
            EnemyVariant::Normal => 20,
            EnemyVariant::Fast => 40,
            EnemyVariant::Strong => 15,
            EnemyVariant::Boss => 10,
            EnemyVariant::StrongFast => 35,
            EnemyVariant::UltraBoss => 10,
        }
    }

    /// Computes [`EnemyVariant::reward`].
    pub fn points(&self) -> (p: u32)
        ensures
            p == self.reward(),
    {
        match self {
            EnemyVariant::Weak => 1,
            EnemyVariant::Normal => 2,
            EnemyVariant::Fast => 4,
            EnemyVariant::Strong => 10,
            EnemyVariant::Boss => 20,
            EnemyVariant::StrongFast => 15,
            EnemyVariant::UltraBoss => 50,
        }
    }
}

/// Distance between two coordinates.
pub open spec fn gap(a: int, b: int) -> int {
    if a >= b {
        a - b
    } else {
        b - a
    }
}

/// Distance covered in `dt` milliseconds at `speed` thousandths of a unit
/// per second, changed by `bonus` percent. Speed zones add up: the bonus
/// is the sum of their percentages, held within `i32`. The result is never
/// negative.
pub open spec fn travel(speed: u32, dt: u32, bonus: int) -> u64 {
    let base = (speed as int) * (dt as int) / 1000;
    clamp_u64(base + base * (clamp_i32(bonus) as int) / 100)
}

/// Computes [`travel`].
pub fn travel_distance(speed: u32, dt: u32, bonus: i128) -> (d: u64)
    ensures
        d == travel(speed, dt, bonus as int),
{
    assert(0 <= (speed as int) * (dt as int) <= 0xffff_ffff * 0xffff_ffff) by (nonlinear_arith)
        requires
            0 <= speed <= 0xffff_ffff,
            0 <= dt <= 0xffff_ffff,
    ;
    let base: u64 = (speed as u64) * (dt as u64) / 1000;
    let held: i128 = if bonus < i32::MIN as i128 {
        i32::MIN as i128
    } else if bonus > i32::MAX as i128 {
        i32::MAX as i128
    } else {
        bonus
    };
    assert(-0x8000_0000 * 0x1_0000_0000_0000_0000 <= (base as int) * (held as int) <= 0x8000_0000
        * 0x1_0000_0000_0000_0000) by (nonlinear_arith)
        requires
            0 <= base <= 0xffff_ffff_ffff_ffff,
            -0x8000_0000 <= held <= 0x8000_0000,
    ;
    let product: i128 = (base as i128) * held;
    let share: i128 = if product >= 0 {
        product / 100
    } else {
        let up: i128 = (-product + 99) / 100;
        -up
    };
    let total: i128 = base as i128 + share;
    if total < 0 {
        0
    } else if total > u64::MAX as i128 {
        u64::MAX
    } else {
        total as u64
    }
}

/// One enemy on the board.
#[derive(Debug, Clone, Copy, PartialEq, Eq)]
pub struct Enemy {
    pub variant: EnemyVariant,
    /// Health at creation, in thousandths.
    pub max_health: i64,
    /// Health left, in thousandths; the enemy is dead at zero or below.
    pub current_health: i64,
    /// Thousandths of a world unit per second.
    pub move_speed: u32,
    /// Index of the waypoint the enemy is walking towards.
    pub path_target: usize,
    /// The cell under which the enemy is filed in the enemy index.
    pub current_grid_pos: Cell,
    /// Sum of the distances the enemy has covered, tick by tick.
    pub distance_travelled: u64,
    /// World position, in thousandths of a world unit.
    pub x: i32,
    pub y: i32,
}

/// `base * multiplier`, held at the largest `u32`.
pub open spec fn scaled_speed(base: u32, multiplier: u32) -> u32 {
    if base * multiplier > u32::MAX {
        u32::MAX
    } else {
        (base * multiplier) as u32
    }
}

impl Enemy {
    /// The enemy of kind `variant` as it is created in cell `grid_pos`: at
    /// the centre of the cell, with the health and speed of its kind times
    /// the multipliers (in thousandths), heading for the first waypoint.
    pub open spec fn fresh(
        variant: EnemyVariant,
        grid_pos: Cell,
        health_multiplier: u32,
        speed_multiplier: u32,
    ) -> Enemy {
        Enemy {
            variant,
            max_health: (variant.base_health() * health_multiplier) as i64,
            current_health: (variant.base_health() * health_multiplier) as i64,
            move_speed: scaled_speed(variant.base_speed(), speed_multiplier),
            path_target: 0,
            current_grid_pos: grid_pos,
            distance_travelled: 0,
            x: world_coord(grid_pos.0 as int) as i32,
            y: world_coord(grid_pos.1 as int) as i32,
        }
    }

    /// Creates an enemy; see [`Enemy::fresh`].
    pub fn new(
        variant: EnemyVariant,
        grid_pos: Cell,
        health_multiplier: u32,
        speed_multiplier: u32,
    ) -> (e: Enemy)
        ensures
            e == Enemy::fresh(variant, grid_pos, health_multiplier, speed_multiplier),
            e.current_health == e.max_health,
            e.max_health >= 0,
    {
        let (base_health, base_speed): (u32, u32) = match variant {
            EnemyVariant::Weak => (2, 15),
            EnemyVariant::Normal => (5, 20),
            EnemyVariant::Fast => (5, 40),
            EnemyVariant::Strong => (20, 15),
            EnemyVariant::Boss => (100, 10),
            EnemyVariant::StrongFast => (20, 35),
            EnemyVariant::UltraBoss => (250, 10),
        };
        assert(0 <= (base_speed as int) * (speed_multiplier as int) <= 40 * 0xffff_ffff) by (nonlinear_arith)
            requires
                0 <= base_speed <= 40,
                0 <= speed_multiplier <= 0xffff_ffff,
        ;
        let health: i64 = (base_health as i64) * (health_multiplier as i64);
        let speed: u64 = (base_speed as u64) * (speed_multiplier as u64);
        Enemy {
            variant,
            max_health: health,
            current_health: health,
            move_speed: if speed > u32::MAX as u64 {
                u32::MAX
            } else {
                speed as u32
            },
            path_target: 0,
            current_grid_pos: grid_pos,
            distance_travelled: 0,
            x: grid_to_world(grid_pos.0 as i16),
            y: grid_to_world(grid_pos.1 as i16),
        }
    }

    /// The enemy after losing `damage` thousandths of health.
    pub open spec fn hurt(self, damage: u32) -> Enemy {
        Enemy { current_health: clamp_i64(self.current_health - damage), ..self }
    }

    /// Takes `damage` thousandths of health from the enemy.
    pub fn take_damage(&mut self, damage: u32)
        ensures
            *final(self) == old(self).hurt(damage),
            final(self).current_health <= old(self).current_health,
    {
        let left: i128 = self.current_health as i128 - damage as i128;
        self.current_health = if left < i64::MIN as i128 {
            i64::MIN
        } else {
            left as i64
        };
    }

    /// Whether the enemy has run out of health.
    pub open spec fn dead(self) -> bool {
        self.current_health <= 0
    }

    /// Manhattan distance from the enemy to the waypoint it walks towards.
    pub open spec fn remaining(self, path: Seq<(u8, u8)>) -> int {
        gap(world_coord(path[self.path_target as int].0 as int), self.x as int) + gap(
            world_coord(path[self.path_target as int].1 as int),
            self.y as int,
        )
    }

    /// The enemy at `(x, y)`, having covered the distance from where it
    /// stood to there.
    pub open spec fn walked_to(self, x: i32, y: i32) -> Enemy {
        Enemy {
            x,
            y,
            distance_travelled: clamp_u64(
                self.distance_travelled + gap(x as int, self.x as int) + gap(
                    y as int,
                    self.y as int,
                ),
            ),
            ..self
        }
    }

    /// The enemy after a step of `d` thousandths of a unit along `path`.
    ///
    /// It walks towards its waypoint along one axis per step: along the
    /// row while its column differs from the waypoint's, else along the
    /// column. When `d` covers what is left to the waypoint it stands
    /// exactly on the waypoint, heads for the next one, and what remains
    /// of `d` is lost. The distance travelled grows by the distance
    /// covered. An enemy beyond the last waypoint does not move.
    pub open spec fn moved(self, path: Seq<(u8, u8)>, d: u64) -> Enemy {
        if self.path_target >= path.len() {
            self
        } else {
            let wx = world_coord(path[self.path_target as int].0 as int);
            let wy = world_coord(path[self.path_target as int].1 as int);
            if d >= self.remaining(path) {
                Enemy {
                    path_target: (self.path_target + 1) as usize,
                    ..self.walked_to(wx as i32, wy as i32)
                }
            } else if wx == self.x {
                self.walked_to(
                    self.x,
                    if wy > self.y {
                        clamp_i32(self.y + d)
                    } else {
                        clamp_i32(self.y - d)
                    },
                )
            } else {
                self.walked_to(
                    if wx > self.x {
                        clamp_i32(self.x + d)
                    } else {
                        clamp_i32(self.x - d)
                    },
                    self.y,
                )
            }
        }
    }

    /// Whether the enemy has passed the last waypoint of a path of
    /// `path_len` waypoints.
    pub open spec fn breached(self, path_len: nat) -> bool {
        self.path_target >= path_len
    }

    /// Walks `d` thousandths of a unit along `path`; see [`Enemy::moved`].
    pub fn advance(&mut self, path: &Vec<(u8, u8)>, d: u64)
        ensures
            *final(self) == old(self).moved(path@, d),
            final(self).current_health == old(self).current_health,
            final(self).current_grid_pos == old(self).current_grid_pos,
    {
        if self.path_target >= path.len() {
            return ;
        }
        let waypoint = path[self.path_target];
        let wx: i32 = grid_to_world(waypoint.0 as i16);
        let wy: i32 = grid_to_world(waypoint.1 as i16);
        let dx: i128 = wx as i128 - self.x as i128;
        let dy: i128 = wy as i128 - self.y as i128;
        let remaining: i128 = (if dx >= 0 {
            dx
        } else {
            -dx
        }) + (if dy >= 0 {
            dy
        } else {
            -dy
        });
        let step: i128 = d as i128;
        let (x, y): (i32, i32) = if step >= remaining {
            self.path_target = self.path_target + 1;
            (wx, wy)
        } else if wx == self.x {
            let to: i128 = if wy > self.y {
                self.y as i128 + step
            } else {
                self.y as i128 - step
            };
            (self.x, clamp_to_i32(to))
        } else {
            let to: i128 = if wx > self.x {
                self.x as i128 + step
            } else {
                self.x as i128 - step
            };
            (clamp_to_i32(to), self.y)
        };
        let along: i64 = if x >= self.x {
            x as i64 - self.x as i64
        } else {
            self.x as i64 - x as i64
        };
        let across: i64 = if y >= self.y {
            y as i64 - self.y as i64
        } else {
            self.y as i64 - y as i64
        };
        self.distance_travelled = self.distance_travelled.saturating_add((along + across) as u64);
        self.x = x;
        self.y = y;
    }
}

/// Whether enemy `id` lives and is filed under cell `c`.
pub open spec fn filed(enemies: Seq<Option<Enemy>>, id: usize, c: Cell) -> bool {
    &&& id < enemies.len()
    &&& enemies[id as int] is Some
    &&& enemies[id as int].unwrap().current_grid_pos == c
}

/// The enemy index agrees with the enemies: every handle in a bucket is a
/// living enemy filed under that bucket's cell, no bucket holds a handle
/// twice, and every living enemy is in the bucket of the cell it is filed
/// under. So each living enemy is in exactly one bucket, exactly once.
pub open spec fn consistent(enemies: Seq<Option<Enemy>>, index: Map<Cell, Seq<usize>>) -> bool {
    &&& enemies.len() <= usize::MAX
    &&& forall|c: Cell| index.contains_key(c)
    &&& forall|c: Cell, i: int|
        0 <= i < index[c].len() ==> filed(enemies, #[trigger] index[c][i], c)
    &&& forall|c: Cell| (#[trigger] index[c]).no_duplicates()
    &&& forall|e: int|
        0 <= e < enemies.len() && (#[trigger] enemies[e]) is Some ==> index[enemies[e].unwrap().current_grid_pos].contains(
            e as usize,
        )
}

/// Whether every living enemy is filed under the cell it stands in.
pub open spec fn all_in_place(enemies: Seq<Option<Enemy>>) -> bool {
    forall|e: int|
        0 <= e < enemies.len() && (#[trigger] enemies[e]) is Some ==> {
            &&& enemies[e].unwrap().current_grid_pos.0 == cell_coord(enemies[e].unwrap().x as int)
            &&& enemies[e].unwrap().current_grid_pos.1 == cell_coord(enemies[e].unwrap().y as int)
        }
}

/// Taking an enemy off the board and out of its bucket keeps the index
/// consistent.
pub proof fn lemma_despawn_consistent(
    enemies: Seq<Option<Enemy>>,
    index: Map<Cell, Seq<usize>>,
    i: int,
)
    requires
        consistent(enemies, index),
        0 <= i < enemies.len(),
        enemies[i] is Some,
    ensures
        consistent(
            enemies.update(i, None),
            index.insert(
                enemies[i].unwrap().current_grid_pos,
                without(index[enemies[i].unwrap().current_grid_pos], i as usize),
            ),
        ),
{
    let home = enemies[i].unwrap().current_grid_pos;
    let after = enemies.update(i, None);
    let kept = without(index[home], i as usize);
    let index2 = index.insert(home, kept);
    lemma_without(index[home], i as usize);
    assert forall|c: Cell, k: int| 0 <= k < index2[c].len() implies filed(
        after,
        #[trigger] index2[c][k],
        c,
    ) by {
        if c == home {
            assert(kept.contains(index2[c][k]));
        }
    }
}

/// Filing an enemy under another cell and moving it between the buckets
/// keeps the index consistent.
pub proof fn lemma_move_consistent(
    enemies: Seq<Option<Enemy>>,
    index: Map<Cell, Seq<usize>>,
    i: int,
    changed: Enemy,
)
    requires
        consistent(enemies, index),
        0 <= i < enemies.len(),
        enemies[i] is Some,
    ensures
        consistent(
            enemies.update(i, Some(changed)),
            moved_index(
                index,
                i as usize,
                enemies[i].unwrap().current_grid_pos,
                changed.current_grid_pos,
            ),
        ),
{
    let from = enemies[i].unwrap().current_grid_pos;
    let to = changed.current_grid_pos;
    if from != to {
        let after = enemies.update(i, Some(changed));
        let kept = without(index[from], i as usize);
        let lifted = index.insert(from, kept);
        let index2 = lifted.insert(to, lifted[to].push(i as usize));
        lemma_without(index[from], i as usize);
        assert forall|c: Cell, k: int| 0 <= k < index2[c].len() implies filed(
            after,
            #[trigger] index2[c][k],
            c,
        ) by {
            if c == from {
                assert(kept.contains(index2[c][k]));
            }
        }
        assert forall|e: int| 0 <= e < after.len() && (#[trigger] after[e]) is Some implies index2[after[e].unwrap().current_grid_pos].contains(
            e as usize,
        ) by {
            if e == i {
                assert(index2[to].last() == i as usize);
            } else {
                let c = enemies[e].unwrap().current_grid_pos;
                if c == to {
                    let k0 = choose|k0: int| 0 <= k0 < index[to].len() && index[to][k0] == e as usize;
                    assert(index2[to][k0] == e as usize);
                }
            }
        }
    }
}

/// Adding a new enemy at the end of the enemies and of the bucket of its
/// cell keeps the index consistent.
pub proof fn lemma_spawn_consistent(
    enemies: Seq<Option<Enemy>>,
    index: Map<Cell, Seq<usize>>,
    born: Enemy,
)
    requires
        consistent(enemies, index),
        enemies.len() < usize::MAX,
    ensures
        consistent(
            enemies.push(Some(born)),
            index.insert(
                born.current_grid_pos,
                index[born.current_grid_pos].push(enemies.len() as usize),
            ),
        ),
{
    let id = enemies.len() as usize;
    let to = born.current_grid_pos;
    let after = enemies.push(Some(born));
    let index2 = index.insert(to, index[to].push(id));
    assert forall|e: int| 0 <= e < after.len() && (#[trigger] after[e]) is Some implies index2[after[e].unwrap().current_grid_pos].contains(
        e as usize,
    ) by {
        if e == id {
            assert(index2[to].last() == id);
        } else {
            let c = enemies[e].unwrap().current_grid_pos;
            if c == to {
                let k0 = choose|k0: int| 0 <= k0 < index[to].len() && index[to][k0] == e as usize;
                assert(index2[to][k0] == e as usize);
            }
        }
    }
}

/// `lives` after one more breach: one less, but not below zero.
pub open spec fn after_breach(lives: u16) -> u16 {
    if lives > 0 {
        (lives - 1) as u16
    } else {
        0
    }
}

/// `score + points`, held at the largest `u32`.
pub open spec fn credited(score: u32, points: u32) -> u32 {
    if score + points > u32::MAX {
        u32::MAX
    } else {
        (score + points) as u32
    }
}

/// The enemies, the enemy index and the lives during a movement pass.
pub struct March {
    pub enemies: Seq<Option<Enemy>>,
    pub index: Map<Cell, Seq<usize>>,
    pub lives: u16,
    /// Number of enemies that reached the end of the path so far.
    pub breaches: nat,
}

/// An enemy after it walked for `dt` milliseconds: it covers the distance
/// that its speed and the zones around it make due, and is gone if that
/// takes it past the last waypoint.
pub open spec fn marched_enemy(
    slot: Option<Enemy>,
    path: Seq<(u8, u8)>,
    points: Seq<SpeedUpPoint>,
    dt: u32,
) -> Option<Enemy> {
    match slot {
        None => None,
        Some(e) => {
            let after = e.moved(
                path,
                travel(
                    e.move_speed,
                    dt,
                    zone_bonus(points, e.x as int, e.y as int, points.len() as int),
                ),
            );
            if after.breached(path.len()) {
                None
            } else {
                Some(after)
            }
        },
    }
}

/// The movement of enemy `i`: it walks the distance it is due; if that
/// takes it past the last waypoint it leaves the board and its bucket and
/// costs one life.
pub open spec fn march_one(
    m: March,
    i: int,
    path: Seq<(u8, u8)>,
    points: Seq<SpeedUpPoint>,
    dt: u32,
) -> March {
    match m.enemies[i] {
        None => m,
        Some(e) => {
            let d = travel(
                e.move_speed,
                dt,
                zone_bonus(points, e.x as int, e.y as int, points.len() as int),
            );
            let after = e.moved(path, d);
            if after.breached(path.len()) {
                March {
                    enemies: m.enemies.update(i, None),
                    index: m.index.insert(
                        e.current_grid_pos,
                        without(m.index[e.current_grid_pos], i as usize),
                    ),
                    lives: after_breach(m.lives),
                    breaches: m.breaches + 1,
                }
            } else {
                March { enemies: m.enemies.update(i, Some(after)), ..m }
            }
        },
    }
}

/// The movement of the first `n` enemies, in order.
pub open spec fn marched(
    m: March,
    n: int,
    path: Seq<(u8, u8)>,
    points: Seq<SpeedUpPoint>,
    dt: u32,
) -> March
    decreases n,
{
    if n <= 0 {
        m
    } else {
        march_one(marched(m, n - 1, path, points, dt), n - 1, path, points, dt)
    }
}

/// Moves every living enemy along the path for `dt` milliseconds and
/// returns how many of them reached the end of the path. Those leave the
/// board and the enemy index, and each costs a life while lives are left.
pub fn enemy_movement(
    map: &mut GridMap,
    enemies: &mut Vec<Option<Enemy>>,
    speed_up_points: &Vec<SpeedUpPoint>,
    game_manager: &mut GameManager,
    dt: u32,
) -> (breaches: usize)
    ensures
        (March {
            enemies: final(enemies)@,
            index: final(map).enemy_index(),
            lives: final(game_manager).lives,
            breaches: breaches as nat,
        }) == marched(
            March {
                enemies: old(enemies)@,
                index: old(map).enemy_index(),
                lives: old(game_manager).lives,
                breaches: 0,
            },
            old(enemies)@.len() as int,
            old(map).path@,
            speed_up_points@,
            dt,
        ),
        final(enemies)@.len() == old(enemies)@.len(),
        final(map).same_ground(old(map)),
        final(map).placements == old(map).placements,
        *final(game_manager) == (GameManager {
            lives: final(game_manager).lives,
            ..*old(game_manager)
        }),
        consistent(old(enemies)@, old(map).enemy_index()) ==> consistent(
            final(enemies)@,
            final(map).enemy_index(),
        ),
        forall|e: int|
            0 <= e < final(enemies)@.len() ==> #[trigger] final(enemies)@[e] == marched_enemy(
                old(enemies)@[e],
                old(map).path@,
                speed_up_points@,
                dt,
            ),
{
    let n = enemies.len();
    let mut i: usize = 0;
    let mut breaches: usize = 0;
    let ghost start = March {
        enemies: enemies@,
        index: map.enemy_index(),
        lives: game_manager.lives,
        breaches: 0,
    };
    while i < n
        invariant
            i <= n,
            breaches <= i,
            enemies@.len() == n,
            n == old(enemies)@.len(),
            start.enemies == old(enemies)@,
            start.index == old(map).enemy_index(),
            map.same_ground(old(map)),
            map.placements == old(map).placements,
            *game_manager == (GameManager { lives: game_manager.lives, ..*old(game_manager) }),
            (March {
                enemies: enemies@,
                index: map.enemy_index(),
                lives: game_manager.lives,
                breaches: breaches as nat,
            }) == marched(start, i as int, old(map).path@, speed_up_points@, dt),
            consistent(start.enemies, start.index) ==> consistent(enemies@, map.enemy_index()),
            forall|e: int| i <= e < n ==> enemies@[e] == old(enemies)@[e],
            forall|e: int|
                0 <= e < i ==> #[trigger] enemies@[e] == marched_enemy(
                    old(enemies)@[e],
                    old(map).path@,
                    speed_up_points@,
                    dt,
                ),
        decreases n - i,
    {
        let slot: Option<Enemy> = enemies[i];
        match slot {
            None => {},
            Some(before) => {
                let mut e = before;
                let bonus = zone_bonus_at(speed_up_points, e.x, e.y);
                let d = travel_distance(e.move_speed, dt, bonus);
                e.advance(&map.path, d);
                if e.path_target >= map.path.len() {
                    if game_manager.lives > 0 {
                        game_manager.lives = game_manager.lives - 1;
                    }
                    proof {
                        if consistent(enemies@, map.enemy_index()) {
                            lemma_despawn_consistent(enemies@, map.enemy_index(), i as int);
                        }
                    }
                    map.remove_enemy(before.current_grid_pos, i);
                    enemies.set(i, None);
                    breaches = breaches + 1;
                } else {
                    enemies.set(i, Some(e));
                }
            },
        }
        i = i + 1;
    }
    breaches
}

/// The enemies and the enemy index during a pass over the enemies.
pub struct Swarm {
    pub enemies: Seq<Option<Enemy>>,
    pub index: Map<Cell, Seq<usize>>,
}

/// Enemy `e` filed under the cell it stands in.
pub open spec fn placed(e: Enemy) -> Enemy {
    Enemy { current_grid_pos: (cell_coord(e.x as int) as i8, cell_coord(e.y as int) as i8), ..e }
}

/// Enemy `i` filed anew: when it stands in another cell than the one it is
/// filed under, it leaves that bucket and joins the end of the bucket of
/// the cell it stands in.
pub open spec fn regrid_one(s: Swarm, i: int) -> Swarm {
    match s.enemies[i] {
        None => s,
        Some(e) => Swarm {
            enemies: s.enemies.update(i, Some(placed(e))),
            index: moved_index(
                s.index,
                i as usize,
                e.current_grid_pos,
                placed(e).current_grid_pos,
            ),
        },
    }
}

/// The first `n` enemies filed anew, in order.
pub open spec fn regridded(s: Swarm, n: int) -> Swarm
    decreases n,
{
    if n <= 0 {
        s
    } else {
        regrid_one(regridded(s, n - 1), n - 1)
    }
}

/// Files every living enemy under the cell it stands in and moves it to
/// that cell's bucket. Afterwards the index is consistent if it was, and
/// every living enemy is filed under the cell of its position.
pub fn update_enemy_grid_pos(enemies: &mut Vec<Option<Enemy>>, map: &mut GridMap)
    ensures
        (Swarm { enemies: final(enemies)@, index: final(map).enemy_index() }) == regridded(
            Swarm { enemies: old(enemies)@, index: old(map).enemy_index() },
            old(enemies)@.len() as int,
        ),
        final(enemies)@.len() == old(enemies)@.len(),
        final(map).same_ground(old(map)),
        final(map).placements == old(map).placements,
        consistent(old(enemies)@, old(map).enemy_index()) ==> consistent(
            final(enemies)@,
            final(map).enemy_index(),
        ),
        all_in_place(final(enemies)@),
        forall|e: int|
            0 <= e < final(enemies)@.len() ==> #[trigger] final(enemies)@[e] == match old(
                enemies,
            )@[e] {
                Some(en) => Some(placed(en)),
                None => None,
            },
{
    let n = enemies.len();
    let mut i: usize = 0;
    let ghost start = Swarm { enemies: enemies@, index: map.enemy_index() };
    while i < n
        invariant
            i <= n,
            enemies@.len() == n,
            n == old(enemies)@.len(),
            start.enemies == old(enemies)@,
            map.same_ground(old(map)),
            map.placements == old(map).placements,
            (Swarm { enemies: enemies@, index: map.enemy_index() }) == regridded(start, i as int),
            consistent(start.enemies, start.index) ==> consistent(enemies@, map.enemy_index()),
            forall|e: int| i <= e < n ==> enemies@[e] == old(enemies)@[e],
            forall|e: int|
                0 <= e < i ==> #[trigger] enemies@[e] == match old(enemies)@[e] {
                    Some(en) => Some(placed(en)),
                    None => None,
                },
        decreases n - i,
    {
        let slot: Option<Enemy> = enemies[i];
        match slot {
            None => {},
            Some(before) => {
                let mut e = before;
                let cell = GridMap::get_grid_pos((e.x, e.y));
                e.current_grid_pos = cell;
                proof {
                    if consistent(enemies@, map.enemy_index()) {
                        lemma_move_consistent(enemies@, map.enemy_index(), i as int, e);
                    }
                }
                map.reindex_enemy(i, before.current_grid_pos, cell);
                enemies.set(i, Some(e));
            },
        }
        i = i + 1;
    }
}

/// The enemies, the enemy index and the score during a kill check.
pub struct Reaping {
    pub enemies: Seq<Option<Enemy>>,
    pub index: Map<Cell, Seq<usize>>,
    pub score: u32,
    /// The kinds of the enemies killed so far, in order.
    pub killed: Seq<EnemyVariant>,
}

/// The kill check on enemy `i`: an enemy without health leaves the board
/// and its bucket, and its reward is added to the score.
pub open spec fn reap_one(r: Reaping, i: int) -> Reaping {
    match r.enemies[i] {
        None => r,
        Some(e) => if e.dead() {
            Reaping {
                enemies: r.enemies.update(i, None),
                index: r.index.insert(
                    e.current_grid_pos,
                    without(r.index[e.current_grid_pos], i as usize),
                ),
                score: credited(r.score, e.variant.reward()),
                killed: r.killed.push(e.variant),
            }
        } else {
            r
        },
    }
}

/// The kill check on the first `n` enemies, in order.
pub open spec fn reaped(r: Reaping, n: int) -> Reaping
    decreases n,
{
    if n <= 0 {
        r
    } else {
        reap_one(reaped(r, n - 1), n - 1)
    }
}

/// Removes every enemy whose health is zero or less from the board and
/// from the enemy index, adds its reward to the score, and returns the
/// kinds of the enemies killed.
pub fn check_killed(
    enemies: &mut Vec<Option<Enemy>>,
    map: &mut GridMap,
    game_manager: &mut GameManager,
) -> (killed: Vec<EnemyVariant>)
    ensures
        (Reaping {
            enemies: final(enemies)@,
            index: final(map).enemy_index(),
            score: final(game_manager).score,
            killed: killed@,
        }) == reaped(
            Reaping {
                enemies: old(enemies)@,
                index: old(map).enemy_index(),
                score: old(game_manager).score,
                killed: Seq::empty(),
            },
            old(enemies)@.len() as int,
        ),
        final(enemies)@.len() == old(enemies)@.len(),
        final(map).same_ground(old(map)),
        final(map).placements == old(map).placements,
        *final(game_manager) == (GameManager {
            score: final(game_manager).score,
            ..*old(game_manager)
        }),
        consistent(old(enemies)@, old(map).enemy_index()) ==> consistent(
            final(enemies)@,
            final(map).enemy_index(),
        ),
        forall|e: int|
            0 <= e < final(enemies)@.len() ==> #[trigger] final(enemies)@[e] == match old(
                enemies,
            )@[e] {
                Some(en) => if en.dead() {
                    None
                } else {
                    Some(en)
                },
                None => None,
            },
{
    let n = enemies.len();
    let mut i: usize = 0;
    let mut killed: Vec<EnemyVariant> = Vec::new();
    let ghost start = Reaping {
        enemies: enemies@,
        index: map.enemy_index(),
        score: game_manager.score,
        killed: Seq::empty(),
    };
    while i < n
        invariant
            i <= n,
            enemies@.len() == n,
            n == old(enemies)@.len(),
            start.enemies == old(enemies)@,
            map.same_ground(old(map)),
            map.placements == old(map).placements,
            *game_manager == (GameManager { score: game_manager.score, ..*old(game_manager) }),
            (Reaping {
                enemies: enemies@,
                index: map.enemy_index(),
                score: game_manager.score,
                killed: killed@,
            }) == reaped(start, i as int),
            consistent(start.enemies, start.index) ==> consistent(enemies@, map.enemy_index()),
            forall|e: int| i <= e < n ==> enemies@[e] == old(enemies)@[e],
            forall|e: int|
                0 <= e < i ==> #[trigger] enemies@[e] == match old(enemies)@[e] {
                    Some(en) => if en.dead() {
                        None
                    } else {
                        Some(en)
                    },
                    None => None,
                },
        decreases n - i,
    {
        let slot: Option<Enemy> = enemies[i];
        match slot {
            None => {},
            Some(e) => {
                if e.current_health <= 0 {
                    proof {
                        if consistent(enemies@, map.enemy_index()) {
                            lemma_despawn_consistent(enemies@, map.enemy_index(), i as int);
                        }
                    }
                    map.remove_enemy(e.current_grid_pos, i);
                    enemies.set(i, None);
                    game_manager.score = game_manager.score.saturating_add(e.variant.points());
                    killed.push(e.variant);
                }
            },
        }
        i = i + 1;
    }
    killed
}

/// Whether `after` differs from `before` at most in that enemies have lost
/// health: the same enemies live, none has gained health, and nothing else
/// about them has changed.
pub open spec fn only_hurt(before: Seq<Option<Enemy>>, after: Seq<Option<Enemy>>) -> bool {
    &&& before.len() == after.len()
    &&& forall|i: int|
        0 <= i < before.len() ==> match #[trigger] before[i] {
            Some(a) => {
                &&& after[i] is Some
                &&& after[i].unwrap().current_health <= a.current_health
                &&& after[i].unwrap() == (Enemy {
                    current_health: after[i].unwrap().current_health,
                    ..a
                })
            },
            None => after[i] is None,
        }
}

/// [`only_hurt`] carries over two steps.
pub proof fn lemma_only_hurt_chain(
    a: Seq<Option<Enemy>>,
    b: Seq<Option<Enemy>>,
    c: Seq<Option<Enemy>>,
)
    requires
        only_hurt(a, b),
        only_hurt(b, c),
    ensures
        only_hurt(a, c),
{
    assert forall|i: int| 0 <= i < a.len() implies match #[trigger] a[i] {
        Some(e) => {
            &&& c[i] is Some
            &&& c[i].unwrap().current_health <= e.current_health
            &&& c[i].unwrap() == (Enemy { current_health: c[i].unwrap().current_health, ..e })
        },
        None => c[i] is None,
    } by {}
}

/// Enemies that have only lost health are filed as before, so the index
/// stays consistent.
pub proof fn lemma_only_hurt_consistent(
    before: Seq<Option<Enemy>>,
    after: Seq<Option<Enemy>>,
    index: Map<Cell, Seq<usize>>,
)
    requires
        consistent(before, index),
        only_hurt(before, after),
    ensures
        consistent(after, index),
        all_in_place(before) ==> all_in_place(after),
{
    assert forall|e: int| 0 <= e < after.len() && (#[trigger] after[e]) is Some implies index[after[e].unwrap().current_grid_pos].contains(
        e as usize,
    ) by {
        assert(before[e] is Some);
    }
    if all_in_place(before) {
        assert forall|e: int| 0 <= e < after.len() && (#[trigger] after[e]) is Some implies {
            &&& after[e].unwrap().current_grid_pos.0 == cell_coord(after[e].unwrap().x as int)
            &&& after[e].unwrap().current_grid_pos.1 == cell_coord(after[e].unwrap().y as int)
        } by {}
    }
}

/// `lives` after `breaches` breaches.
pub open spec fn lives_after(lives: u16, breaches: int) -> u16 {
    if breaches >= lives {
        0
    } else if breaches <= 0 {
        lives
    } else {
        (lives - breaches) as u16
    }
}

/// A movement pass takes one life for every breach, as long as lives are
/// left, and never counts breaches down.
pub proof fn lemma_marched_lives(
    m: March,
    n: int,
    path: Seq<(u8, u8)>,
    points: Seq<SpeedUpPoint>,
    dt: u32,
)
    ensures
        marched(m, n, path, points, dt).breaches >= m.breaches,
        marched(m, n, path, points, dt).lives == lives_after(
            m.lives,
            marched(m, n, path, points, dt).breaches - m.breaches,
        ),
    decreases n,
{
    if n > 0 {
        lemma_marched_lives(m, n - 1, path, points, dt);
    }
}

/// `score` after the rewards of the first `k` of `killed` were added, in
/// order.
pub open spec fn score_after(score: u32, killed: Seq<EnemyVariant>, k: int) -> u32
    decreases k,
{
    if k <= 0 {
        score
    } else {
        credited(score_after(score, killed, k - 1), killed[k - 1].reward())
    }
}

/// [`score_after`] looks only at the kills it counts.
pub proof fn lemma_score_after_prefix(
    score: u32,
    a: Seq<EnemyVariant>,
    b: Seq<EnemyVariant>,
    k: int,
)
    requires
        0 <= k <= a.len(),
        k <= b.len(),
        forall|i: int| 0 <= i < k ==> a[i] == b[i],
    ensures
        score_after(score, a, k) == score_after(score, b, k),
    decreases k,
{
    if k > 0 {
        lemma_score_after_prefix(score, a, b, k - 1);
    }
}

/// A kill check that starts without kills adds to the score exactly the
/// rewards of the enemies it kills, and never lowers the score.
pub proof fn lemma_reaped_score(r: Reaping, n: int)
    requires
        r.killed.len() == 0,
    ensures
        reaped(r, n).score == score_after(
            r.score,
            reaped(r, n).killed,
            reaped(r, n).killed.len() as int,
        ),
        reaped(r, n).score >= r.score,
    decreases n,
{
    if n > 0 {
        lemma_reaped_score(r, n - 1);
        let before = reaped(r, n - 1);
        let after = reaped(r, n);
        if after.killed.len() > before.killed.len() {
            lemma_score_after_prefix(r.score, before.killed, after.killed, before.killed.len() as int);
        }
    }
}

/// A living enemy is in one bucket only, the bucket of the cell it stands
/// in, and it is in that bucket once.
///
/// This holds whenever the index is consistent and every living enemy is
/// filed under the cell of its position, which is the case after every
/// tick.
pub proof fn lemma_one_bucket(
    enemies: Seq<Option<Enemy>>,
    index: Map<Cell, Seq<usize>>,
    e: int,
    c: Cell,
)
    requires
        consistent(enemies, index),
        all_in_place(enemies),
        0 <= e < enemies.len(),
        enemies[e] is Some,
    ensures
        index[c].contains(e as usize) <==> (c.0 == cell_coord(enemies[e].unwrap().x as int) && c.1
            == cell_coord(enemies[e].unwrap().y as int)),
        index[c].no_duplicates(),
{
}

/// An enemy that heads for the last waypoint and is due at least the
/// distance that is left to it has breached after the step; in
/// particular when it is due exactly that distance.
pub proof fn lemma_breach_on_arrival(e: Enemy, path: Seq<(u8, u8)>, d: u64)
    requires
        e.path_target + 1 == path.len() <= usize::MAX,
        d >= e.remaining(path),
    ensures
        e.moved(path, d).breached(path.len()),
        e.moved(path, d).x == world_coord(path[e.path_target as int].0 as int),
        e.moved(path, d).y == world_coord(path[e.path_target as int].1 as int),
{
}

/// An enemy that arrives at the last waypoint is gone in the same pass:
/// the movement pass that lets it arrive takes it off the board and takes
/// a life, if one is left.
pub proof fn lemma_breach_same_tick(
    m: March,
    i: int,
    path: Seq<(u8, u8)>,
    points: Seq<SpeedUpPoint>,
    dt: u32,
)
    requires
        0 <= i < m.enemies.len(),
        m.enemies[i] is Some,
        m.enemies[i].unwrap().path_target + 1 == path.len() <= usize::MAX,
        travel(
            m.enemies[i].unwrap().move_speed,
            dt,
            zone_bonus(
                points,
                m.enemies[i].unwrap().x as int,
                m.enemies[i].unwrap().y as int,
                points.len() as int,
            ),
        ) >= m.enemies[i].unwrap().remaining(path),
    ensures
        march_one(m, i, path, points, dt).enemies[i] is None,
        march_one(m, i, path, points, dt).lives == after_breach(m.lives),
        march_one(m, i, path, points, dt).breaches == m.breaches + 1,
{
}

/// Whether two waypoints share a row or a column.
pub open spec fn in_line(a: (u8, u8), b: (u8, u8)) -> bool {
    a.0 == b.0 || a.1 == b.1
}

/// Whether every leg of the path runs along a row or along a column.
pub open spec fn straight(path: Seq<(u8, u8)>) -> bool {
    forall|t: int| 0 <= t && t + 1 < path.len() ==> in_line(#[trigger] path[t], path[t + 1])
}

/// Length of the legs of the path from waypoint `t` to the last waypoint.
pub open spec fn legs_from(path: Seq<(u8, u8)>, t: int) -> int
    decreases path.len() - t,
{
    if t < 0 || t + 1 >= path.len() {
        0
    } else {
        gap(world_coord(path[t].0 as int), world_coord(path[t + 1].0 as int)) + gap(
            world_coord(path[t].1 as int),
            world_coord(path[t + 1].1 as int),
        ) + legs_from(path, t + 1)
    }
}

impl Enemy {
    /// Whether the enemy stands in the row or in the column of the
    /// waypoint it walks towards.
    pub open spec fn aligned(self, path: Seq<(u8, u8)>) -> bool {
        &&& self.path_target < path.len()
        &&& (self.x == world_coord(path[self.path_target as int].0 as int) || self.y
            == world_coord(path[self.path_target as int].1 as int))
    }

    /// An upper bound on the steps that the enemy still takes: the way
    /// that is left to the end of the path, and one step for every
    /// waypoint ahead. It is zero once the enemy has passed the last
    /// waypoint.
    pub open spec fn steps_left(self, path: Seq<(u8, u8)>) -> int {
        if self.path_target >= path.len() {
            0
        } else {
            self.remaining(path) + legs_from(path, self.path_target as int) + (path.len()
                - self.path_target)
        }
    }
}

/// The enemy after the first `k` of `steps`, each a distance due in one
/// tick.
pub open spec fn walked(e: Enemy, path: Seq<(u8, u8)>, steps: Seq<u64>, k: int) -> Enemy
    decreases k,
{
    if k <= 0 {
        e
    } else {
        walked(e, path, steps, k - 1).moved(path, steps[k - 1])
    }
}

/// A step of at least one thousandth of a unit brings an enemy that is in
/// line with its waypoint nearer to the end of a straight path: it is in
/// line again or past the last waypoint, fewer steps are left, and its
/// health is what it was.
pub proof fn lemma_step_nearer(e: Enemy, path: Seq<(u8, u8)>, d: u64)
    requires
        straight(path),
        e.aligned(path),
        path.len() <= usize::MAX,
        d >= 1,
    ensures
        e.moved(path, d).breached(path.len()) || e.moved(path, d).aligned(path),
        e.moved(path, d).steps_left(path) < e.steps_left(path),
        e.moved(path, d).steps_left(path) >= 0,
        e.moved(path, d).current_health == e.current_health,
{
    let t = e.path_target as int;
    let after = e.moved(path, d);
    lemma_legs_not_negative(path, t);
    lemma_legs_not_negative(path, t + 1);
    if d >= e.remaining(path) {
        if t + 1 < path.len() {
            assert(in_line(path[t], path[t + 1]));
        }
    }
}

/// The legs of a path have no negative length.
pub proof fn lemma_legs_not_negative(path: Seq<(u8, u8)>, t: int)
    ensures
        legs_from(path, t) >= 0,
    decreases path.len() - t,
{
    if 0 <= t && t + 1 < path.len() {
        lemma_legs_not_negative(path, t + 1);
    }
}

/// The walk ends: an enemy that starts in line with its waypoint on a
/// straight path, and is due at least one thousandth of a unit in every
/// tick, has passed the last waypoint after as many ticks as
/// [`Enemy::steps_left`] counts, whatever the distances are. It gets
/// there with the health it had.
pub proof fn lemma_walk_ends(e: Enemy, path: Seq<(u8, u8)>, steps: Seq<u64>, k: int)
    requires
        straight(path),
        e.aligned(path) || e.breached(path.len()),
        path.len() <= usize::MAX,
        0 <= k <= steps.len(),
        forall|i: int| 0 <= i < steps.len() ==> #[trigger] steps[i] >= 1,
    ensures
        walked(e, path, steps, k).breached(path.len()) || walked(e, path, steps, k).aligned(path),
        walked(e, path, steps, k).steps_left(path) >= 0,
        walked(e, path, steps, k).breached(path.len()) || walked(e, path, steps, k).steps_left(
            path,
        ) <= e.steps_left(path) - k,
        k >= e.steps_left(path) ==> walked(e, path, steps, k).breached(path.len()),
        walked(e, path, steps, k).current_health == e.current_health,
    decreases k,
{
    if k > 0 {
        lemma_walk_ends(e, path, steps, k - 1);
        let before = walked(e, path, steps, k - 1);
        if !before.breached(path.len()) {
            lemma_step_nearer(before, path, steps[k - 1]);
        }
    }
    lemma_legs_not_negative(path, walked(e, path, steps, k).path_target as int);
}

/// The built-in path is straight, and an enemy that appears in the
/// built-in start cell is in line with the first waypoint; the way to the
/// end is 384 units long and has five waypoints.
pub proof fn lemma_default_path_walkable(
    variant: EnemyVariant,
    health_multiplier: u32,
    speed_multiplier: u32,
)
    ensures
        straight(default_path()),
        Enemy::fresh(variant, default_start(), health_multiplier, speed_multiplier).aligned(
            default_path(),
        ),
        Enemy::fresh(variant, default_start(), health_multiplier, speed_multiplier).steps_left(
            default_path(),
        ) == 384005,
{
    reveal_with_fuel(legs_from, 6);
}

/// The part of its health that an enemy has left, in thousandths.
#[derive(Debug, Clone, Copy, PartialEq, Eq, Structural)]
pub struct HealthBar(pub u32);

impl Enemy {
    /// The health bar of the enemy: an enemy shows one while it has lost
    /// health and is not dead, and the bar shows the part of its health
    /// that is left, rounded down.
    pub open spec fn bar(self) -> Option<HealthBar> {
        if 0 < self.current_health < self.max_health {
            Some(HealthBar((self.current_health * 1000 / (self.max_health as int)) as u32))
        } else {
            None
        }
    }

    /// Computes [`Enemy::bar`].
    pub fn health_bar(&self) -> (b: Option<HealthBar>)
        ensures
            b == self.bar(),
            b matches Some(HealthBar(part)) ==> part < 1000,
    {
        if 0 < self.current_health && self.current_health < self.max_health {
            let part: i128 = self.current_health as i128 * 1000 / self.max_health as i128;
            assert(0 <= part < 1000) by (nonlinear_arith)
                requires
                    0 < self.current_health < self.max_health,
                    part == self.current_health * 1000 / (self.max_health as int),
            ;
            Some(HealthBar(part as u32))
        } else {
            None
        }
    }
}

/// Works out the health bar of every enemy, by handle; see [`Enemy::bar`].
pub fn update_healthbar(enemies: &Vec<Option<Enemy>>) -> (bars: Vec<Option<HealthBar>>)
    ensures
        bars@.len() == enemies@.len(),
        forall|e: int|
            0 <= e < enemies@.len() ==> #[trigger] bars@[e] == match enemies@[e] {
                Some(enemy) => enemy.bar(),
                None => None,
            },
{
    let mut bars: Vec<Option<HealthBar>> = Vec::new();
    let mut i: usize = 0;
    while i < enemies.len()
        invariant
            i <= enemies.len(),
            bars@.len() == i,
            forall|e: int|
                0 <= e < i ==> #[trigger] bars@[e] == match enemies@[e] {
                    Some(enemy) => enemy.bar(),
                    None => None,
                },
        decreases enemies.len() - i,
    {
        let bar = match enemies[i] {
            Some(enemy) => enemy.health_bar(),
            None => None,
        };
        bars.push(bar);
        i = i + 1;
    }
    bars
}

/// Width of a full health bar, in thousandths of a world unit.
pub const BAR_WIDTH: i64 = 20000;

/// How a health bar is drawn: its width as a part of the full width, in
/// thousandths, and the offset of its centre from the centre of the full
/// bar, so that it stays flush left.
pub fn scale_healthbar(bar: HealthBar) -> (drawn: (u32, i64))
    ensures
        drawn.0 == bar.0,
        drawn.1 == (bar.0 as int - 1000) * (BAR_WIDTH / 2) / 1000,
{
    let offset: i64 = (bar.0 as i64 - 1000) * (BAR_WIDTH / 2) / 1000;
    (bar.0, offset)
}

/// An enemy whose health has run out is gone after the kill check that
/// finds it so, and its reward is on the score: it is killed once.
pub proof fn lemma_kill_same_tick(r: Reaping, i: int)
    requires
        0 <= i < r.enemies.len(),
        r.enemies[i] is Some,
        r.enemies[i].unwrap().dead(),
    ensures
        reap_one(r, i).enemies[i] is None,
        reap_one(r, i).score == credited(r.score, r.enemies[i].unwrap().variant.reward()),
        reap_one(r, i).killed == r.killed.push(r.enemies[i].unwrap().variant),
        reap_one(reap_one(r, i), i) == reap_one(r, i),
{
}

} // verus!
