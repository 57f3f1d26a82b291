//! One play-through: everything on the board, and the order in which the
//! passes of a tick run.

use vstd::prelude::*;
use crate::enemies::{
    all_in_place, check_killed, consistent, enemy_movement, lemma_marched_lives,
    lemma_only_hurt_chain, lemma_only_hurt_consistent, lemma_reaped_score, lives_after,
    marched, marched_enemy, only_hurt, placed, reaped, regridded, score_after,
    update_enemy_grid_pos, Enemy, EnemyVariant, March, Reaping, Swarm,
};
use crate::gameplay::{
    game_over_check, gameloop, live_count, offer_ok, scores_after, GameManager, WaveAction,
    WaveState,
};
use crate::grid::{load_map, Cell, GridMap};
use crate::inventory::Inventory;
use crate::state::{Scores, State};
use crate::tower::{
    board_ok, flown, handle_projectiles, launched, PlacedTower, Projectile, Tower, Volley,
};
use crate::tower::charge_shot::{turret_after, turret_shot_ok};
use crate::tower::debuffs::{handle_overheat, heat_ok, SpeedUpPoint};
use crate::tower::laser::{laser_after, lasered};
use crate::tower::missile::{
    guided, handle_missile, silo_after, silo_launches, spawn_missile, Missile, Salvo,
};
use crate::tower::sniper::{sniper_after, sniper_shot_ok};
use crate::ui::{offered, HoverPosition, UiData, UiState};

verus! {

/// What a tick tells the outside world. (That a tower was placed is told
/// by the placement itself.)
#[derive(Debug, Clone, Copy, PartialEq, Eq)]
pub enum Notification {
    /// An enemy of this kind was killed and its reward added to the score.
    EnemyKilled { variant: EnemyVariant, reward: u32 },
    /// An enemy reached the end of the path.
    LifeLost,
    /// A wave is over; this wave is next and these towers are offered.
    WaveFinished { new_wave_index: usize, offered_tower_choices: [Tower; 3] },
    /// The last life is gone.
    GameOver { final_score: u32, final_wave: usize },
}

/// What happened during one tick.
#[derive(Debug)]
pub struct TickReport {
    /// Whether a wave started.
    pub wave_started: bool,
    /// What the wave scheduler asked for.
    pub action: WaveAction,
    /// How many enemies reached the end of the path.
    pub breaches: usize,
    /// The kinds of the enemies that were killed, in order.
    pub killed: Vec<EnemyVariant>,
    /// Whether the game ended in this tick.
    pub game_over: bool,
    /// The same as notifications: the end of a wave, then one for every
    /// life lost, then one for every kill, then the end of the game.
    pub notifications: Vec<Notification>,
}

/// The notification of the end of a wave, if `action` says that one ended.
pub open spec fn wave_notes(action: WaveAction, next_wave: usize, offer: Seq<Tower>) -> Seq<
    Notification,
> {
    if action == WaveAction::Cleared && offer.len() == 3 {
        seq![
            Notification::WaveFinished {
                new_wave_index: next_wave,
                offered_tower_choices: [offer[0], offer[1], offer[2]],
            },
        ]
    } else {
        Seq::empty()
    }
}

/// One notification for each of `breaches` lives lost.
pub open spec fn life_notes(breaches: nat) -> Seq<Notification> {
    Seq::new(breaches, |i: int| Notification::LifeLost)
}

/// One notification for each kill, with the reward of the kind killed.
pub open spec fn kill_notes(killed: Seq<EnemyVariant>) -> Seq<Notification> {
    Seq::new(
        killed.len(),
        |i: int| Notification::EnemyKilled { variant: killed[i], reward: killed[i].reward() },
    )
}

/// The notification of the end of the game, if it ended.
pub open spec fn over_notes(game_over: bool, final_score: u32, final_wave: usize) -> Seq<
    Notification,
> {
    if game_over {
        seq![Notification::GameOver { final_score, final_wave }]
    } else {
        Seq::empty()
    }
}

/// Writes down what a tick has to tell.
pub fn notify(
    action: WaveAction,
    next_wave: usize,
    offer: &UiState,
    breaches: usize,
    killed: &Vec<EnemyVariant>,
    game_over: bool,
    final_score: u32,
) -> (notes: Vec<Notification>)
    ensures
        notes@ == wave_notes(action, next_wave, offered(*offer)) + life_notes(breaches as nat)
            + kill_notes(killed@) + over_notes(game_over, final_score, next_wave),
{
    let mut notes: Vec<Notification> = Vec::new();
    if action == WaveAction::Cleared {
        match offer {
            UiState::PickingTower(options) => {
                if options.len() == 3 {
                    notes.push(
                        Notification::WaveFinished {
                            new_wave_index: next_wave,
                            offered_tower_choices: [options[0], options[1], options[2]],
                        },
                    );
                }
            },
            _ => {},
        }
    }
    let ghost first = notes@;
    let mut i: usize = 0;
    while i < breaches
        invariant
            i <= breaches,
            notes@ == first + life_notes(i as nat),
        decreases breaches - i,
    {
        notes.push(Notification::LifeLost);
        i = i + 1;
    }
    let ghost second = notes@;
    let mut k: usize = 0;
    while k < killed.len()
        invariant
            k <= killed.len(),
            notes@ == second + kill_notes(killed@.take(k as int)),
        decreases killed.len() - k,
    {
        notes.push(Notification::EnemyKilled { variant: killed[k], reward: killed[k].points() });
        k = k + 1;
    }
    if game_over {
        notes.push(Notification::GameOver { final_score, final_wave: next_wave });
    }
    notes
}

/// Everything that belongs to one play-through.
#[derive(Debug)]
pub struct World {
    /// `Game` while the play-through runs, `Results` once it is over.
    pub state: State,
    pub map: GridMap,
    pub game_manager: GameManager,
    /// All enemies ever spawned, by handle; `None` once an enemy is gone.
    pub enemies: Vec<Option<Enemy>>,
    /// All towers, by handle.
    pub towers: Vec<PlacedTower>,
    pub speed_up_points: Vec<SpeedUpPoint>,
    pub projectiles: Vec<Projectile>,
    pub missiles: Vec<Missile>,
    pub inventory: Inventory,
    pub ui_state: UiState,
    pub ui_data: UiData,
    pub hover: HoverPosition,
    pub scores: Scores,
}

/// Whether no enemy of `before` has gained health or come back: every
/// enemy that lives in `after` lived in `before`, is of the same kind and
/// has no more health than it had.
pub open spec fn never_healed(before: Seq<Option<Enemy>>, after: Seq<Option<Enemy>>) -> bool {
    &&& before.len() <= after.len()
    &&& forall|e: int|
        0 <= e < before.len() && (#[trigger] after[e]) is Some ==> {
            &&& before[e] is Some
            &&& after[e].unwrap().current_health <= before[e].unwrap().current_health
            &&& after[e].unwrap().max_health == before[e].unwrap().max_health
            &&& after[e].unwrap().variant == before[e].unwrap().variant
        }
}

/// Whether the towers of `after` are those of `before` with nothing
/// changed but their clocks and whether they overheat.
pub open spec fn same_towers(before: Seq<PlacedTower>, after: Seq<PlacedTower>) -> bool {
    &&& before.len() == after.len()
    &&& forall|t: int|
        0 <= t < before.len() ==> {
            &&& (#[trigger] after[t]).grid_pos == before[t].grid_pos
            &&& after[t].tower.damage == before[t].tower.damage
            &&& after[t].tower.rate == before[t].tower.rate
            &&& after[t].tower.variant == before[t].tower.variant
            &&& after[t].tower.debuff == before[t].tower.debuff
            &&& after[t].tower.target_mode == before[t].tower.target_mode
        }
}

impl World {
    /// What holds between ticks: the scheduler can run, the enemy index is
    /// consistent with the enemies, every living enemy is filed under the
    /// cell it stands in, and the tower index is consistent with the
    /// towers.
    pub open spec fn wf(&self) -> bool {
        &&& self.game_manager.wf()
        &&& consistent(self.enemies@, self.map.enemy_index())
        &&& all_in_place(self.enemies@)
        &&& board_ok(self.towers@, self.map.tower_index())
    }

    /// A new play-through on the built-in map.
    pub fn new() -> (w: World)
        ensures
            w.wf(),
            w.state == State::Game,
            w.map.terrain() == crate::grid::default_terrain(),
            w.map.path@ == crate::grid::default_path(),
            w.map.start_pos == crate::grid::default_start(),
            w.game_manager.waves_view() == crate::gameplay::default_waves(),
            w.game_manager.wave_state == crate::gameplay::WaveState::Waiting,
            w.game_manager.health_multiplier == 1000,
            w.game_manager.speed_multiplier == 1000,
            w.ui_data == (UiData { hovered_pos: None, selected_pos: None }),
            w.enemies@.len() == 0,
            w.towers@.len() == 0,
            w.speed_up_points@.len() == 0,
            w.projectiles@.len() == 0,
            w.missiles@.len() == 0,
            w.inventory.towers@.len() == 0,
            w.ui_state is Normal,
            w.game_manager.lives == 15,
            w.game_manager.score == 0,
            w.game_manager.current_wave == 0,
            w.scores == (Scores { high_score: 0, last_score: 0, last_wave: 0 }),
    {
        World::with_scores(Scores { high_score: 0, last_score: 0, last_wave: 0 })
    }

    /// A new play-through on the built-in map that carries the scores of
    /// earlier ones.
    pub fn with_scores(scores: Scores) -> (w: World)
        ensures
            w.wf(),
            w.state == State::Game,
            w.map.terrain() == crate::grid::default_terrain(),
            w.map.path@ == crate::grid::default_path(),
            w.map.start_pos == crate::grid::default_start(),
            w.game_manager.waves_view() == crate::gameplay::default_waves(),
            w.game_manager.wave_state == crate::gameplay::WaveState::Waiting,
            w.game_manager.health_multiplier == 1000,
            w.game_manager.speed_multiplier == 1000,
            w.ui_data == (UiData { hovered_pos: None, selected_pos: None }),
            w.enemies@.len() == 0,
            w.towers@.len() == 0,
            w.speed_up_points@.len() == 0,
            w.projectiles@.len() == 0,
            w.missiles@.len() == 0,
            w.inventory.towers@.len() == 0,
            w.ui_state is Normal,
            w.game_manager.lives == 15,
            w.game_manager.score == 0,
            w.game_manager.current_wave == 0,
            w.scores == scores,
    {
        let w = World {
            state: State::Game,
            map: load_map(),
            game_manager: GameManager::new(),
            enemies: Vec::new(),
            towers: Vec::new(),
            speed_up_points: Vec::new(),
            projectiles: Vec::new(),
            missiles: Vec::new(),
            inventory: Inventory::new(),
            ui_state: UiState::Normal,
            ui_data: UiData { hovered_pos: None, selected_pos: None },
            hover: HoverPosition(None),
            scores,
        };
        w
    }
}

/// The enemies and the index after the wave scheduler had its way: an
/// enemy that is due stands in the start cell, as the last enemy and the
/// last of its bucket.
pub open spec fn spawned(
    s: Swarm,
    action: WaveAction,
    start: Cell,
    health_multiplier: u32,
    speed_multiplier: u32,
) -> Swarm {
    match action {
        WaveAction::Spawn(variant) => Swarm {
            enemies: s.enemies.push(
                Some(Enemy::fresh(variant, start, health_multiplier, speed_multiplier)),
            ),
            index: s.index.insert(start, s.index[start].push(s.enemies.len() as usize)),
        },
        _ => s,
    }
}

/// The enemies, the index, the lives and the breaches after the first
/// half of a tick: the start of a wave, the scheduler's step and the
/// movement of the enemies.
pub open spec fn tick_march(
    manager: GameManager,
    s: Swarm,
    start: Cell,
    path: Seq<(u8, u8)>,
    points: Seq<SpeedUpPoint>,
    dt: u32,
    requested: bool,
) -> March {
    let started = manager.after_start(requested);
    let action = started.step_action(dt as u64, live_count(s.enemies, s.enemies.len() as int) as usize);
    let s1 = spawned(s, action, start, started.health_multiplier, started.speed_multiplier);
    marched(
        March { enemies: s1.enemies, index: s1.index, lives: manager.lives, breaches: 0 },
        s1.enemies.len() as int,
        path,
        points,
        dt,
    )
}

/// An enemy after it walked for `dt` milliseconds and was filed under the
/// cell it then stands in.
pub open spec fn walked_and_filed(
    slot: Option<Enemy>,
    path: Seq<(u8, u8)>,
    points: Seq<SpeedUpPoint>,
    dt: u32,
) -> Option<Enemy> {
    match marched_enemy(slot, path, points, dt) {
        Some(e) => Some(placed(e)),
        None => None,
    }
}

/// A tower after all the weapon clocks ran for `dt` milliseconds; each
/// tower has one of them at most.
pub open spec fn clocks_run(placed: PlacedTower, dt: u32) -> PlacedTower {
    silo_after(laser_after(sniper_after(turret_after(placed, dt), dt), dt), dt)
}

/// Whether `hot` are the towers `before` after `dt` milliseconds of their
/// overheat clocks. The clocks stand still while the scheduler waits.
pub open spec fn heated_ok(
    before: Seq<PlacedTower>,
    hot: Seq<PlacedTower>,
    waiting: bool,
    dt: u32,
) -> bool {
    if waiting {
        hot == before
    } else {
        &&& hot.len() == before.len()
        &&& forall|t: int| 0 <= t < before.len() ==> heat_ok(before[t], #[trigger] hot[t], dt)
    }
}

/// Whether the shots are what the turrets and the snipers among `towers`
/// may fire in a step of `dt` milliseconds, tower by tower.
pub open spec fn guns_ok(
    towers: Seq<PlacedTower>,
    enemies: Seq<Option<Enemy>>,
    index: Map<Cell, Seq<usize>>,
    dt: u32,
    turret_shots: Seq<Option<Projectile>>,
    sniper_shots: Seq<Option<Projectile>>,
) -> bool {
    &&& turret_shots.len() == towers.len()
    &&& sniper_shots.len() == towers.len()
    &&& forall|t: int|
        0 <= t < towers.len() ==> turret_shot_ok(
            towers[t],
            enemies,
            index,
            dt,
            #[trigger] turret_shots[t],
        )
    &&& forall|t: int|
        0 <= t < towers.len() ==> sniper_shot_ok(
            turret_after(towers[t], dt),
            enemies,
            index,
            dt,
            #[trigger] sniper_shots[t],
        )
}

/// The enemies, the projectiles and the missiles after the weapons had
/// their turns.
pub struct Battle {
    pub enemies: Seq<Option<Enemy>>,
    pub projectiles: Seq<Projectile>,
    pub missiles: Seq<Missile>,
}

/// What the weapons of `towers` make of the board in `dt` milliseconds,
/// given the shots of the guns: the lasers burn, the silos launch, then
/// the projectiles fly, the new ones too, and then the missiles.
pub open spec fn battle(
    enemies: Seq<Option<Enemy>>,
    index: Map<Cell, Seq<usize>>,
    towers: Seq<PlacedTower>,
    projectiles: Seq<Projectile>,
    missiles: Seq<Missile>,
    turret_shots: Seq<Option<Projectile>>,
    sniper_shots: Seq<Option<Projectile>>,
    columns: int,
    rows: int,
    dt: u32,
) -> Battle {
    let aimed = towers.map_values(|p: PlacedTower| sniper_after(turret_after(p, dt), dt));
    let burnt = lasered(enemies, aimed, aimed.len() as int, index, columns, rows, dt);
    let fired = aimed.map_values(|p: PlacedTower| laser_after(p, dt));
    let flying = projectiles + launched(turret_shots, turret_shots.len() as int) + launched(
        sniper_shots,
        sniper_shots.len() as int,
    );
    let homing = missiles + silo_launches(fired, fired.len() as int, dt);
    let volley = flown(
        Volley { enemies: burnt, flying: Seq::empty() },
        flying,
        flying.len() as int,
        dt,
    );
    let salvo = guided(
        Salvo { enemies: volley.enemies, flying: Seq::empty() },
        homing,
        homing.len() as int,
        dt,
    );
    Battle { enemies: salvo.enemies, projectiles: volley.flying, missiles: salvo.flying }
}

/// Whether `after` and `report` are what a tick of `dt` milliseconds makes
/// of the running play-through `before`, where chance has made `hot` of
/// the towers' overheat clocks and has drawn the shots of the guns that
/// target at random.
///
/// The enemies walk and are filed, the weapons have their turns on the
/// towers as the overheat clocks left them, the kill check reaps, and the
/// report counts the breaches and names the kills.
pub open spec fn tick_is(
    before: World,
    after: World,
    report: TickReport,
    dt: u32,
    requested: bool,
    hot: Seq<PlacedTower>,
    turret_shots: Seq<Option<Projectile>>,
    sniper_shots: Seq<Option<Projectile>>,
) -> bool {
    let start = Swarm { enemies: before.enemies@, index: before.map.enemy_index() };
    let march = tick_march(
        before.game_manager,
        start,
        before.map.start_pos,
        before.map.path@,
        before.speed_up_points@,
        dt,
        requested,
    );
    let filed = regridded(
        Swarm { enemies: march.enemies, index: march.index },
        march.enemies.len() as int,
    );
    let fight = battle(
        filed.enemies,
        filed.index,
        hot,
        before.projectiles@,
        before.missiles@,
        turret_shots,
        sniper_shots,
        before.map.columns(),
        before.map.rows(),
        dt,
    );
    let reaping = reaped(
        Reaping {
            enemies: fight.enemies,
            index: filed.index,
            score: before.game_manager.score,
            killed: Seq::empty(),
        },
        fight.enemies.len() as int,
    );
    &&& heated_ok(
        before.towers@,
        hot,
        after.game_manager.wave_state == WaveState::Waiting,
        dt,
    )
    &&& guns_ok(hot, filed.enemies, filed.index, dt, turret_shots, sniper_shots)
    &&& after.towers@ == hot.map_values(|p: PlacedTower| clocks_run(p, dt))
    &&& report.breaches == march.breaches
    &&& after.game_manager.lives == march.lives
    &&& after.enemies@ == reaping.enemies
    &&& after.map.enemy_index() == reaping.index
    &&& after.projectiles@ == fight.projectiles
    &&& after.missiles@ == fight.missiles
    &&& report.killed@ == reaping.killed
    &&& after.game_manager.score == reaping.score
}

/// The first half of a tick: a wave may start, the scheduler steps and an
/// enemy that is due appears, the enemies walk and are filed under the
/// cells they then stand in. Returns whether a wave started, what the
/// scheduler asked for, and how many enemies reached the end of the path.
fn advance(
    game_manager: &mut GameManager,
    enemies: &mut Vec<Option<Enemy>>,
    map: &mut GridMap,
    ui_state: &mut UiState,
    speed_up_points: &Vec<SpeedUpPoint>,
    dt: u32,
    requested: bool,
) -> (r: (bool, WaveAction, usize))
    requires
        old(game_manager).wf(),
        consistent(old(enemies)@, old(map).enemy_index()),
        all_in_place(old(enemies)@),
    ensures
        r.0 == old(game_manager).starts(requested),
        r.1 == old(game_manager).after_start(requested).step_action(
            dt as u64,
            live_count(old(enemies)@, old(enemies)@.len() as int) as usize,
        ),
        *final(game_manager) == (GameManager {
            lives: lives_after(old(game_manager).lives, r.2 as int),
            ..old(game_manager).after_start(requested).stepped(
                dt as u64,
                live_count(old(enemies)@, old(enemies)@.len() as int) as usize,
            )
        }),
        final(game_manager).wf(),
        (March {
            enemies: marched_part(
                *old(game_manager),
                *old(enemies),
                *old(map),
                speed_up_points@,
                dt,
                requested,
            ).enemies,
            index: marched_part(
                *old(game_manager),
                *old(enemies),
                *old(map),
                speed_up_points@,
                dt,
                requested,
            ).index,
            lives: final(game_manager).lives,
            breaches: r.2 as nat,
        }) == marched_part(
                *old(game_manager),
                *old(enemies),
                *old(map),
                speed_up_points@,
                dt,
                requested,
            ),
        (Swarm { enemies: final(enemies)@, index: final(map).enemy_index() }) == regridded(
            Swarm {
                enemies: marched_part(
                *old(game_manager),
                *old(enemies),
                *old(map),
                speed_up_points@,
                dt,
                requested,
            ).enemies,
                index: marched_part(
                *old(game_manager),
                *old(enemies),
                *old(map),
                speed_up_points@,
                dt,
                requested,
            ).index,
            },
            final(enemies)@.len() as int,
        ),
        marched_part(
                *old(game_manager),
                *old(enemies),
                *old(map),
                speed_up_points@,
                dt,
                requested,
            ).enemies.len()
            == final(enemies)@.len(),
        final(enemies)@.len() == old(enemies)@.len() + if r.1 is Spawn {
            1int
        } else {
            0int
        },
        forall|e: int|
            0 <= e < old(enemies)@.len() ==> #[trigger] final(enemies)@[e] == walked_and_filed(
                old(enemies)@[e],
                old(map).path@,
                speed_up_points@,
                dt,
            ),
        forall|e: int|
            0 <= e < final(enemies)@.len() && (#[trigger] final(enemies)@[e]) is Some
                ==> !final(enemies)@[e].unwrap().breached(old(map).path@.len()),
        consistent(final(enemies)@, final(map).enemy_index()),
        all_in_place(final(enemies)@),
        final(map).same_ground(old(map)),
        final(map).placements == old(map).placements,
        if r.1 is Cleared {
            *final(ui_state) is PickingTower && offer_ok(
                final(game_manager).current_wave,
                offered(*final(ui_state)),
            )
        } else {
            *final(ui_state) == *old(ui_state)
        },
{
    let started = game_manager.start_next_wave(requested);
    let action = gameloop(game_manager, enemies, map, ui_state, dt);
    let ghost spawned_enemies = enemies@;
    let ghost spawned_march = March {
        enemies: enemies@,
        index: map.enemy_index(),
        lives: game_manager.lives,
        breaches: 0,
    };
    proof {
        assert(old(map).enemy_index()[old(map).start_pos] == old(map).bucket(old(map).start_pos));
        assert(all_in_place(spawned_enemies)) by {
            assert forall|e: int|
                0 <= e < spawned_enemies.len() && (#[trigger] spawned_enemies[e]) is Some implies {
                &&& spawned_enemies[e].unwrap().current_grid_pos.0 == crate::units::cell_coord(
                    spawned_enemies[e].unwrap().x as int,
                )
                &&& spawned_enemies[e].unwrap().current_grid_pos.1 == crate::units::cell_coord(
                    spawned_enemies[e].unwrap().y as int,
                )
            } by {
                if e < old(enemies)@.len() {
                    assert(spawned_enemies[e] == old(enemies)@[e]);
                }
            }
        }
    }
    let breaches = enemy_movement(map, enemies, speed_up_points, game_manager, dt);
    proof {
        lemma_marched_lives(
            spawned_march,
            spawned_enemies.len() as int,
            old(map).path@,
            speed_up_points@,
            dt,
        );
    }
    let ghost walked = enemies@;
    update_enemy_grid_pos(enemies, map);
    proof {
        assert forall|e: int| 0 <= e < old(enemies)@.len() implies #[trigger] enemies@[e]
            == walked_and_filed(old(enemies)@[e], old(map).path@, speed_up_points@, dt) by {
            assert(spawned_enemies[e] == old(enemies)@[e]);
            assert(walked[e] == marched_enemy(
                spawned_enemies[e],
                old(map).path@,
                speed_up_points@,
                dt,
            ));
        }
        assert forall|e: int| 0 <= e < enemies@.len() && (#[trigger] enemies@[e]) is Some implies !enemies@[e].unwrap().breached(
            old(map).path@.len(),
        ) by {
            assert(walked[e] == marched_enemy(
                spawned_enemies[e],
                old(map).path@,
                speed_up_points@,
                dt,
            ));
        }
    }
    (started, action, breaches)
}

/// What [`tick_march`] makes of the pieces of a play-through.
pub open spec fn marched_part(
    manager: GameManager,
    enemies: Vec<Option<Enemy>>,
    map: GridMap,
    points: Seq<SpeedUpPoint>,
    dt: u32,
    requested: bool,
) -> March {
    tick_march(
        manager,
        Swarm { enemies: enemies@, index: map.enemy_index() },
        map.start_pos,
        map.path@,
        points,
        dt,
        requested,
    )
}

/// The turns of the weapons: the guns shoot, the lasers burn, the silos
/// launch, the projectiles and then the missiles fly. Returns the shots of
/// the turrets and of the snipers, tower by tower.
fn fire(
    towers: &mut Vec<PlacedTower>,
    enemies: &mut Vec<Option<Enemy>>,
    map: &GridMap,
    projectiles: &mut Vec<Projectile>,
    missiles: &mut Vec<Missile>,
    dt: u32,
) -> (shots: (Vec<Option<Projectile>>, Vec<Option<Projectile>>))
    ensures
        guns_ok(old(towers)@, old(enemies)@, map.enemy_index(), dt, shots.0@, shots.1@),
        final(towers)@ == old(towers)@.map_values(|p: PlacedTower| clocks_run(p, dt)),
        (Battle {
            enemies: final(enemies)@,
            projectiles: final(projectiles)@,
            missiles: final(missiles)@,
        }) == battle(
            old(enemies)@,
            map.enemy_index(),
            old(towers)@,
            old(projectiles)@,
            old(missiles)@,
            shots.0@,
            shots.1@,
            map.columns(),
            map.rows(),
            dt,
        ),
        only_hurt(old(enemies)@, final(enemies)@),
{
    let turret_shots = crate::tower::charge_shot::shoot(towers, enemies, map, projectiles, dt);
    let sniper_shots = crate::tower::sniper::shoot(towers, enemies, map, projectiles, dt);
    let ghost aimed = towers@;
    assert(aimed == old(towers)@.map_values(
        |p: PlacedTower| sniper_after(turret_after(p, dt), dt),
    ));
    crate::tower::laser::shoot(towers, enemies, map, dt);
    let ghost fired = towers@;
    let ghost burnt = enemies@;
    assert(fired == aimed.map_values(|p: PlacedTower| laser_after(p, dt)));
    spawn_missile(towers, missiles, dt);
    assert(towers@ == old(towers)@.map_values(|p: PlacedTower| clocks_run(p, dt)));
    handle_projectiles(projectiles, enemies, dt);
    let ghost shot = enemies@;
    handle_missile(missiles, enemies, dt);
    proof {
        lemma_only_hurt_chain(old(enemies)@, burnt, shot);
        lemma_only_hurt_chain(old(enemies)@, shot, enemies@);
    }
    (turret_shots, sniper_shots)
}

impl World {
    /// Runs the play-through for `dt` milliseconds; `start_requested` says
    /// whether the player asked for the next wave.
    ///
    /// The passes run in this order: the start of a wave, the wave
    /// scheduler, the movement of the enemies, their filing under cells,
    /// the overheat clocks, the guns, the lasers, the silos, the
    /// projectiles, the missiles, the kill check and the game-over check.
    /// So the towers aim at an up-to-date index, and the kill check sees
    /// all the damage of the tick.
    ///
    /// Once the play-through is over, a tick does nothing.
    #[verifier::rlimit(50)]
    pub fn tick(&mut self, dt: u32, start_requested: bool) -> (report: TickReport)
        requires
            old(self).wf(),
        ensures
            final(self).wf(),
            old(self).state != State::Game ==> {
                &&& *final(self) == *old(self)
                &&& !report.wave_started
                &&& report.action == WaveAction::Idle
                &&& report.breaches == 0
                &&& report.killed@.len() == 0
                &&& !report.game_over
                &&& report.notifications@.len() == 0
            },
            old(self).state == State::Game ==> {
                &&& exists|
                    hot: Seq<PlacedTower>,
                    turret_shots: Seq<Option<Projectile>>,
                    sniper_shots: Seq<Option<Projectile>>,
                |
                    tick_is(
                        *old(self),
                        *final(self),
                        report,
                        dt,
                        start_requested,
                        hot,
                        turret_shots,
                        sniper_shots,
                    )
                &&& report.wave_started == old(self).game_manager.starts(start_requested)
                &&& report.action == old(self).game_manager.after_start(start_requested).step_action(
                    dt as u64,
                    live_count(old(self).enemies@, old(self).enemies@.len() as int) as usize,
                )
                &&& final(self).game_manager == (GameManager {
                    lives: lives_after(old(self).game_manager.lives, report.breaches as int),
                    score: score_after(
                        old(self).game_manager.score,
                        report.killed@,
                        report.killed@.len() as int,
                    ),
                    ..old(self).game_manager.after_start(start_requested).stepped(
                        dt as u64,
                        live_count(old(self).enemies@, old(self).enemies@.len() as int) as usize,
                    )
                })
                &&& report.game_over == (final(self).game_manager.lives == 0)
                &&& report.notifications@ == wave_notes(
                    report.action,
                    final(self).game_manager.current_wave,
                    offered(final(self).ui_state),
                ) + life_notes(report.breaches as nat) + kill_notes(report.killed@) + over_notes(
                    report.game_over,
                    final(self).game_manager.score,
                    final(self).game_manager.current_wave,
                )
                &&& final(self).state == if report.game_over {
                    State::Results
                } else {
                    State::Game
                }
                &&& final(self).scores == scores_after(final(self).game_manager, old(self).scores)
                &&& never_healed(old(self).enemies@, final(self).enemies@)
                &&& final(self).enemies@.len() == old(self).enemies@.len() + if report.action
                    is Spawn {
                    1int
                } else {
                    0int
                }
                &&& forall|e: int|
                    0 <= e < old(self).enemies@.len() && (#[trigger] final(self).enemies@[e])
                        is Some ==> {
                        &&& walked_and_filed(
                            old(self).enemies@[e],
                            old(self).map.path@,
                            old(self).speed_up_points@,
                            dt,
                        ) is Some
                        &&& final(self).enemies@[e].unwrap() == (Enemy {
                            current_health: final(self).enemies@[e].unwrap().current_health,
                            ..walked_and_filed(
                                old(self).enemies@[e],
                                old(self).map.path@,
                                old(self).speed_up_points@,
                                dt,
                            ).unwrap()
                        })
                    }
                &&& forall|e: int|
                    0 <= e < final(self).enemies@.len() && (#[trigger] final(self).enemies@[e])
                        is Some ==> {
                        &&& !final(self).enemies@[e].unwrap().dead()
                        &&& !final(self).enemies@[e].unwrap().breached(old(self).map.path@.len())
                    }
                &&& same_towers(old(self).towers@, final(self).towers@)
                &&& final(self).speed_up_points@ == old(self).speed_up_points@
                &&& final(self).inventory.towers@ == old(self).inventory.towers@
                &&& final(self).ui_data == old(self).ui_data
                &&& final(self).map.same_ground(&old(self).map)
                &&& final(self).map.placements == old(self).map.placements
                &&& if report.action is Cleared {
                    final(self).ui_state is PickingTower && offer_ok(
                        final(self).game_manager.current_wave,
                        offered(final(self).ui_state),
                    )
                } else {
                    final(self).ui_state == old(self).ui_state
                }
            },
    {
        if self.state != State::Game {
            return TickReport {
                wave_started: false,
                action: WaveAction::Idle,
                breaches: 0,
                killed: Vec::new(),
                game_over: false,
                notifications: Vec::new(),
            };
        }
        let ghost tower_index = self.map.tower_index();
        let (wave_started, action, breaches) = advance(
            &mut self.game_manager,
            &mut self.enemies,
            &mut self.map,
            &mut self.ui_state,
            &self.speed_up_points,
            dt,
            start_requested,
        );
        let ghost filed = self.enemies@;
        let ghost index = self.map.enemy_index();
        handle_overheat(&mut self.towers, self.game_manager.wave_state, dt);
        let ghost hot = self.towers@;
        let (turret_shots, sniper_shots) = fire(
            &mut self.towers,
            &mut self.enemies,
            &self.map,
            &mut self.projectiles,
            &mut self.missiles,
            dt,
        );
        let ghost fought = self.enemies@;
        proof {
            lemma_only_hurt_consistent(filed, fought, index);
        }
        let ghost reaping = Reaping {
            enemies: fought,
            index: self.map.enemy_index(),
            score: self.game_manager.score,
            killed: Seq::empty(),
        };
        let killed = check_killed(&mut self.enemies, &mut self.map, &mut self.game_manager);
        proof {
            lemma_reaped_score(reaping, fought.len() as int);
            assert(self.map.tower_index() =~= tower_index);
        }
        let game_over = game_over_check(&self.game_manager, &mut self.scores);
        if game_over {
            self.state = State::Results;
        }
        let notifications = notify(
            action,
            self.game_manager.current_wave,
            &self.ui_state,
            breaches,
            &killed,
            game_over,
            self.game_manager.score,
        );
        let report = TickReport { wave_started, action, breaches, killed, game_over, notifications };
        proof {
            assert(tick_is(
                *old(self),
                *self,
                report,
                dt,
                start_requested,
                hot,
                turret_shots@,
                sniper_shots@,
            ));
        }
        report
    }
}

} // verus!
