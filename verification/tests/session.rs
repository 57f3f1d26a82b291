use tower_defense::enemies::{Enemy, EnemyVariant};
use tower_defense::gameplay::{
    count_live, game_over_check, gameloop, make_offer, GameManager, WaveAction, WaveState,
};
use tower_defense::grid::{key_of, load_map, GridMap};
use tower_defense::state::{
    button_system, handle_main_menu_button, trigger_game_over, MenuButton, Scores, State,
};
use tower_defense::audio::VolumeSettings;
use tower_defense::timer::Timer;
use tower_defense::tower::debuffs::Debuff;
use tower_defense::tower::laser::Direction;
use tower_defense::tower::{place_tower, Tower, TowerType};
use tower_defense::ui::UiState;
use tower_defense::world::{notify, Notification, TickReport, World};

fn assert_world_consistent(w: &World) {
    let mut seen = vec![0usize; w.enemies.len()];
    for (key, bucket) in w.map.enemies.iter() {
        for id in bucket {
            let enemy = w.enemies[*id].expect("a bucket names an enemy that is gone");
            assert_eq!(key_of(enemy.current_grid_pos), *key);
            assert_eq!(enemy.current_grid_pos, GridMap::get_grid_pos((enemy.x, enemy.y)));
            seen[*id] += 1;
        }
    }
    for (id, slot) in w.enemies.iter().enumerate() {
        assert_eq!(seen[id], if slot.is_some() { 1 } else { 0 });
        if let Some(e) = slot {
            assert!(e.current_health > 0);
            assert!(e.path_target < w.map.path.len());
        }
    }
    for (id, placed) in w.towers.iter().enumerate() {
        assert_eq!(w.map.tower_at(placed.grid_pos), Some(id));
    }
    assert_eq!(w.map.placements.len(), w.towers.len());
}

#[test]
fn scores_are_recorded_when_the_last_life_is_gone() {
    let mut gm = GameManager::new();
    gm.score = 120;
    gm.current_wave = 9;
    let mut scores = Scores { high_score: 100, last_score: 5, last_wave: 2 };
    assert!(!game_over_check(&gm, &mut scores));
    assert_eq!(scores, Scores { high_score: 100, last_score: 5, last_wave: 2 });
    gm.lives = 0;
    assert!(game_over_check(&gm, &mut scores));
    assert_eq!(scores, Scores { high_score: 120, last_score: 120, last_wave: 9 });
    // A lower score leaves the high score alone.
    gm.score = 60;
    assert!(game_over_check(&gm, &mut scores));
    assert_eq!(scores, Scores { high_score: 120, last_score: 60, last_wave: 9 });
    // An equal score does too.
    gm.score = 120;
    gm.current_wave = usize::MAX;
    assert!(game_over_check(&gm, &mut scores));
    assert_eq!(scores, Scores { high_score: 120, last_score: 120, last_wave: u32::MAX });
}

#[test]
fn the_wave_loop_spawns_at_the_start_cell() {
    let mut gm = GameManager::new();
    let mut map = load_map();
    let mut enemies: Vec<Option<Enemy>> = vec![None];
    let mut ui = UiState::Normal;
    gm.current_wave = 4;
    gm.wave_state = WaveState::Spawning(7);
    gm.health_multiplier = 1200;
    gm.speed_multiplier = 1500;
    gm.spawn_timer = Timer::new(10);
    assert_eq!(gameloop(&mut gm, &mut enemies, &mut map, &mut ui, 9), WaveAction::Idle);
    assert_eq!(enemies.len(), 1);
    let action = gameloop(&mut gm, &mut enemies, &mut map, &mut ui, 1);
    assert_eq!(action, WaveAction::Spawn(EnemyVariant::Normal));
    assert_eq!(enemies.len(), 2);
    assert_eq!(enemies[1], Some(Enemy::new(EnemyVariant::Normal, (-1, 4), 1200, 1500)));
    assert_eq!(enemies[1].unwrap().max_health, 6_000);
    assert_eq!(enemies[1].unwrap().move_speed, 30_000);
    assert_eq!(map.enemies_at((-1, 4)), Some(&vec![1]));
    assert_eq!(gm.wave_state, WaveState::Spawning(8));
    assert_eq!(count_live(&enemies), 1);
    assert_eq!(ui, UiState::Normal);
    // The ninth enemy of this wave is the first of its second segment.
    let action = gameloop(&mut gm, &mut enemies, &mut map, &mut ui, 1_000);
    assert_eq!(action, WaveAction::Spawn(EnemyVariant::Fast));
    assert_eq!(map.enemies_at((-1, 4)), Some(&vec![1, 2]));
}

#[test]
fn the_offer_after_the_first_wave_is_fixed() {
    let offer = make_offer(1);
    assert_eq!(
        offer,
        vec![
            Tower::new(500, 1800, TowerType::ChargeShot, Debuff::LaserIncompatible),
            Tower::new(170, 4000, TowerType::Laser, Debuff::ReduceColumnDamage(10)),
            Tower::new(3000, 300, TowerType::Sniper, Debuff::ReduceNeighbourRate(15)),
        ]
    );
    for wave in [0, 2, 30] {
        let offer = make_offer(wave);
        assert_eq!(offer.len(), 3);
        for t in offer {
            assert!(Tower::suits(t.variant, t.debuff));
        }
    }
}

#[test]
fn clearing_a_wave_offers_towers() {
    let mut gm = GameManager::new();
    let mut map = load_map();
    let mut enemies: Vec<Option<Enemy>> = vec![None, None];
    let mut ui = UiState::Normal;
    gm.wave_state = WaveState::Finished;
    let action = gameloop(&mut gm, &mut enemies, &mut map, &mut ui, 16);
    assert_eq!(action, WaveAction::Cleared);
    assert_eq!(gm.current_wave, 1);
    match ui {
        UiState::PickingTower(options) => assert_eq!(options, make_offer(1)),
        other => panic!("no offer: {:?}", other),
    }
}

fn run(world: &mut World, ticks: usize, dt: u32, start: bool) -> Vec<TickReport> {
    let mut reports = Vec::new();
    for _ in 0..ticks {
        let before: Vec<Option<i64>> =
            world.enemies.iter().map(|e| e.map(|e| e.current_health)).collect();
        let lives = world.game_manager.lives;
        let score = world.game_manager.score;
        let report = world.tick(dt, start);
        assert_world_consistent(world);
        for (id, old) in before.iter().enumerate() {
            if let Some(now) = world.enemies[id] {
                assert!(now.current_health <= old.expect("an enemy came back"));
            }
        }
        assert!(world.game_manager.lives <= lives);
        assert!(world.game_manager.score >= score);
        reports.push(report);
    }
    reports
}

#[test]
fn a_fresh_world_is_empty() {
    let w = World::new();
    assert_eq!(w.state, State::Game);
    assert!(w.enemies.is_empty() && w.towers.is_empty() && w.projectiles.is_empty());
    assert!(w.missiles.is_empty() && w.speed_up_points.is_empty());
    assert!(w.inventory.towers.is_empty());
    assert_eq!(w.ui_state, UiState::Normal);
    assert_eq!(w.scores, Scores::default());
    assert_eq!(w.game_manager.lives, 15);
    let again = World::with_scores(Scores { high_score: 7, last_score: 3, last_wave: 1 });
    assert_eq!(again.scores.high_score, 7);
}

#[test]
fn the_first_ticks_play_the_empty_wave_and_offer_the_starters() {
    let mut w = World::new();
    let first = w.tick(16, false);
    assert!(first.wave_started);
    assert_eq!(first.action, WaveAction::Idle);
    assert_eq!(w.game_manager.wave_state, WaveState::Spawning(0));
    let reports = run(&mut w, 10, 16, false);
    let cleared: Vec<usize> = reports
        .iter()
        .enumerate()
        .filter(|(_, r)| r.action == WaveAction::Cleared)
        .map(|(i, _)| i)
        .collect();
    assert_eq!(cleared.len(), 1);
    assert_eq!(w.game_manager.current_wave, 1);
    assert_eq!(w.game_manager.wave_state, WaveState::Waiting);
    match &w.ui_state {
        UiState::PickingTower(options) => assert_eq!(*options, make_offer(1)),
        other => panic!("no offer: {:?}", other),
    }
    // Wave one does not start by itself.
    let reports = run(&mut w, 10, 16, false);
    assert!(reports.iter().all(|r| !r.wave_started));
}

#[test]
fn undefended_waves_end_the_game_exactly_once() {
    let mut w = World::new();
    w.game_manager.score = 40;
    w.scores.high_score = 25;
    let mut game_overs = 0;
    let mut breaches = 0;
    let mut ticks = 0;
    while w.state == State::Game {
        let report = run(&mut w, 1, 50, true).pop().unwrap();
        breaches += report.breaches;
        assert!(report.killed.is_empty());
        if report.game_over {
            game_overs += 1;
        }
        ticks += 1;
        assert!(ticks < 100_000, "the game never ended");
    }
    assert_eq!(game_overs, 1);
    assert!(breaches >= 15);
    assert_eq!(w.state, State::Results);
    assert_eq!(w.game_manager.lives, 0);
    assert_eq!(w.game_manager.score, 40);
    assert_eq!(w.scores.last_score, 40);
    assert_eq!(w.scores.high_score, 40);
    assert_eq!(w.scores.last_wave, w.game_manager.current_wave as u32);
    // Further ticks change nothing and report nothing.
    let enemies = w.enemies.clone();
    let wave = w.game_manager.current_wave;
    for _ in 0..20 {
        let report = w.tick(50, true);
        assert!(!report.game_over && !report.wave_started);
        assert_eq!(report.action, WaveAction::Idle);
        assert_eq!(report.breaches, 0);
        assert!(report.killed.is_empty());
    }
    assert_eq!(w.enemies, enemies);
    assert_eq!(w.game_manager.current_wave, wave);
    assert_eq!(w.game_manager.score, 40);
    assert_eq!(w.scores.high_score, 40);
    assert_eq!(w.state, State::Results);
}

#[test]
fn a_defended_board_kills_and_scores() {
    let mut w = World::new();
    let strong = |variant, damage, rate| Tower::new(damage, rate, variant, Debuff::Immune);
    for (variant, damage, rate, cell) in [
        (TowerType::ChargeShot, 2_000, 4_000, (0, 3)),
        (TowerType::ChargeShot, 2_000, 4_000, (2, 3)),
        (TowerType::Sniper, 5_000, 2_000, (2, 2)),
        (TowerType::Laser, 1_000, 4_000, (0, 1)),
        (TowerType::Missile, 8_000, 1_000, (4, 0)),
        (TowerType::Jammer, 0, 0, (0, 5)),
    ] {
        place_tower(
            strong(variant, damage, rate),
            cell,
            Direction::Right,
            &mut w.towers,
            &mut w.map,
            &mut w.speed_up_points,
        )
        .unwrap();
    }
    assert_world_consistent(&w);
    let mut killed = Vec::new();
    let mut spawned = 0;
    for _ in 0..6_000 {
        if let UiState::PickingTower(_) = w.ui_state {
            w.ui_state = UiState::Normal;
        }
        let mut report = run(&mut w, 1, 16, true).pop().unwrap();
        if let WaveAction::Spawn(_) = report.action {
            spawned += 1;
        }
        killed.append(&mut report.killed);
        if w.game_manager.current_wave >= 3 {
            break;
        }
    }
    assert_eq!(w.game_manager.current_wave, 3);
    // Waves one and two have thirteen enemies, and none gets through.
    assert_eq!(spawned, 13);
    assert_eq!(killed.len(), 13);
    assert_eq!(w.game_manager.lives, 15);
    let reward: u32 = killed.iter().map(|v| v.points()).sum();
    assert_eq!(reward, 10 * 1 + 3 * 2);
    assert_eq!(w.game_manager.score, reward);
    assert!(w.enemies.iter().all(|e| e.is_none()));
}

#[test]
fn screens_follow_their_buttons() {
    assert_eq!(State::default(), State::Loading);
    let mut state = State::MainMenu;
    let mut volume = VolumeSettings::default();
    button_system(MenuButton::Sound, &mut state, &mut volume);
    assert_eq!(state, State::MainMenu);
    assert_eq!(volume, VolumeSettings { sfx_vol: 9, music_vol: 10 });
    button_system(MenuButton::Music, &mut state, &mut volume);
    assert_eq!(volume, VolumeSettings { sfx_vol: 9, music_vol: 9 });
    button_system(MenuButton::Start, &mut state, &mut volume);
    assert_eq!(state, State::Game);
    assert_eq!(volume, VolumeSettings { sfx_vol: 9, music_vol: 9 });
    state = State::Results;
    handle_main_menu_button(&mut state, false);
    assert_eq!(state, State::Results);
    handle_main_menu_button(&mut state, true);
    assert_eq!(state, State::MainMenu);
    state = State::Game;
    trigger_game_over(&mut state, false);
    assert_eq!(state, State::Game);
    trigger_game_over(&mut state, true);
    assert_eq!(state, State::MainMenu);
}

#[test]
fn volumes_step_down_and_wrap() {
    let mut v = VolumeSettings::default();
    let mut seen = Vec::new();
    for _ in 0..12 {
        v.toggle_sfx_vol();
        seen.push(v.sfx_vol);
    }
    assert_eq!(seen, vec![9, 8, 7, 6, 5, 4, 3, 2, 1, 0, 10, 9]);
    assert_eq!(v.music_vol, 10);
    v.toggle_music_vol();
    assert_eq!(v.music_vol, 9);
    assert_eq!(v.sound_label(), " Sound: 90% ");
    assert_eq!(v.music_label(), " Music: 90% ");
    assert_eq!(VolumeSettings { sfx_vol: 0, music_vol: 10 }.sound_label(), " Sound: 0% ");
    assert_eq!(VolumeSettings { sfx_vol: 0, music_vol: 10 }.music_label(), " Music: 100% ");
}

#[test]
fn notifications_follow_what_happened() {
    let offer = UiState::PickingTower(make_offer(1));
    let killed = vec![EnemyVariant::Boss, EnemyVariant::Weak];
    let notes = notify(WaveAction::Cleared, 4, &offer, 2, &killed, true, 77);
    let starters = make_offer(1);
    assert_eq!(
        notes,
        vec![
            Notification::WaveFinished {
                new_wave_index: 4,
                offered_tower_choices: [starters[0], starters[1], starters[2]],
            },
            Notification::LifeLost,
            Notification::LifeLost,
            Notification::EnemyKilled { variant: EnemyVariant::Boss, reward: 20 },
            Notification::EnemyKilled { variant: EnemyVariant::Weak, reward: 1 },
            Notification::GameOver { final_score: 77, final_wave: 4 },
        ]
    );
    assert!(notify(WaveAction::Idle, 4, &offer, 0, &vec![], false, 77).is_empty());
    let spawn = notify(WaveAction::Spawn(EnemyVariant::Fast), 4, &UiState::Normal, 1, &vec![], false, 0);
    assert_eq!(spawn, vec![Notification::LifeLost]);
}

#[test]
fn the_game_over_notification_comes_once() {
    let mut w = World::new();
    let mut overs = Vec::new();
    let mut lives_lost = 0;
    let mut ticks_after_the_end = 0;
    while ticks_after_the_end < 100 {
        assert!(lives_lost <= 100_000, "the game never ended");
        let report = w.tick(50, true);
        for note in &report.notifications {
            match note {
                Notification::GameOver { final_score, final_wave } => {
                    overs.push((*final_score, *final_wave))
                }
                Notification::LifeLost => lives_lost += 1,
                Notification::EnemyKilled { .. } => panic!("nothing shoots"),
                Notification::WaveFinished { new_wave_index, .. } => {
                    assert_eq!(*new_wave_index, w.game_manager.current_wave)
                }
            }
        }
        if w.state == State::Results {
            ticks_after_the_end += 1;
        }
    }
    assert_eq!(overs, vec![(0, w.game_manager.current_wave)]);
    assert!(lives_lost >= 15);
}

#[test]
fn a_tick_moves_enemies_and_runs_the_weapons_while_a_wave_is_finished() {
    let mut w = World::new();
    place_tower(
        Tower::new(1_000, 1_000, TowerType::Laser, Debuff::Immune),
        (0, 3),
        Direction::Right,
        &mut w.towers,
        &mut w.map,
        &mut w.speed_up_points,
    )
    .unwrap();
    w.game_manager.current_wave = 3;
    w.game_manager.wave_state = WaveState::Finished;
    let mut e = Enemy::new(EnemyVariant::Normal, (1, 3), 1000, 1000);
    e.path_target = 1;
    w.enemies.push(Some(e));
    w.map.insert_enemy((1, 3), 0);
    let report = w.tick(1_000, false);
    assert_eq!(report.action, WaveAction::Idle);
    assert_eq!(report.breaches, 0);
    assert!(report.killed.is_empty() && report.notifications.is_empty());
    let after = w.enemies[0].unwrap();
    // Twenty units down the column and filed under the next row: the beam along row three
    // misses it.
    assert_eq!((after.x, after.y), (32_000, 76_000));
    assert_eq!(after.current_grid_pos, (1, 2));
    assert_eq!(after.distance_travelled, 20_000);
    assert_eq!(after.current_health, 5_000);
    assert_eq!(w.map.enemies_at((1, 2)), Some(&vec![0]));
    // The laser's clock has started anew.
    match w.towers[0].weapon {
        tower_defense::tower::Weapon::Laser(laser) => assert_eq!(laser.timer, Timer::new(1_000)),
        other => panic!("{:?}", other),
    }
    // A slow enemy stays in the row of the laser and is burnt once.
    let mut again = World::new();
    place_tower(
        Tower::new(1_000, 1_000, TowerType::Laser, Debuff::Immune),
        (0, 3),
        Direction::Right,
        &mut again.towers,
        &mut again.map,
        &mut again.speed_up_points,
    )
    .unwrap();
    again.game_manager.current_wave = 3;
    again.game_manager.wave_state = WaveState::Finished;
    let mut slow = Enemy::new(EnemyVariant::Normal, (1, 3), 1000, 1000);
    slow.path_target = 1;
    slow.move_speed = 1_000;
    again.enemies.push(Some(slow));
    again.map.insert_enemy((1, 3), 0);
    again.tick(1_000, false);
    let burnt = again.enemies[0].unwrap();
    assert_eq!((burnt.x, burnt.y), (32_000, 95_000));
    assert_eq!(burnt.current_health, 4_000);
}
