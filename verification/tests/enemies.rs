use tower_defense::enemies::{
    check_killed, enemy_movement, scale_healthbar, travel_distance, update_enemy_grid_pos,
    update_healthbar, Enemy, EnemyVariant, HealthBar,
};
use tower_defense::gameplay::GameManager;
use tower_defense::grid::{load_map, GridMap};
use tower_defense::tower::debuffs::{zone_bonus_at, SpeedUpPoint};

fn all_variants() -> Vec<EnemyVariant> {
    vec![
        EnemyVariant::Weak,
        EnemyVariant::Normal,
        EnemyVariant::Fast,
        EnemyVariant::Strong,
        EnemyVariant::Boss,
        EnemyVariant::StrongFast,
        EnemyVariant::UltraBoss,
    ]
}

/// Every living enemy is in exactly one bucket, once, and that bucket is the
/// one of the cell it is filed under.
fn assert_index_consistent(map: &GridMap, enemies: &Vec<Option<Enemy>>) {
    let mut seen = vec![0usize; enemies.len()];
    for (key, bucket) in map.enemies.iter() {
        for id in bucket {
            let enemy = enemies[*id].expect("a bucket names an enemy that is gone");
            assert_eq!(tower_defense::grid::key_of(enemy.current_grid_pos), *key);
            seen[*id] += 1;
        }
    }
    for (id, slot) in enemies.iter().enumerate() {
        assert_eq!(seen[id], if slot.is_some() { 1 } else { 0 });
    }
}

fn assert_in_place(enemies: &Vec<Option<Enemy>>) {
    for e in enemies.iter().flatten() {
        assert_eq!(e.current_grid_pos, GridMap::get_grid_pos((e.x, e.y)));
    }
}

#[test]
fn rewards_by_kind() {
    let points: Vec<u32> = all_variants().iter().map(|v| v.points()).collect();
    assert_eq!(points, vec![1, 2, 4, 10, 20, 15, 50]);
}

#[test]
fn new_enemies_have_the_stats_of_their_kind() {
    let expect = [
        (2_000, 15_000),
        (5_000, 20_000),
        (5_000, 40_000),
        (20_000, 15_000),
        (100_000, 10_000),
        (20_000, 35_000),
        (250_000, 10_000),
    ];
    for (variant, (health, speed)) in all_variants().into_iter().zip(expect) {
        let e = Enemy::new(variant, (-1, 4), 1000, 1000);
        assert_eq!(e.variant, variant);
        assert_eq!(e.max_health, health);
        assert_eq!(e.current_health, health);
        assert_eq!(e.move_speed, speed);
        assert_eq!(e.path_target, 0);
        assert_eq!(e.current_grid_pos, (-1, 4));
        assert_eq!(e.distance_travelled, 0);
        assert_eq!((e.x, e.y), (-32_000, 128_000));
    }
}

#[test]
fn multipliers_scale_health_and_speed() {
    let e = Enemy::new(EnemyVariant::Normal, (0, 0), 1100, 1300);
    assert_eq!(e.max_health, 5_500);
    assert_eq!(e.move_speed, 26_000);
    let huge = Enemy::new(EnemyVariant::UltraBoss, (0, 0), u32::MAX, u32::MAX);
    assert_eq!(huge.max_health, 250 * u32::MAX as i64);
    assert_eq!(huge.move_speed, u32::MAX);
    let none = Enemy::new(EnemyVariant::Boss, (0, 0), 0, 0);
    assert_eq!(none.max_health, 0);
    assert_eq!(none.move_speed, 0);
}

#[test]
fn damage_only_lowers_health() {
    let mut e = Enemy::new(EnemyVariant::Normal, (0, 0), 1000, 1000);
    e.take_damage(500);
    assert_eq!(e.current_health, 4_500);
    e.take_damage(0);
    assert_eq!(e.current_health, 4_500);
    e.take_damage(5_000);
    assert_eq!(e.current_health, -500);
    assert_eq!(e.max_health, 5_000);
    e.current_health = i64::MIN + 5;
    e.take_damage(10);
    assert_eq!(e.current_health, i64::MIN);
}

#[test]
fn travel_is_speed_times_time_with_zone_bonus() {
    // 20 units per second for 16 ms.
    assert_eq!(travel_distance(20_000, 16, 0), 320);
    assert_eq!(travel_distance(20_000, 1000, 0), 20_000);
    // A jammer slows by 40 percent.
    assert_eq!(travel_distance(20_000, 16, -40), 192);
    // Two zones add up: -40 and +25 make -15.
    assert_eq!(travel_distance(20_000, 1000, -15), 17_000);
    // Three jammers would turn the enemy round; it stands still instead.
    assert_eq!(travel_distance(20_000, 16, -120), 0);
    assert_eq!(travel_distance(20_000, 16, -100), 0);
    assert_eq!(travel_distance(20_000, 16, 45), 464);
    assert_eq!(travel_distance(0, 16, 45), 0);
    assert_eq!(travel_distance(20_000, 0, 45), 0);
    // Rounding is towards minus infinity.
    assert_eq!(travel_distance(1_000, 3, -50), 1);
    assert_eq!(travel_distance(1_000, 3, 50), 4);
    assert_eq!(travel_distance(u32::MAX, u32::MAX, i128::MAX), u64::MAX);
    assert_eq!(travel_distance(u32::MAX, u32::MAX, i128::MIN), 0);
}

#[test]
fn zones_reach_one_and_a_half_cells() {
    let zone = SpeedUpPoint { percent: 30, x: 0, y: 0 };
    assert!(zone.is_near(0, 0));
    assert!(zone.is_near(48_000, 0));
    assert!(zone.is_near(0, -48_000));
    assert!(!zone.is_near(48_001, 0));
    assert!(zone.is_near(28_800, 38_400));
    assert!(!zone.is_near(28_801, 38_400));
    assert!(!zone.is_near(i32::MAX, i32::MIN));
    let points = vec![
        zone,
        SpeedUpPoint { percent: -40, x: 32_000, y: 0 },
        SpeedUpPoint { percent: 15, x: 320_000, y: 0 },
    ];
    assert_eq!(zone_bonus_at(&points, 16_000, 0), -10);
    assert_eq!(zone_bonus_at(&points, -40_000, 0), 30);
    assert_eq!(zone_bonus_at(&points, 300_000, 0), 15);
    assert_eq!(zone_bonus_at(&points, 0, 200_000), 0);
    assert_eq!(zone_bonus_at(&vec![], 0, 0), 0);
}

#[test]
fn enemies_walk_one_axis_at_a_time() {
    let path = vec![(1, 4), (1, 1), (3, 1)];
    let mut e = Enemy::new(EnemyVariant::Normal, (-1, 4), 1000, 1000);
    e.advance(&path, 1_000);
    assert_eq!((e.x, e.y), (-31_000, 128_000));
    assert_eq!(e.path_target, 0);
    assert_eq!(e.distance_travelled, 1_000);
    // Exactly what is left: the enemy stands on the waypoint and turns.
    e.advance(&path, 63_000);
    assert_eq!((e.x, e.y), (32_000, 128_000));
    assert_eq!(e.path_target, 1);
    // The next leg goes down the column.
    e.advance(&path, 500);
    assert_eq!((e.x, e.y), (32_000, 127_500));
    // More than what is left: the rest is lost, and only the way covered counts.
    e.advance(&path, 1_000_000);
    assert_eq!((e.x, e.y), (32_000, 32_000));
    assert_eq!(e.path_target, 2);
    assert_eq!(e.distance_travelled, 1_000 + 63_000 + 500 + 95_500);
    e.advance(&path, 10);
    assert_eq!((e.x, e.y), (32_010, 32_000));
}

#[test]
fn a_leg_that_goes_across_is_walked_along_the_row_first() {
    let path = vec![(2, 2)];
    let mut e = Enemy::new(EnemyVariant::Normal, (0, 0), 1000, 1000);
    e.advance(&path, 10_000);
    assert_eq!((e.x, e.y), (10_000, 0));
    e.advance(&path, 54_000);
    assert_eq!((e.x, e.y), (64_000, 0));
    assert_eq!(e.path_target, 0);
    e.advance(&path, 63_999);
    assert_eq!((e.x, e.y), (64_000, 63_999));
    assert_eq!(e.path_target, 0);
    e.advance(&path, 1);
    assert_eq!((e.x, e.y), (64_000, 64_000));
    assert_eq!(e.path_target, 1);
}

#[test]
fn the_distance_travelled_is_the_distance_covered() {
    let path = vec![(1, 0), (1, 2)];
    let mut e = Enemy::new(EnemyVariant::Fast, (0, 0), 1000, 1000);
    // Due 40 units, but the waypoint is 32 units away.
    e.advance(&path, 40_000);
    assert_eq!((e.x, e.y), (32_000, 0));
    assert_eq!(e.distance_travelled, 32_000);
    e.advance(&path, 40_000);
    assert_eq!((e.x, e.y), (32_000, 40_000));
    assert_eq!(e.distance_travelled, 72_000);
    // Exactly what is left.
    e.advance(&path, 24_000);
    assert_eq!(e.distance_travelled, 96_000);
    assert_eq!(e.path_target, 2);
    // Standing on the waypoint already: nothing is covered.
    let mut still = Enemy::new(EnemyVariant::Fast, (1, 0), 1000, 1000);
    still.advance(&path, 5_000);
    assert_eq!(still.distance_travelled, 0);
    assert_eq!(still.path_target, 1);
    // The sum is held at its largest value.
    let mut far = Enemy::new(EnemyVariant::Fast, (0, 0), 1000, 1000);
    far.distance_travelled = u64::MAX - 5;
    far.advance(&path, 1_000);
    assert_eq!(far.distance_travelled, u64::MAX);
}

#[test]
fn an_enemy_beyond_the_path_does_not_move() {
    let path: Vec<(u8, u8)> = vec![];
    let mut e = Enemy::new(EnemyVariant::Normal, (0, 0), 1000, 1000);
    let before = e;
    e.advance(&path, 1_000);
    assert_eq!(e, before);
}

#[test]
fn arriving_at_the_last_waypoint_breaches_in_the_same_pass() {
    let mut map = load_map();
    let mut gm = GameManager::new();
    let mut e = Enemy::new(EnemyVariant::Normal, (5, 3), 1000, 1000);
    e.path_target = 4;
    // 32 units to go at 20 units per second: due exactly in 1600 ms.
    let mut enemies = vec![Some(e)];
    map.insert_enemy((5, 3), 0);
    let early = enemy_movement(&mut map, &mut enemies, &vec![], &mut gm, 1599);
    assert_eq!(early, 0);
    assert_eq!(gm.lives, 15);
    assert_eq!(enemies[0].unwrap().x, 160_000 + 31_980);
    enemies[0].as_mut().unwrap().x = 160_000;
    let breaches = enemy_movement(&mut map, &mut enemies, &vec![], &mut gm, 1600);
    assert_eq!(breaches, 1);
    assert!(enemies[0].is_none());
    assert_eq!(gm.lives, 14);
    assert_eq!(map.enemies_at((5, 3)), Some(&vec![]));
    assert_index_consistent(&map, &enemies);
}

#[test]
fn a_normal_enemy_walks_the_whole_path_and_costs_one_life() {
    let mut map = load_map();
    let mut gm = GameManager::new();
    let e = Enemy::new(EnemyVariant::Normal, map.start_pos, 1000, 1000);
    assert_eq!((e.move_speed, e.max_health), (20_000, 5_000));
    let mut enemies = vec![Some(e)];
    map.insert_enemy(e.current_grid_pos, 0);
    let points = vec![];
    let mut ticks = 0;
    let mut breaches = 0;
    let mut last_travelled = 0;
    // The path is 64 + 96 + 64 + 64 + 96 = 384 units long: 19.2 s at 20 units
    // per second, that is 1200 ticks of 16 ms.
    while enemies[0].is_some() {
        breaches += enemy_movement(&mut map, &mut enemies, &points, &mut gm, 16);
        update_enemy_grid_pos(&mut enemies, &mut map);
        let killed = check_killed(&mut enemies, &mut map, &mut gm);
        assert!(killed.is_empty());
        assert_index_consistent(&map, &enemies);
        assert_in_place(&enemies);
        if let Some(e) = enemies[0] {
            assert_eq!(e.current_health, 5_000);
            assert!(e.distance_travelled > last_travelled);
            last_travelled = e.distance_travelled;
        }
        ticks += 1;
        assert!(ticks <= 1300, "the enemy never arrived");
    }
    assert!(ticks >= 1200);
    assert_eq!(breaches, 1);
    assert_eq!(gm.lives, 14);
    assert_eq!(gm.score, 0);
    assert!(map.enemies.values().all(|bucket| bucket.is_empty()));
}

#[test]
fn lives_do_not_fall_below_zero() {
    let mut map = load_map();
    let mut gm = GameManager::new();
    gm.lives = 1;
    let mut enemies = Vec::new();
    for id in 0..3 {
        let mut e = Enemy::new(EnemyVariant::Fast, (5, 3), 1000, 1000);
        e.path_target = 4;
        enemies.push(Some(e));
        map.insert_enemy((5, 3), id);
    }
    let breaches = enemy_movement(&mut map, &mut enemies, &vec![], &mut gm, 10_000);
    assert_eq!(breaches, 3);
    assert_eq!(gm.lives, 0);
    assert!(enemies.iter().all(|e| e.is_none()));
}

#[test]
fn zones_change_how_far_enemies_walk() {
    let mut map = load_map();
    let mut gm = GameManager::new();
    let a = Enemy::new(EnemyVariant::Normal, (1, 3), 1000, 1000);
    let mut b = a;
    b.x = 96_000;
    b.y = 64_000;
    b.path_target = 3;
    let mut enemies = vec![Some(Enemy { path_target: 1, ..a }), Some(b)];
    map.insert_enemy((1, 3), 0);
    map.insert_enemy((1, 3), 1);
    let points = vec![SpeedUpPoint { percent: -40, x: 32_000, y: 64_000 }];
    enemy_movement(&mut map, &mut enemies, &points, &mut gm, 1000);
    // In the zone: 20 units less 40 percent.
    assert_eq!(enemies[0].unwrap().y, 96_000 - 12_000);
    assert_eq!(enemies[0].unwrap().distance_travelled, 12_000);
    // Out of the zone: the full 20 units.
    assert_eq!(enemies[1].unwrap().y, 64_000 + 20_000);
}

#[test]
fn refiling_moves_enemies_between_buckets() {
    let mut map = load_map();
    let mut enemies = Vec::new();
    for id in 0..3 {
        let e = Enemy::new(EnemyVariant::Normal, (1, 4), 1000, 1000);
        enemies.push(Some(e));
        map.insert_enemy((1, 4), id);
    }
    enemies[1].as_mut().unwrap().y = 111_999;
    enemies[2].as_mut().unwrap().y = 112_000;
    update_enemy_grid_pos(&mut enemies, &mut map);
    assert_eq!(enemies[0].unwrap().current_grid_pos, (1, 4));
    assert_eq!(enemies[1].unwrap().current_grid_pos, (1, 3));
    assert_eq!(enemies[2].unwrap().current_grid_pos, (1, 4));
    assert_eq!(map.enemies_at((1, 4)), Some(&vec![0, 2]));
    assert_eq!(map.enemies_at((1, 3)), Some(&vec![1]));
    assert_index_consistent(&map, &enemies);
    assert_in_place(&enemies);
}

#[test]
fn the_kill_check_removes_the_dead_and_scores_them() {
    let mut map = load_map();
    let mut gm = GameManager::new();
    let mut enemies = Vec::new();
    for (id, variant) in all_variants().into_iter().enumerate() {
        let e = Enemy::new(variant, (1, 4), 1000, 1000);
        enemies.push(Some(e));
        map.insert_enemy((1, 4), id);
    }
    enemies[1].as_mut().unwrap().current_health = 0;
    enemies[4].as_mut().unwrap().current_health = -3;
    enemies[6].as_mut().unwrap().current_health = 1;
    let killed = check_killed(&mut enemies, &mut map, &mut gm);
    assert_eq!(killed, vec![EnemyVariant::Normal, EnemyVariant::Boss]);
    assert_eq!(gm.score, 22);
    assert!(enemies[1].is_none() && enemies[4].is_none());
    assert!(enemies[6].is_some());
    assert_eq!(map.enemies_at((1, 4)), Some(&vec![0, 2, 3, 5, 6]));
    assert_index_consistent(&map, &enemies);
    // A second check finds nothing more: an enemy is killed once.
    let again = check_killed(&mut enemies, &mut map, &mut gm);
    assert!(again.is_empty());
    assert_eq!(gm.score, 22);
}

#[test]
fn the_score_is_held_at_its_largest_value() {
    let mut map = load_map();
    let mut gm = GameManager::new();
    gm.score = u32::MAX - 10;
    let mut e = Enemy::new(EnemyVariant::UltraBoss, (1, 4), 1000, 1000);
    e.current_health = 0;
    let mut enemies = vec![Some(e)];
    map.insert_enemy((1, 4), 0);
    check_killed(&mut enemies, &mut map, &mut gm);
    assert_eq!(gm.score, u32::MAX);
}

#[test]
fn health_bars_show_the_part_that_is_left() {
    let mut e = Enemy::new(EnemyVariant::Normal, (0, 0), 1000, 1000);
    assert_eq!(e.health_bar(), None);
    e.take_damage(1_000);
    assert_eq!(e.health_bar(), Some(HealthBar(800)));
    e.take_damage(3_999);
    assert_eq!(e.health_bar(), Some(HealthBar(0)));
    e.take_damage(1);
    assert_eq!(e.health_bar(), None);
    let bars = update_healthbar(&vec![None, Some(Enemy { current_health: 2_500, ..e })]);
    assert_eq!(bars, vec![None, Some(HealthBar(500))]);
    assert_eq!(scale_healthbar(HealthBar(1000)), (1000, 0));
    assert_eq!(scale_healthbar(HealthBar(500)), (500, -5_000));
    assert_eq!(scale_healthbar(HealthBar(0)), (0, -10_000));
}
