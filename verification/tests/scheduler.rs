use tower_defense::enemies::EnemyVariant;
use tower_defense::gameplay::{GameManager, Wave, WaveAction, WaveSegment, WaveState};
use tower_defense::timer::Timer;

fn two_segment_manager() -> GameManager {
    let mut gm = GameManager::new();
    let wave = Wave {
        segments: vec![
            WaveSegment::new(EnemyVariant::Normal, 10, 500),
            WaveSegment::new(EnemyVariant::Fast, 5, 1000),
        ],
    };
    gm.waves.insert(1, wave);
    gm.current_wave = 1;
    gm
}

#[test]
fn wave_spawns_segments_in_order_then_finishes() {
    let mut gm = two_segment_manager();
    assert!(gm.start_next_wave(true));
    assert_eq!(gm.wave_state, WaveState::Spawning(0));
    gm.spawn_timer = Timer::new(0);
    let mut spawned = Vec::new();
    let mut times = Vec::new();
    let mut now: u64 = 0;
    for _ in 0..100_000 {
        match gm.step_wave(1, 3) {
            WaveAction::Spawn(v) => {
                spawned.push(v);
                times.push(now);
            }
            WaveAction::Idle => {}
            WaveAction::Cleared => panic!("enemies are still alive"),
        }
        now += 1;
        if gm.wave_state == WaveState::Finished {
            break;
        }
    }
    assert_eq!(spawned.len(), 15);
    assert!(spawned[..10].iter().all(|v| *v == EnemyVariant::Normal));
    assert!(spawned[10..].iter().all(|v| *v == EnemyVariant::Fast));
    assert_eq!(gm.wave_state, WaveState::Finished);
    // 0.5 enemies per second: two seconds between the Normal enemies.
    assert_eq!(times[1] - times[0], 2000);
    assert_eq!(times[9] - times[8], 2000);
    // The first Fast enemy still waits out the period of the segment before it.
    assert_eq!(times[10] - times[9], 2000);
    // 1.0 enemies per second afterwards.
    assert_eq!(times[11] - times[10], 1000);
    assert_eq!(times[14] - times[13], 1000);
}

#[test]
fn a_new_session_starts_with_fifteen_lives_and_the_built_in_waves() {
    let gm = GameManager::new();
    assert_eq!(gm.current_wave, 0);
    assert_eq!(gm.wave_state, WaveState::Waiting);
    assert_eq!(gm.lives, 15);
    assert_eq!(gm.score, 0);
    assert_eq!(gm.health_multiplier, 1000);
    assert_eq!(gm.speed_multiplier, 1000);
    assert_eq!(gm.spawn_timer, Timer::new(100));
    assert_eq!(gm.waves.len(), 25);
    assert!(gm.waves[0].segments.is_empty());
    assert_eq!(gm.waves[1].segments, vec![WaveSegment::new(EnemyVariant::Weak, 5, 500)]);
    assert_eq!(
        gm.waves[5].segments,
        vec![
            WaveSegment::new(EnemyVariant::Normal, 10, 1000),
            WaveSegment::new(EnemyVariant::Fast, 5, 500),
            WaveSegment::new(EnemyVariant::Normal, 5, 1500),
        ]
    );
    assert_eq!(gm.waves[24].segments, vec![WaveSegment::new(EnemyVariant::UltraBoss, 5, 300)]);
    let sizes: Vec<usize> = gm.waves.iter().map(|w| w.size()).collect();
    assert_eq!(
        sizes,
        vec![0, 5, 8, 10, 11, 20, 15, 16, 10, 8, 12, 1, 10, 13, 21, 10, 17, 10, 15, 10, 1, 15, 20, 7, 5]
    );
}

#[test]
fn segments_are_found_by_spawn_number() {
    let wave = Wave {
        segments: vec![
            WaveSegment::new(EnemyVariant::Normal, 10, 500),
            WaveSegment::new(EnemyVariant::Strong, 0, 700),
            WaveSegment::new(EnemyVariant::Fast, 5, 1000),
        ],
    };
    assert_eq!(wave.size(), 15);
    assert_eq!(wave.segment_at(0), Some(0));
    assert_eq!(wave.segment_at(9), Some(0));
    // The empty segment is passed over.
    assert_eq!(wave.segment_at(10), Some(2));
    assert_eq!(wave.segment_at(14), Some(2));
    assert_eq!(wave.segment_at(15), None);
    assert_eq!(wave.segment_at(usize::MAX), None);
    let empty = Wave { segments: vec![] };
    assert_eq!(empty.size(), 0);
    assert_eq!(empty.segment_at(0), None);
}

#[test]
fn beyond_the_last_wave_the_last_four_rotate() {
    let mut gm = GameManager::new();
    for wave in 0..25 {
        gm.current_wave = wave;
        assert_eq!(gm.wave_index(), wave);
    }
    let expect = [(25, 22), (26, 23), (27, 24), (28, 21), (29, 22), (100, 21), (103, 24)];
    for (wave, index) in expect {
        gm.current_wave = wave;
        assert_eq!(gm.wave_index(), index);
    }
    gm.current_wave = usize::MAX;
    assert_eq!(gm.wave_index(), 21 + usize::MAX % 4);
}

#[test]
fn wave_zero_starts_by_itself_and_later_waves_on_request() {
    let mut gm = GameManager::new();
    assert!(gm.start_next_wave(false));
    assert_eq!(gm.wave_state, WaveState::Spawning(0));
    // A running wave is not started again.
    assert!(!gm.start_next_wave(true));
    gm.wave_state = WaveState::Finished;
    assert!(!gm.start_next_wave(true));
    assert_eq!(gm.wave_state, WaveState::Finished);
    gm.wave_state = WaveState::Waiting;
    gm.current_wave = 3;
    assert!(!gm.start_next_wave(false));
    assert_eq!(gm.wave_state, WaveState::Waiting);
    assert!(gm.start_next_wave(true));
    assert_eq!(gm.wave_state, WaveState::Spawning(0));
    assert_eq!((gm.health_multiplier, gm.speed_multiplier), (1000, 1000));
}

#[test]
fn endless_waves_raise_the_multipliers_by_a_tenth() {
    let mut gm = GameManager::new();
    gm.current_wave = 24;
    assert!(gm.start_next_wave(true));
    assert_eq!((gm.health_multiplier, gm.speed_multiplier), (1000, 1000));
    for (wave, multiplier) in [(25, 1100), (26, 1200), (27, 1300)] {
        gm.wave_state = WaveState::Waiting;
        gm.current_wave = wave;
        assert!(gm.start_next_wave(true));
        assert_eq!((gm.health_multiplier, gm.speed_multiplier), (multiplier, multiplier));
    }
    // A request that starts nothing raises nothing.
    assert!(!gm.start_next_wave(true));
    assert_eq!(gm.health_multiplier, 1300);
    gm.wave_state = WaveState::Waiting;
    gm.health_multiplier = u32::MAX - 50;
    assert!(gm.start_next_wave(true));
    assert_eq!(gm.health_multiplier, u32::MAX);
    assert_eq!(gm.speed_multiplier, 1400);
}

#[test]
fn an_empty_wave_finishes_when_the_timer_fires() {
    let mut gm = GameManager::new();
    assert!(gm.start_next_wave(false));
    assert_eq!(gm.step_wave(99, 0), WaveAction::Idle);
    assert_eq!(gm.wave_state, WaveState::Spawning(0));
    assert_eq!(gm.step_wave(1, 0), WaveAction::Idle);
    assert_eq!(gm.wave_state, WaveState::Finished);
    assert_eq!(gm.step_wave(1, 0), WaveAction::Cleared);
    assert_eq!(gm.wave_state, WaveState::Waiting);
    assert_eq!(gm.current_wave, 1);
    assert_eq!(gm.step_wave(100_000, 0), WaveAction::Idle);
    assert_eq!(gm.wave_state, WaveState::Waiting);
}

#[test]
fn a_finished_wave_waits_for_the_board_to_empty() {
    let mut gm = GameManager::new();
    gm.current_wave = 7;
    gm.wave_state = WaveState::Finished;
    for live in [3, 2, 1] {
        assert_eq!(gm.step_wave(16, live), WaveAction::Idle);
        assert_eq!(gm.wave_state, WaveState::Finished);
        assert_eq!(gm.current_wave, 7);
    }
    assert_eq!(gm.step_wave(16, 0), WaveAction::Cleared);
    assert_eq!(gm.current_wave, 8);
    assert_eq!(gm.wave_state, WaveState::Waiting);
    gm.wave_state = WaveState::Finished;
    gm.current_wave = usize::MAX;
    assert_eq!(gm.step_wave(16, 0), WaveAction::Cleared);
    assert_eq!(gm.current_wave, usize::MAX);
}

#[test]
fn the_last_enemy_of_a_wave_finishes_it_at_once() {
    let mut gm = GameManager::new();
    gm.current_wave = 11;
    gm.wave_state = WaveState::Spawning(0);
    gm.spawn_timer = Timer::new(50);
    assert_eq!(gm.step_wave(50, 4), WaveAction::Spawn(EnemyVariant::Boss));
    assert_eq!(gm.wave_state, WaveState::Finished);
    // 0.7 per second: 1428 ms.
    assert_eq!(gm.spawn_timer, Timer::new(1428));
}
