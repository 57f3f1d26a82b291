use tower_defense::grid::{key_of, load_map, remove_id, GridMap, PlacementError};
use tower_defense::units::{cooldown_ms, grid_coord, grid_to_world, reduce_by_percent, NEVER};

#[test]
fn world_positions_snap_to_the_nearest_cell() {
    assert_eq!(GridMap::get_grid_pos((0, 0)), (0, 0));
    assert_eq!(GridMap::get_grid_pos((15_999, -15_999)), (0, 0));
    assert_eq!(GridMap::get_grid_pos((16_000, 15_999)), (1, 0));
    assert_eq!(GridMap::get_grid_pos((47_999, 48_000)), (1, 2));
    assert_eq!(GridMap::get_grid_pos((-16_000, 0)), (0, 0));
    assert_eq!(GridMap::get_grid_pos((-16_001, 0)), (-1, 0));
    assert_eq!(GridMap::get_grid_pos((-32_000, 128_000)), (-1, 4));
    assert_eq!(GridMap::get_grid_pos((-48_001, 0)), (-2, 0));
    assert_eq!(GridMap::get_grid_pos((192_000, 96_000)), (6, 3));
}

#[test]
fn cell_coordinates_stay_within_i8() {
    assert_eq!(grid_coord(i64::MAX), 127);
    assert_eq!(grid_coord(i64::MIN), -128);
    assert_eq!(grid_coord(127 * 32_000 + 15_999), 127);
    assert_eq!(grid_coord(127 * 32_000 + 16_000), 127);
    assert_eq!(grid_coord(-128 * 32_000 - 16_000), -128);
    assert_eq!(grid_coord(-128 * 32_000 - 16_001), -128);
    assert_eq!(grid_coord(-127 * 32_000 - 16_001), -128);
    assert_eq!(GridMap::get_grid_pos((i32::MAX, i32::MIN)), (127, -128));
}

#[test]
fn cell_centres_are_multiples_of_the_cell_size() {
    assert_eq!(GridMap::grid_to_world_pos((0, 0)), (0, 0));
    assert_eq!(GridMap::grid_to_world_pos((3, 1)), (96_000, 32_000));
    assert_eq!(GridMap::grid_to_world_pos((-1, 4)), (-32_000, 128_000));
    assert_eq!(grid_to_world(6), 192_000);
    for c in -128i16..=127 {
        assert_eq!(grid_coord(grid_to_world(c) as i64) as i16, c);
    }
}

#[test]
fn periods_follow_rates() {
    assert_eq!(cooldown_ms(1000), 1000);
    assert_eq!(cooldown_ms(500), 2000);
    assert_eq!(cooldown_ms(750), 1333);
    assert_eq!(cooldown_ms(1800), 555);
    assert_eq!(cooldown_ms(4000), 250);
    assert_eq!(cooldown_ms(135), 7407);
    assert_eq!(cooldown_ms(0), NEVER);
    assert_eq!(cooldown_ms(u32::MAX), 0);
}

#[test]
fn percentages_reduce_and_floor_at_zero() {
    assert_eq!(reduce_by_percent(10_000, 20), 8_000);
    assert_eq!(reduce_by_percent(10_000, 0), 10_000);
    assert_eq!(reduce_by_percent(10_000, 100), 0);
    assert_eq!(reduce_by_percent(10_000, 250), 0);
    assert_eq!(reduce_by_percent(170, 15), 145);
    assert_eq!(reduce_by_percent(3, 50), 2);
    assert_eq!(reduce_by_percent(0, 50), 0);
    assert_eq!(reduce_by_percent(u32::MAX, u32::MAX), 0);
    assert_eq!(reduce_by_percent(u32::MAX, 50), u32::MAX - u32::MAX / 2);
}

#[test]
fn cell_keys_are_distinct() {
    let mut seen = std::collections::HashSet::new();
    for x in -128i16..=127 {
        for y in -128i16..=127 {
            assert!(seen.insert(key_of((x as i8, y as i8))));
        }
    }
    assert_eq!(key_of((-128, -128)), 0);
    assert_eq!(key_of((127, 127)), u16::MAX);
}

#[test]
fn built_in_map_has_the_documented_shape() {
    let map = load_map();
    assert_eq!(map.width(), 6);
    assert_eq!(map.height(), 6);
    assert_eq!(map.start_pos, (-1, 4));
    assert_eq!(map.path, vec![(1, 4), (1, 1), (3, 1), (3, 3), (6, 3)]);
    assert_eq!(map.grid[4], vec![1, 1, 0, 0, 0, 0]);
    assert_eq!(map.grid[0], vec![0, 0, 0, 0, 0, 0]);
    assert!(map.placements.is_empty());
    assert!(map.enemies.is_empty());
}

#[test]
fn placement_is_valid_only_on_free_buildable_cells() {
    let mut map = load_map();
    assert!(map.is_valid_placement((0, 0)));
    assert!(map.is_valid_placement((2, 2)));
    assert!(map.is_valid_placement((5, 5)));
    // Blocked terrain.
    assert!(!map.is_valid_placement((1, 1)));
    assert!(!map.is_valid_placement((0, 4)));
    // Outside the grid.
    assert!(!map.is_valid_placement((-1, 0)));
    assert!(!map.is_valid_placement((0, -1)));
    assert!(!map.is_valid_placement((6, 0)));
    assert!(!map.is_valid_placement((0, 6)));
    assert!(!map.is_valid_placement((127, 127)));
    assert!(!map.is_valid_placement((-128, -128)));
    // Occupied.
    assert_eq!(map.place_tower((2, 2), 7), Ok(()));
    assert!(!map.is_valid_placement((2, 2)));
    assert_eq!(map.tower_at((2, 2)), Some(7));
    assert_eq!(map.tower_at((2, 3)), None);
}

#[test]
fn place_tower_reports_why_it_failed() {
    let mut map = load_map();
    assert_eq!(map.place_tower((1, 1), 0), Err(PlacementError::NotBuildable));
    assert_eq!(map.place_tower((6, 3), 0), Err(PlacementError::NotBuildable));
    assert_eq!(map.place_tower((-1, 4), 0), Err(PlacementError::NotBuildable));
    assert!(map.placements.is_empty());
    assert_eq!(map.place_tower((4, 2), 0), Ok(()));
    assert_eq!(map.place_tower((4, 2), 1), Err(PlacementError::AlreadyOccupied));
    assert_eq!(map.tower_at((4, 2)), Some(0));
    assert_eq!(map.placements.len(), 1);
}

#[test]
fn ragged_and_empty_terrain_is_handled() {
    let empty = GridMap::new(vec![], (0, 0), vec![]);
    assert_eq!(empty.width(), 0);
    assert_eq!(empty.height(), 0);
    assert!(!empty.is_within_bounds((0, 0)));
    assert!(!empty.is_valid_placement((0, 0)));
    let ragged = GridMap::new(vec![vec![0, 0, 0], vec![0]], (0, 0), vec![]);
    assert!(ragged.is_within_bounds((2, 0)));
    assert!(ragged.is_within_bounds((0, 1)));
    assert!(!ragged.is_within_bounds((2, 1)));
    assert!(!ragged.is_valid_placement((1, 1)));
}

#[test]
fn enemy_buckets_keep_arrival_order() {
    let mut map = load_map();
    assert!(map.enemies_at((1, 4)).is_none());
    map.insert_enemy((1, 4), 3);
    map.insert_enemy((1, 4), 1);
    map.insert_enemy((1, 3), 2);
    assert_eq!(map.enemies_at((1, 4)), Some(&vec![3, 1]));
    assert_eq!(map.enemies_at((1, 3)), Some(&vec![2]));
    map.reindex_enemy(3, (1, 4), (1, 3));
    assert_eq!(map.enemies_at((1, 4)), Some(&vec![1]));
    assert_eq!(map.enemies_at((1, 3)), Some(&vec![2, 3]));
    // Moving within one cell changes nothing.
    map.reindex_enemy(2, (1, 3), (1, 3));
    assert_eq!(map.enemies_at((1, 3)), Some(&vec![2, 3]));
    map.remove_enemy((1, 3), 2);
    assert_eq!(map.enemies_at((1, 3)), Some(&vec![3]));
    // Removing what is not there changes nothing.
    map.remove_enemy((1, 3), 9);
    map.remove_enemy((5, 5), 3);
    assert_eq!(map.enemies_at((1, 3)), Some(&vec![3]));
    assert!(map.enemies_at((5, 5)).is_none());
}

#[test]
fn remove_id_drops_every_occurrence() {
    assert_eq!(remove_id(vec![1, 2, 1, 3, 1], 1), vec![2, 3]);
    assert_eq!(remove_id(vec![1, 2, 3], 4), vec![1, 2, 3]);
    assert_eq!(remove_id(vec![], 4), Vec::<usize>::new());
    assert_eq!(remove_id(vec![5, 5], 5), Vec::<usize>::new());
}
