use tower_defense::gameplay::WaveState;
use tower_defense::grid::load_map;
use tower_defense::inventory::{give_random_tower, Inventory};
use tower_defense::text::with_number;
use tower_defense::timer::Timer;
use tower_defense::tower::debuffs::{Debuff, SpeedUpPoint};
use tower_defense::tower::laser::{Direction, Laser};
use tower_defense::tower::{Tower, TowerPlaced, TowerType, Weapon};
use tower_defense::ui::{
    grid_click_handler, handle_fast_speed_button, handle_inventory_buttons,
    handle_normal_speed_button, handle_toggle_rotation_button, handle_tower_options,
    mouse_hover_handler, update_lives_text, update_score_text, update_status_bar_text, GameSpeed,
    HoverPosition, UiData, UiState,
};

fn laser() -> Tower {
    Tower::new(170, 4000, TowerType::Laser, Debuff::ReduceColumnDamage(10))
}

fn turret() -> Tower {
    Tower::new(500, 1800, TowerType::ChargeShot, Debuff::LaserIncompatible)
}

#[test]
fn numbers_in_texts() {
    assert_eq!(with_number("a", 0, "b"), "a0b");
    assert_eq!(with_number("", 7, ""), "7");
    assert_eq!(with_number("x ", 10, " y"), "x 10 y");
    assert_eq!(with_number("", 1_000_000, "!"), "1000000!");
    assert_eq!(with_number("", u64::MAX, ""), "18446744073709551615");
}

#[test]
fn status_bar_texts() {
    assert_eq!(update_score_text(0), "Score: 0");
    assert_eq!(update_score_text(1234), "Score: 1234");
    assert_eq!(update_lives_text(15), "Lives: 15");
    assert_eq!(
        update_status_bar_text(WaveState::Waiting, &UiState::Normal, 3),
        "Once you have placed your towers, press SPACE to start the next wave."
    );
    assert_eq!(
        update_status_bar_text(WaveState::Waiting, &UiState::PlacingTower(0), 3),
        "Click on an unoccupied tile to place a tower. Click the card again to cancel."
    );
    assert_eq!(
        update_status_bar_text(WaveState::Waiting, &UiState::PickingTower(vec![]), 3),
        "Choose a new tower"
    );
    assert_eq!(update_status_bar_text(WaveState::Spawning(4), &UiState::Normal, 3), "Wave: 3");
    assert_eq!(update_status_bar_text(WaveState::Finished, &UiState::PlacingTower(1), 12), "Wave: 12");
}

#[test]
fn modes_compare_by_kind() {
    assert!(UiState::Normal == UiState::Normal);
    assert!(UiState::PlacingTower(1) == UiState::PlacingTower(2));
    assert!(UiState::PickingTower(vec![]) == UiState::PickingTower(vec![laser()]));
    assert!(UiState::Normal != UiState::PlacingTower(0));
    assert!(UiState::PlacingTower(0) != UiState::PickingTower(vec![]));
    assert!(UiState::PickingTower(vec![]) != UiState::Normal);
    assert!(UiState::default() == UiState::Normal);
}

#[test]
fn inventory_cards_toggle_placing() {
    let mut ui = UiState::Normal;
    handle_inventory_buttons(&mut ui, 2);
    assert!(matches!(ui, UiState::PlacingTower(2)));
    handle_inventory_buttons(&mut ui, 0);
    assert!(matches!(ui, UiState::PlacingTower(0)));
    handle_inventory_buttons(&mut ui, 0);
    assert!(matches!(ui, UiState::Normal));
    let mut picking = UiState::PickingTower(vec![laser()]);
    handle_inventory_buttons(&mut picking, 0);
    match picking {
        UiState::PickingTower(options) => assert_eq!(options, vec![laser()]),
        other => panic!("{:?}", other),
    }
}

#[test]
fn picking_an_offered_tower_puts_it_into_the_inventory() {
    let mut inventory = Inventory::new();
    let mut ui = UiState::PickingTower(vec![turret(), laser()]);
    assert!(handle_tower_options(&mut ui, &mut inventory, 1));
    assert!(matches!(ui, UiState::Normal));
    assert_eq!(inventory.towers, vec![laser()]);
    // Nothing is offered any more.
    assert!(!handle_tower_options(&mut ui, &mut inventory, 0));
    assert_eq!(inventory.towers, vec![laser()]);
    let mut ui = UiState::PickingTower(vec![turret()]);
    assert!(!handle_tower_options(&mut ui, &mut inventory, 1));
    assert!(matches!(ui, UiState::Normal));
    assert_eq!(inventory.towers.len(), 1);
    let mut ui = UiState::PlacingTower(0);
    assert!(!handle_tower_options(&mut ui, &mut inventory, 0));
    assert!(matches!(ui, UiState::Normal));
}

#[test]
fn the_random_tower_key_fills_the_inventory() {
    let mut inventory = Inventory::default();
    assert!(!give_random_tower(&mut inventory, false));
    assert!(inventory.towers.is_empty());
    assert!(give_random_tower(&mut inventory, true));
    assert!(give_random_tower(&mut inventory, true));
    assert_eq!(inventory.towers.len(), 2);
    for t in &inventory.towers {
        assert!(Tower::suits(t.variant, t.debuff));
    }
}

#[test]
fn a_click_places_the_tower_that_is_being_placed() {
    let mut map = load_map();
    let mut towers = Vec::new();
    let mut points: Vec<SpeedUpPoint> = Vec::new();
    let mut inventory = Inventory { towers: vec![turret(), laser()] };
    let mut ui = UiState::PlacingTower(1);
    let mut data = UiData::default();
    // A click on the path places nothing.
    let r = grid_click_handler(&mut ui, &mut data, &mut inventory, &mut map, &mut towers, &mut points, (32_000, 32_000));
    assert_eq!(r, None);
    assert!(matches!(ui, UiState::PlacingTower(1)));
    assert_eq!(inventory.towers.len(), 2);
    assert_eq!(data, UiData::default());
    // A click off the grid neither.
    let r = grid_click_handler(&mut ui, &mut data, &mut inventory, &mut map, &mut towers, &mut points, (-40_000, 0));
    assert_eq!(r, None);
    // A click near the centre of (2, 2) places the laser there.
    let r = grid_click_handler(&mut ui, &mut data, &mut inventory, &mut map, &mut towers, &mut points, (70_000, 50_000));
    assert_eq!(r, Some(TowerPlaced { grid_pos: (2, 2) }));
    assert!(matches!(ui, UiState::Normal));
    assert_eq!(inventory.towers, vec![turret()]);
    assert_eq!(data.selected_pos, Some((2, 2)));
    assert_eq!(towers.len(), 1);
    assert_eq!(towers[0].tower, laser());
    assert_eq!(
        towers[0].weapon,
        Weapon::Laser(Laser { direction: Direction::Down, timer: Timer::new(250) })
    );
    assert_eq!(map.tower_at((2, 2)), Some(0));
    // Placing the turret below it: the laser's column debuff reaches it.
    let mut ui = UiState::PlacingTower(0);
    let r = grid_click_handler(&mut ui, &mut data, &mut inventory, &mut map, &mut towers, &mut points, (64_000, 0));
    assert_eq!(r, Some(TowerPlaced { grid_pos: (2, 0) }));
    assert_eq!(towers[1].tower.damage, 450);
    // The turret is no neighbour of the laser: the laser keeps its damage.
    assert_eq!(towers[0].tower.damage, 170);
    assert!(inventory.towers.is_empty());
}

#[test]
fn a_stale_card_index_places_nothing() {
    let mut map = load_map();
    let mut towers = Vec::new();
    let mut points = Vec::new();
    let mut inventory = Inventory { towers: vec![turret()] };
    let mut ui = UiState::PlacingTower(1);
    let mut data = UiData::default();
    let r = grid_click_handler(&mut ui, &mut data, &mut inventory, &mut map, &mut towers, &mut points, (0, 0));
    assert_eq!(r, None);
    assert_eq!(inventory.towers.len(), 1);
    assert!(towers.is_empty());
}

#[test]
fn a_click_in_the_normal_mode_selects() {
    let mut map = load_map();
    let mut towers = Vec::new();
    let mut points = Vec::new();
    let mut inventory = Inventory { towers: vec![turret()] };
    let mut data = UiData::default();
    let mut ui = UiState::PlacingTower(0);
    grid_click_handler(&mut ui, &mut data, &mut inventory, &mut map, &mut towers, &mut points, (0, 0));
    assert_eq!(data.selected_pos, Some((0, 0)));
    // An empty cell of the grid clears the selection.
    grid_click_handler(&mut ui, &mut data, &mut inventory, &mut map, &mut towers, &mut points, (64_000, 64_000));
    assert_eq!(data.selected_pos, None);
    grid_click_handler(&mut ui, &mut data, &mut inventory, &mut map, &mut towers, &mut points, (5_000, -5_000));
    assert_eq!(data.selected_pos, Some((0, 0)));
    // A click off the grid leaves it.
    grid_click_handler(&mut ui, &mut data, &mut inventory, &mut map, &mut towers, &mut points, (-64_000, 64_000));
    assert_eq!(data.selected_pos, Some((0, 0)));
    // While towers are offered clicks do nothing.
    let mut picking = UiState::PickingTower(vec![]);
    grid_click_handler(&mut picking, &mut data, &mut inventory, &mut map, &mut towers, &mut points, (64_000, 64_000));
    assert_eq!(data.selected_pos, Some((0, 0)));
    assert_eq!(towers.len(), 1);
}

#[test]
fn the_pointer_is_tracked_on_the_grid_only() {
    let map = load_map();
    let mut hover = HoverPosition(None);
    mouse_hover_handler(&map, &mut hover, (33_000, 127_000));
    assert_eq!(hover, HoverPosition(Some((1, 4))));
    mouse_hover_handler(&map, &mut hover, (200_000, 0));
    assert_eq!(hover, HoverPosition(None));
    mouse_hover_handler(&map, &mut hover, (-17_000, 0));
    assert_eq!(hover, HoverPosition(None));
    mouse_hover_handler(&map, &mut hover, (175_999, 175_999));
    assert_eq!(hover, HoverPosition(Some((5, 5))));
}

#[test]
fn the_rotation_button_turns_the_selected_laser() {
    let mut map = load_map();
    let mut towers = Vec::new();
    let mut points = Vec::new();
    let mut inventory = Inventory { towers: vec![turret(), laser()] };
    let mut data = UiData::default();
    let mut ui = UiState::PlacingTower(1);
    grid_click_handler(&mut ui, &mut data, &mut inventory, &mut map, &mut towers, &mut points, (0, 0));
    let mut ui = UiState::PlacingTower(0);
    grid_click_handler(&mut ui, &mut data, &mut inventory, &mut map, &mut towers, &mut points, (160_000, 160_000));
    let direction = |towers: &Vec<tower_defense::tower::PlacedTower>| match towers[0].weapon {
        Weapon::Laser(l) => l.direction,
        other => panic!("{:?}", other),
    };
    // The turret is selected: nothing turns.
    assert!(!handle_toggle_rotation_button(&data, &map, &mut towers));
    assert_eq!(direction(&towers), Direction::Down);
    data.selected_pos = Some((0, 0));
    assert!(handle_toggle_rotation_button(&data, &map, &mut towers));
    assert_eq!(direction(&towers), Direction::Left);
    assert!(handle_toggle_rotation_button(&data, &map, &mut towers));
    assert_eq!(direction(&towers), Direction::Up);
    data.selected_pos = Some((3, 3));
    assert!(!handle_toggle_rotation_button(&data, &map, &mut towers));
    data.selected_pos = None;
    assert!(!handle_toggle_rotation_button(&data, &map, &mut towers));
    assert_eq!(direction(&towers), Direction::Up);
}

#[test]
fn fast_speed_triples_the_time() {
    let mut speed = GameSpeed(false);
    assert_eq!(speed.scale(16), 16);
    handle_fast_speed_button(&mut speed, false);
    assert_eq!(speed, GameSpeed(false));
    handle_fast_speed_button(&mut speed, true);
    assert_eq!(speed, GameSpeed(true));
    assert_eq!(speed.scale(16), 48);
    assert_eq!(speed.scale(0), 0);
    assert_eq!(speed.scale(u32::MAX / 3), u32::MAX - u32::MAX % 3);
    assert_eq!(speed.scale(u32::MAX / 3 + 1), u32::MAX);
    handle_normal_speed_button(&mut speed, false);
    assert_eq!(speed, GameSpeed(true));
    handle_normal_speed_button(&mut speed, true);
    assert_eq!(speed, GameSpeed(false));
}
