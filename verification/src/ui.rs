//! What the player is doing: looking, placing a tower or picking one.

use vstd::prelude::*;
use vstd::std_specs::cmp::PartialEqSpecImpl;
use crate::gameplay::WaveState;
use crate::grid::{Cell, GridMap};
use crate::inventory::Inventory;
use crate::text::{around, with_number};
use crate::tower::{
    board_after_placement, board_ok, place_tower, Board, PlacedTower, Tower, TowerPlaced, Weapon,
};
use crate::tower::debuffs::SpeedUpPoint;
use crate::tower::laser::{Direction, Laser};
use crate::units::cell_coord;

verus! {

/// The mode the player is in.
#[derive(Debug)]
pub enum UiState {
    /// Nothing special: a click selects a tower.
    Normal,
    /// The player is placing the inventory tower with this index.
    PlacingTower(usize),
    /// The player is offered these towers and has to pick one.
    PickingTower(Vec<Tower>),
}

impl UiState {
    /// Whether two states are the same mode, whatever they carry.
    pub open spec fn same_mode(&self, other: &UiState) -> bool {
        match (self, other) {
            (UiState::Normal, UiState::Normal) => true,
            (UiState::PlacingTower(_), UiState::PlacingTower(_)) => true,
            (UiState::PickingTower(_), UiState::PickingTower(_)) => true,
            _ => false,
        }
    }
}

impl PartialEq for UiState {
    /// Two states are equal when they are the same mode.
    fn eq(&self, other: &UiState) -> (r: bool) {
        match (self, other) {
            (UiState::Normal, UiState::Normal) => true,
            (UiState::PlacingTower(_), UiState::PlacingTower(_)) => true,
            (UiState::PickingTower(_), UiState::PickingTower(_)) => true,
            _ => false,
        }
    }
}

impl PartialEqSpecImpl for UiState {
    open spec fn obeys_eq_spec() -> bool {
        true
    }

    open spec fn eq_spec(&self, other: &UiState) -> bool {
        self.same_mode(other)
    }
}

impl Default for UiState {
    fn default() -> (s: UiState)
        ensures
            s is Normal,
    {
        UiState::Normal
    }
}

/// The cells the pointer marks.
#[derive(Debug, Clone, Copy, PartialEq, Eq)]
pub struct UiData {
    /// The cell under the pointer.
    pub hovered_pos: Option<Cell>,
    /// The cell of the selected tower.
    pub selected_pos: Option<Cell>,
}

impl Default for UiData {
    fn default() -> (d: UiData)
        ensures
            d.hovered_pos is None,
            d.selected_pos is None,
    {
        UiData { hovered_pos: None, selected_pos: None }
    }
}

/// The cell under the pointer, if it is a cell of the grid.
#[derive(Debug, Clone, Copy, PartialEq, Eq)]
pub struct HoverPosition(pub Option<Cell>);

/// The mode after the inventory card with index `index` was pressed:
/// pressing the card that is being placed puts it back, pressing any other
/// card takes that one up. While towers are offered, cards do nothing.
pub open spec fn after_card_press(state: UiState, index: usize) -> UiState {
    match state {
        UiState::PickingTower(options) => UiState::PickingTower(options),
        UiState::PlacingTower(i) => if i == index {
            UiState::Normal
        } else {
            UiState::PlacingTower(index)
        },
        UiState::Normal => UiState::PlacingTower(index),
    }
}

/// Handles a press on the inventory card with index `index`; see
/// [`after_card_press`].
pub fn handle_inventory_buttons(ui_state: &mut UiState, index: usize)
    ensures
        *final(ui_state) == after_card_press(*old(ui_state), index),
{
    let next: Option<UiState> = match ui_state {
        UiState::PickingTower(_) => None,
        UiState::PlacingTower(i) => if *i == index {
            Some(UiState::Normal)
        } else {
            Some(UiState::PlacingTower(index))
        },
        UiState::Normal => Some(UiState::PlacingTower(index)),
    };
    match next {
        Some(state) => {
            *ui_state = state;
        },
        None => {},
    }
}

/// The towers that are offered in mode `state`.
pub open spec fn offered(state: UiState) -> Seq<Tower> {
    match state {
        UiState::PickingTower(options) => options@,
        _ => Seq::empty(),
    }
}

/// Handles the choice of the offered tower with index `choice`: the tower
/// goes to the end of the inventory and the offer ends. Returns whether a
/// tower was taken; a choice that names no offered tower, or a choice
/// while nothing is offered, changes nothing but ends in the normal mode.
pub fn handle_tower_options(ui_state: &mut UiState, inventory: &mut Inventory, choice: usize) -> (taken:
    bool)
    ensures
        *final(ui_state) == UiState::Normal,
        taken == (offered(*old(ui_state)).len() > choice),
        taken ==> final(inventory).towers@ == old(inventory).towers@.push(
            offered(*old(ui_state))[choice as int],
        ),
        !taken ==> final(inventory).towers@ == old(inventory).towers@,
{
    let taken = match ui_state {
        UiState::PickingTower(options) => {
            if choice < options.len() {
                inventory.towers.push(options[choice]);
                true
            } else {
                false
            }
        },
        _ => false,
    };
    *ui_state = UiState::Normal;
    taken
}

/// The position of the pointer after it moved to `cell`: the cell if it
/// is part of the grid, nothing otherwise.
pub fn mouse_hover_handler(map: &GridMap, hover_pos: &mut HoverPosition, pos: (i32, i32))
    ensures
        final(hover_pos).0 == if map.in_bounds(
            (cell_coord(pos.0 as int) as i8, cell_coord(pos.1 as int) as i8),
        ) {
            Some((cell_coord(pos.0 as int) as i8, cell_coord(pos.1 as int) as i8))
        } else {
            None::<Cell>
        },
{
    let cell = GridMap::get_grid_pos(pos);
    if map.is_within_bounds(cell) {
        hover_pos.0 = Some(cell);
    } else {
        hover_pos.0 = None;
    }
}

/// The tower `placed` with its beam turned by a quarter turn, if it is a
/// laser; any other tower stays as it is.
pub open spec fn beam_turned(placed: PlacedTower) -> PlacedTower {
    match placed.weapon {
        Weapon::Laser(laser) => PlacedTower {
            weapon: Weapon::Laser(Laser { direction: laser.direction.turned(), ..laser }),
            ..placed
        },
        _ => placed,
    }
}

/// Handles a press on the rotation button: the beam of the selected tower,
/// if one is selected and it is a laser, turns by a quarter turn. Returns
/// whether a beam turned.
pub fn handle_toggle_rotation_button(
    ui_data: &UiData,
    map: &GridMap,
    towers: &mut Vec<PlacedTower>,
) -> (turned: bool)
    ensures
        final(towers)@.len() == old(towers)@.len(),
        turned == (ui_data.selected_pos is Some && map.tower_in(ui_data.selected_pos.unwrap()) is Some
            && map.tower_in(ui_data.selected_pos.unwrap()).unwrap() < old(towers)@.len() && old(
            towers,
        )@[map.tower_in(ui_data.selected_pos.unwrap()).unwrap() as int].weapon is Laser),
        turned ==> final(towers)@ == old(towers)@.update(
            map.tower_in(ui_data.selected_pos.unwrap()).unwrap() as int,
            beam_turned(old(towers)@[map.tower_in(ui_data.selected_pos.unwrap()).unwrap() as int]),
        ),
        !turned ==> final(towers)@ == old(towers)@,
{
    match ui_data.selected_pos {
        Some(pos) => match map.tower_at(pos) {
            Some(t) => {
                if t < towers.len() {
                    let mut placed = towers[t];
                    match placed.weapon {
                        Weapon::Laser(laser) => {
                            let mut laser = laser;
                            laser.toggle_direction();
                            placed.weapon = Weapon::Laser(laser);
                            towers.set(t, placed);
                            true
                        },
                        _ => false,
                    }
                } else {
                    false
                }
            },
            None => false,
        },
        None => false,
    }
}

/// The cell that the world position `pos` falls into.
pub open spec fn cell_of(pos: (i32, i32)) -> Cell {
    (cell_coord(pos.0 as int) as i8, cell_coord(pos.1 as int) as i8)
}

/// The index of the inventory tower that is being placed in mode `state`.
pub open spec fn placing_index(state: UiState) -> int {
    match state {
        UiState::PlacingTower(i) => i as int,
        _ => -1,
    }
}

/// Whether a click on `cell` places a tower: the player is placing a
/// tower that the inventory has, and the cell can take it.
pub open spec fn click_places(state: UiState, inventory: Seq<Tower>, map: &GridMap, cell: Cell) -> bool {
    0 <= placing_index(state) < inventory.len() && map.buildable(cell)
}

/// The selection after a click on `cell` in the normal mode: a click on
/// the grid selects the tower on the cell or nothing; a click off the grid
/// leaves the selection.
pub open spec fn selection_after(data: UiData, map: &GridMap, cell: Cell) -> UiData {
    if map.in_bounds(cell) {
        UiData {
            selected_pos: if map.tower_in(cell) is Some {
                Some(cell)
            } else {
                None
            },
            ..data
        }
    } else {
        data
    }
}

/// Handles a click on the world position `click`.
///
/// While the player is placing a tower, a click on a cell that can take
/// it places it there: the tower leaves the inventory, stands on the cell
/// with a laser's beam pointing down, the debuffs act, the cell is
/// selected and the mode is normal again. A click anywhere else does
/// nothing. In the normal mode a click selects; while towers are offered a
/// click does nothing.
pub fn grid_click_handler(
    ui_state: &mut UiState,
    ui_data: &mut UiData,
    inventory: &mut Inventory,
    map: &mut GridMap,
    towers: &mut Vec<PlacedTower>,
    speed_up_points: &mut Vec<SpeedUpPoint>,
    click: (i32, i32),
) -> (placed: Option<TowerPlaced>)
    ensures
        final(map).same_ground(old(map)),
        final(map).enemies == old(map).enemies,
        placed is Some <==> click_places(
            *old(ui_state),
            old(inventory).towers@,
            old(map),
            cell_of(click),
        ),
        placed is Some ==> {
            &&& placed.unwrap().grid_pos == cell_of(click)
            &&& *final(ui_state) == UiState::Normal
            &&& *final(ui_data) == (UiData { selected_pos: Some(cell_of(click)), ..*old(ui_data) })
            &&& final(inventory).towers@ == old(inventory).towers@.remove(
                placing_index(*old(ui_state)),
            )
            &&& (Board {
                towers: final(towers)@,
                points: final(speed_up_points)@,
                index: final(map).tower_index(),
            }) == board_after_placement(
                Board {
                    towers: old(towers)@,
                    points: old(speed_up_points)@,
                    index: old(map).tower_index(),
                },
                old(inventory).towers@[placing_index(*old(ui_state))],
                cell_of(click),
                Direction::Down,
                old(map).columns(),
                old(map).rows(),
            )
        },
        placed is None ==> {
            &&& *final(ui_state) == *old(ui_state)
            &&& final(inventory).towers@ == old(inventory).towers@
            &&& final(towers)@ == old(towers)@
            &&& final(speed_up_points)@ == old(speed_up_points)@
            &&& final(map).placements == old(map).placements
            &&& *final(ui_data) == if *old(ui_state) is Normal {
                selection_after(*old(ui_data), old(map), cell_of(click))
            } else {
                *old(ui_data)
            }
        },
        board_ok(old(towers)@, old(map).tower_index()) ==> board_ok(
            final(towers)@,
            final(map).tower_index(),
        ),
{
    let cell = GridMap::get_grid_pos(click);
    let placing: Option<usize> = match ui_state {
        UiState::PlacingTower(i) => Some(*i),
        _ => None,
    };
    let normal = match ui_state {
        UiState::Normal => true,
        _ => false,
    };
    match placing {
        Some(i) => {
            if i < inventory.towers.len() && map.is_valid_placement(cell) {
                let tower = inventory.towers.remove(i);
                let r = place_tower(tower, cell, Direction::Down, towers, map, speed_up_points);
                *ui_state = UiState::Normal;
                ui_data.selected_pos = Some(cell);
                match r {
                    Ok(event) => Some(event),
                    Err(_) => None,
                }
            } else {
                None
            }
        },
        None => {
            if normal && map.is_within_bounds(cell) {
                if map.tower_at(cell).is_some() {
                    ui_data.selected_pos = Some(cell);
                } else {
                    ui_data.selected_pos = None;
                }
            }
            None
        },
    }
}

/// Whether the game runs at fast speed.
#[derive(Debug, Clone, Copy, PartialEq, Eq, Structural)]
pub struct GameSpeed(pub bool);

/// How many times faster than normal the fast speed is.
pub const FAST_FACTOR: u32 = 3;

impl GameSpeed {
    /// The time that passes in the game while `dt` milliseconds pass for
    /// the player: three times as much at fast speed, held at the largest
    /// `u32`.
    pub open spec fn game_time(self, dt: u32) -> u32 {
        if !self.0 {
            dt
        } else if dt * FAST_FACTOR > u32::MAX {
            u32::MAX
        } else {
            (dt * FAST_FACTOR) as u32
        }
    }

    /// Computes [`GameSpeed::game_time`].
    pub fn scale(&self, dt: u32) -> (t: u32)
        ensures
            t == self.game_time(dt),
    {
        if !self.0 {
            dt
        } else if dt > u32::MAX / FAST_FACTOR {
            u32::MAX
        } else {
            dt * FAST_FACTOR
        }
    }
}

/// Handles the button for normal speed.
pub fn handle_normal_speed_button(game_speed: &mut GameSpeed, pressed: bool)
    ensures
        *final(game_speed) == if pressed {
            GameSpeed(false)
        } else {
            *old(game_speed)
        },
{
    if pressed {
        game_speed.0 = false;
    }
}

/// Handles the button for fast speed.
pub fn handle_fast_speed_button(game_speed: &mut GameSpeed, pressed: bool)
    ensures
        *final(game_speed) == if pressed {
            GameSpeed(true)
        } else {
            *old(game_speed)
        },
{
    if pressed {
        game_speed.0 = true;
    }
}

/// The line of the status bar: the number of the wave while one runs, and
/// otherwise what the player is expected to do.
pub open spec fn status_line(wave_state: WaveState, ui_state: UiState, current_wave: usize) -> Seq<
    char,
> {
    match wave_state {
        WaveState::Waiting => match ui_state {
            UiState::Normal => "Once you have placed your towers, press SPACE to start the next wave."@,
            UiState::PlacingTower(_) => "Click on an unoccupied tile to place a tower. Click the card again to cancel."@,
            UiState::PickingTower(_) => "Choose a new tower"@,
        },
        _ => around("Wave: "@, current_wave as nat, ""@),
    }
}

/// Writes the line of the status bar; see [`status_line`].
pub fn update_status_bar_text(wave_state: WaveState, ui_state: &UiState, current_wave: usize) -> (s:
    String)
    ensures
        s@ == status_line(wave_state, *ui_state, current_wave),
{
    match wave_state {
        WaveState::Waiting => match ui_state {
            UiState::Normal => "Once you have placed your towers, press SPACE to start the next wave.".to_owned(),
            UiState::PlacingTower(_) => "Click on an unoccupied tile to place a tower. Click the card again to cancel.".to_owned(),
            UiState::PickingTower(_) => "Choose a new tower".to_owned(),
        },
        _ => with_number("Wave: ", current_wave as u64, ""),
    }
}

/// Writes the score as the status bar shows it.
pub fn update_score_text(score: u32) -> (s: String)
    ensures
        s@ == around("Score: "@, score as nat, ""@),
{
    with_number("Score: ", score as u64, "")
}

/// Writes the lives as the status bar shows them.
pub fn update_lives_text(lives: u16) -> (s: String)
    ensures
        s@ == around("Lives: "@, lives as nat, ""@),
{
    with_number("Lives: ", lives as u64, "")
}

} // verus!
