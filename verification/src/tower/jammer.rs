//! The signal jammer: a tower that slows down the enemies around it.

use vstd::prelude::*;
use crate::grid::{Cell, GridMap};
use crate::tower::{board_ok, install, PlacedTower, Tower, TowerPlaced, Weapon};
use crate::tower::debuffs::SpeedUpPoint;
use crate::units::{grid_to_world, world_coord};

verus! {

/// Change of speed around a jammer, in percent.
pub const JAMMER_SLOWDOWN: i32 = -40;

/// The speed zone of a jammer on cell `grid_pos`.
pub open spec fn jammer_zone(grid_pos: Cell) -> SpeedUpPoint {
    SpeedUpPoint {
        percent: JAMMER_SLOWDOWN,
        x: world_coord(grid_pos.0 as int) as i32,
        y: world_coord(grid_pos.1 as int) as i32,
    }
}

/// Places `tower` on the free cell `grid_pos` as a jammer and opens its
/// speed zone around the centre of the cell. The tower becomes the last of
/// `towers` and the map names it under its cell.
pub fn spawn_jammer(
    tower: Tower,
    grid_pos: Cell,
    towers: &mut Vec<PlacedTower>,
    map: &mut GridMap,
    speed_up_points: &mut Vec<SpeedUpPoint>,
) -> (event: TowerPlaced)
    requires
        old(map).buildable(grid_pos),
    ensures
        event.grid_pos == grid_pos,
        final(towers)@ == old(towers)@.push(
            PlacedTower { tower, grid_pos, weapon: Weapon::Jammer, overheat: None },
        ),
        final(speed_up_points)@ == old(speed_up_points)@.push(jammer_zone(grid_pos)),
        final(map).tower_index() == old(map).tower_index().insert(
            grid_pos,
            Some(old(towers)@.len() as usize),
        ),
        final(map).same_ground(old(map)),
        final(map).enemies == old(map).enemies,
        board_ok(old(towers)@, old(map).tower_index()) ==> board_ok(
            final(towers)@,
            final(map).tower_index(),
        ),
{
    let event = install(tower, grid_pos, Weapon::Jammer, towers, map);
    speed_up_points.push(
        SpeedUpPoint {
            percent: JAMMER_SLOWDOWN,
            x: grid_to_world(grid_pos.0 as i16),
            y: grid_to_world(grid_pos.1 as i16),
        },
    );
    event
}

} // verus!
