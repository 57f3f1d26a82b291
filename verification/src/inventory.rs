//! The towers the player holds but has not placed yet.

use vstd::prelude::*;
use crate::tower::Tower;

verus! {

/// The towers waiting to be placed, in the order in which they were won.
#[derive(Debug)]
pub struct Inventory {
    pub towers: Vec<Tower>,
}

impl Inventory {
    /// An empty inventory.
    pub fn new() -> (inventory: Inventory)
        ensures
            inventory.towers@ == Seq::<Tower>::empty(),
    {
        Inventory { towers: Vec::new() }
    }
}

impl Default for Inventory {
    fn default() -> (inventory: Inventory)
        ensures
            inventory.towers@ == Seq::<Tower>::empty(),
    {
        Inventory::new()
    }
}

/// Adds a random tower to the inventory when the key for it was pressed,
/// and says whether it did.
pub fn give_random_tower(inventory: &mut Inventory, pressed: bool) -> (given: bool)
    ensures
        given == pressed,
        !pressed ==> final(inventory).towers@ == old(inventory).towers@,
        pressed ==> final(inventory).towers@.len() == old(inventory).towers@.len() + 1
            && final(inventory).towers@.drop_last() == old(inventory).towers@
            && final(inventory).towers@.last().is_random_stock(),
{
    if pressed {
        inventory.towers.push(Tower::new_random());
        true
    } else {
        false
    }
}

} // verus!
