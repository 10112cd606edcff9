use vstd::prelude::*;

verus! {

/// Something a player can carry.
#[derive(Debug, Clone, Copy, PartialEq, Eq, Structural)]
pub enum Item {
    NoItem,
    Dirt,
    Grass,
    Stone,
}

/// A player's item slots: armour, the main inventory and the hotbar.
#[derive(Debug, Clone, Copy, PartialEq, Eq)]
pub struct Inventory {
    pub armour_slots: [Option<Item>; 4],
    pub inventory_slots: [Option<Item>; 27],
    pub hotbar: [Option<Item>; 9],
}

impl Inventory {
    /// Every slot is empty.
    pub open spec fn is_clear(&self) -> bool {
        &&& forall|k: int| 0 <= k < 4 ==> self.armour_slots[k] is None
        &&& forall|k: int| 0 <= k < 27 ==> self.inventory_slots[k] is None
        &&& forall|k: int| 0 <= k < 9 ==> self.hotbar[k] is None
    }
}

impl Default for Inventory {
    fn default() -> (r: Inventory)
        ensures
            r.is_clear(),
    {
        Inventory { armour_slots: [None; 4], inventory_slots: [None; 27], hotbar: [None; 9] }
    }
}

} // verus!
