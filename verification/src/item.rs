use vstd::prelude::*;

verus! {

/// An item that lies on the floor of the dungeon or sits in an inventory.
#[derive(Clone, Copy, Debug, PartialEq, Eq, Structural, Hash)]
pub enum Item {
    Sword,
    Potion,
}

impl Item {
    /// Creates a sword.
    pub fn new_sword() -> (item: Item)
        ensures
            item == Item::Sword,
    {
        Item::Sword
    }
}

} // verus!
