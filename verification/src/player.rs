use vstd::prelude::*;

use crate::item::Item;

verus! {

/// Number of items above which a player can no longer buy from the market place.
pub const MAX_ITEMS: usize = 8;

/// Gold a player owns when the game starts.
pub const INITIAL_GOLD: usize = 1000;

/// The player: a position in the dungeon, some gold and an inventory.
#[derive(Debug)]
pub struct Player {
    pub x_pos: usize,
    pub y_pos: usize,
    pub gold: usize,
    pub inventory: Vec<Item>,
}

impl Clone for Player {
    fn clone(&self) -> (player: Player)
        ensures
            player.x_pos == self.x_pos,
            player.y_pos == self.y_pos,
            player.gold == self.gold,
            player.inventory@ == self.inventory@,
    {
        let inventory = self.inventory.clone();
        proof {
            assert(inventory@ =~= self.inventory@);
        }
        Player { x_pos: self.x_pos, y_pos: self.y_pos, gold: self.gold, inventory }
    }
}

/// The coordinate one step below `v`, or `v` itself at zero.
pub open spec fn step_down(v: usize) -> usize {
    if v > 0 {
        (v - 1) as usize
    } else {
        v
    }
}

/// The coordinate one step above `v`, or `v` itself at `usize::MAX`.
pub open spec fn step_up(v: usize) -> usize {
    if v < usize::MAX {
        (v + 1) as usize
    } else {
        v
    }
}

impl Player {
    /// `other` is `self` at the position `(x, y)`: same gold, same inventory.
    pub open spec fn moved_to(self, other: Player, x: usize, y: usize) -> bool {
        &&& other.x_pos == x
        &&& other.y_pos == y
        &&& other.gold == self.gold
        &&& other.inventory@ == self.inventory@
    }

    /// A player standing at `(x_pos, y_pos)` with `INITIAL_GOLD` and nothing in hand.
    pub fn new(x_pos: usize, y_pos: usize) -> (player: Player)
        ensures
            player.x_pos == x_pos,
            player.y_pos == y_pos,
            player.gold == INITIAL_GOLD,
            player.inventory@ == Seq::<Item>::empty(),
    {
        Player { x_pos, y_pos, gold: INITIAL_GOLD, inventory: Vec::new() }
    }

    /// One step up the screen (towards row 0).
    pub fn move_up(self) -> (player: Player)
        ensures
            self.moved_to(player, self.x_pos, step_down(self.y_pos)),
    {
        let y_pos = if self.y_pos > 0 {
            self.y_pos - 1
        } else {
            self.y_pos
        };
        Player { y_pos, ..self }
    }

    /// One step down the screen.
    pub fn move_down(self) -> (player: Player)
        ensures
            self.moved_to(player, self.x_pos, step_up(self.y_pos)),
    {
        let y_pos = if self.y_pos < usize::MAX {
            self.y_pos + 1
        } else {
            self.y_pos
        };
        Player { y_pos, ..self }
    }

    /// One step to the left (towards column 0).
    pub fn move_left(self) -> (player: Player)
        ensures
            self.moved_to(player, step_down(self.x_pos), self.y_pos),
    {
        let x_pos = if self.x_pos > 0 {
            self.x_pos - 1
        } else {
            self.x_pos
        };
        Player { x_pos, ..self }
    }

    /// One step to the right.
    pub fn move_right(self) -> (player: Player)
        ensures
            self.moved_to(player, step_up(self.x_pos), self.y_pos),
    {
        let x_pos = if self.x_pos < usize::MAX {
            self.x_pos + 1
        } else {
            self.x_pos
        };
        Player { x_pos, ..self }
    }

    /// Puts `item` at the end of the inventory.
    pub fn add_item(self, item: Item) -> (player: Player)
        ensures
            player.x_pos == self.x_pos,
            player.y_pos == self.y_pos,
            player.gold == self.gold,
            player.inventory@ == self.inventory@.push(item),
    {
        let mut inventory = self.inventory;
        inventory.push(item);
        Player { inventory, ..self }
    }

    /// Takes the item at `item_position` out of the inventory; `None`, and the
    /// player unchanged, when there is no such position.
    pub fn remove_item(self, item_position: usize) -> (res: (Player, Option<Item>))
        ensures
            res.0.x_pos == self.x_pos,
            res.0.y_pos == self.y_pos,
            res.0.gold == self.gold,
            item_position < self.inventory@.len() ==> {
                &&& res.1 == Some(self.inventory@[item_position as int])
                &&& res.0.inventory@ == self.inventory@.remove(item_position as int)
            },
            item_position >= self.inventory@.len() ==> {
                &&& res.1 == None::<Item>
                &&& res.0.inventory@ == self.inventory@
            },
    {
        if item_position < self.inventory.len() {
            let mut inventory = self.inventory;
            let item = inventory.remove(item_position);
            (Player { inventory, ..self }, Some(item))
        } else {
            (self, None)
        }
    }

    /// Receives `amount` of gold.
    pub fn add_gold(self, amount: usize) -> (player: Player)
        requires
            self.gold + amount <= usize::MAX,
        ensures
            player.x_pos == self.x_pos,
            player.y_pos == self.y_pos,
            player.gold == self.gold + amount,
            player.inventory@ == self.inventory@,
    {
        Player { gold: self.gold + amount, ..self }
    }

    /// Pays `amount` of gold.
    pub fn remove_gold(self, amount: usize) -> (player: Player)
        requires
            amount <= self.gold,
        ensures
            player.x_pos == self.x_pos,
            player.y_pos == self.y_pos,
            player.gold == self.gold - amount,
            player.inventory@ == self.inventory@,
    {
        Player { gold: self.gold - amount, ..self }
    }
}

fn same_items(a: &Vec<Item>, b: &Vec<Item>) -> (same: bool)
    ensures
        same == (a@ == b@),
{
    if a.len() != b.len() {
        return false;
    }
    let mut i: usize = 0;
    while i < a.len()
        invariant
            i <= a@.len(),
            a@.len() == b@.len(),
            forall|j: int| 0 <= j < i ==> a@[j] == b@[j],
        decreases a@.len() - i,
    {
        if a[i] != b[i] {
            return false;
        }
        i = i + 1;
    }
    proof {
        assert(a@ =~= b@);
    }
    true
}

impl PartialEq for Player {
    fn eq(&self, other: &Player) -> (same: bool) {
        self.x_pos == other.x_pos && self.y_pos == other.y_pos && self.gold == other.gold
            && same_items(&self.inventory, &other.inventory)
    }
}

impl vstd::std_specs::cmp::PartialEqSpecImpl for Player {
    open spec fn obeys_eq_spec() -> bool {
        true
    }

    open spec fn eq_spec(&self, other: &Player) -> bool {
        &&& self.x_pos == other.x_pos
        &&& self.y_pos == other.y_pos
        &&& self.gold == other.gold
        &&& self.inventory@ == other.inventory@
    }
}

} // verus!
