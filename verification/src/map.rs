use vstd::prelude::*;

use crate::item::Item;
use crate::storage::{tile_code, tile_of_code, tiles_bytes};

verus! {

/// Number of columns of the dungeon.
pub const MAP_WIDTH: usize = 32;

/// Number of rows of the dungeon.
pub const MAP_HEIGHT: usize = 32;

/// Number of tiles of the dungeon.
pub const NUM_TILES: usize = 1024;

/// The tile index at which the dungeon holds a sword when it is created.
pub const SWORD_TILE: usize = 48;

/// A tile of the dungeon: a wall, or a floor that may hold one item.
#[derive(Clone, Copy, Debug, PartialEq, Eq, Structural)]
pub enum TileType {
    Wall,
    Floor(Option<Item>),
}

/// The dungeon: a grid of `MAP_WIDTH` x `MAP_HEIGHT` tiles stored row by row.
#[derive(Debug)]
pub struct DungeonMap {
    tiles: Vec<TileType>,
}

/// Whether `(x, y)` lies inside the grid.
pub open spec fn in_bounds(x: int, y: int) -> bool {
    0 <= x < MAP_WIDTH as int && 0 <= y < MAP_HEIGHT as int
}

/// Index of the tile `(x, y)` in the row-by-row layout.
pub open spec fn tile_index(x: int, y: int) -> int {
    y * (MAP_WIDTH as int) + x
}

/// The tile at index `idx` of a freshly created dungeon: walls all around the
/// border, a sword at `SWORD_TILE`, empty floor elsewhere.
pub open spec fn initial_tile(idx: int) -> TileType {
    let x = idx % (MAP_WIDTH as int);
    let y = idx / (MAP_WIDTH as int);
    if x == 0 || x == MAP_WIDTH - 1 || y == 0 || y == MAP_HEIGHT - 1 {
        TileType::Wall
    } else if idx == SWORD_TILE as int {
        TileType::Floor(Some(Item::Sword))
    } else {
        TileType::Floor(None)
    }
}

/// The tile that `add_item` leaves in place of `t`.
pub open spec fn tile_with_item(t: TileType, item: Item) -> TileType {
    match t {
        TileType::Floor(_) => TileType::Floor(Some(item)),
        TileType::Wall => TileType::Wall,
    }
}

/// The tile that `remove_item` leaves in place of `t`.
pub open spec fn tile_without_item(t: TileType) -> TileType {
    match t {
        TileType::Floor(_) => TileType::Floor(None),
        TileType::Wall => TileType::Wall,
    }
}

/// Every map has exactly `NUM_TILES` tiles.
pub broadcast proof fn lemma_map_len(map: DungeonMap)
    ensures
        #[trigger] map@.len() == NUM_TILES as int,
{
}

impl Clone for DungeonMap {
    fn clone(&self) -> (map: DungeonMap)
        ensures
            map@ == self@,
    {
        proof {
            use_type_invariant(self);
        }
        let tiles = self.tiles.clone();
        proof {
            assert(tiles@ =~= self.tiles@);
        }
        DungeonMap { tiles }
    }
}

impl View for DungeonMap {
    type V = Seq<TileType>;

    closed spec fn view(&self) -> Seq<TileType> {
        Seq::new(NUM_TILES as nat, |i: int| self.tiles@[i])
    }
}

impl DungeonMap {
    #[verifier::type_invariant]
    spec fn well_formed(self) -> bool {
        self.tiles@.len() == NUM_TILES as int
    }

    /// The tile at `(x, y)`, or `None` outside the grid.
    pub open spec fn tile_at(&self, x: int, y: int) -> Option<TileType> {
        if in_bounds(x, y) {
            Some(self@[tile_index(x, y)])
        } else {
            None
        }
    }

    /// Whether the player may stand on `(x, y)`: a floor tile inside the grid.
    pub open spec fn enterable(&self, x: int, y: int) -> bool {
        self.tile_at(x, y) matches Some(TileType::Floor(_))
    }

    /// Creates the dungeon: walls around the border, a sword at `SWORD_TILE`.
    pub fn new() -> (map: DungeonMap)
        ensures
            map@.len() == NUM_TILES as int,
            forall|i: int| 0 <= i < NUM_TILES as int ==> #[trigger] map@[i] == initial_tile(i),
    {
        let mut tiles: Vec<TileType> = Vec::new();
        let mut idx: usize = 0;
        while idx < NUM_TILES
            invariant
                idx <= NUM_TILES,
                tiles@.len() == idx as int,
                forall|i: int| 0 <= i < idx as int ==> #[trigger] tiles@[i] == initial_tile(i),
            decreases NUM_TILES - idx,
        {
            let x: usize = idx % MAP_WIDTH;
            let y: usize = idx / MAP_WIDTH;
            let tile = if x == 0 || x == MAP_WIDTH - 1 || y == 0 || y == MAP_HEIGHT - 1 {
                TileType::Wall
            } else if idx == SWORD_TILE {
                TileType::Floor(Some(Item::Sword))
            } else {
                TileType::Floor(None)
            };
            tiles.push(tile);
            idx = idx + 1;
        }
        let map = DungeonMap { tiles };
        proof {
            assert(map.tiles@ =~= map@);
        }
        map
    }

    /// The tile at `(x, y)`, or `None` when `(x, y)` lies outside the grid.
    pub fn get_tile(&self, x: usize, y: usize) -> (tile: Option<TileType>)
        ensures
            tile == self.tile_at(x as int, y as int),
    {
        proof {
            use_type_invariant(self);
            assert(self.tiles@ =~= self@);
        }
        if x < MAP_WIDTH && y < MAP_HEIGHT {
            Some(self.tiles[y * MAP_WIDTH + x])
        } else {
            None
        }
    }

    /// Whether the player may move onto `(x, y)`.
    pub fn can_enter_tile(&self, x: usize, y: usize) -> (can: bool)
        ensures
            can == self.enterable(x as int, y as int),
    {
        match self.get_tile(x, y) {
            Some(TileType::Floor(_)) => true,
            _ => false,
        }
    }

    /// Puts `item` on the floor tile `(x, y)`; walls and positions outside the
    /// grid are left as they are.
    pub fn add_item(self, x: usize, y: usize, item: Item) -> (map: DungeonMap)
        ensures
            in_bounds(x as int, y as int) ==> map@ == self@.update(
                tile_index(x as int, y as int),
                tile_with_item(self@[tile_index(x as int, y as int)], item),
            ),
            !in_bounds(x as int, y as int) ==> map@ == self@,
    {
        proof {
            use_type_invariant(&self);
            assert(self.tiles@ =~= self@);
        }
        if x < MAP_WIDTH && y < MAP_HEIGHT {
            let idx = y * MAP_WIDTH + x;
            let mut tiles = self.tiles;
            let tile = tiles[idx];
            match tile {
                TileType::Floor(_) => {
                    tiles.set(idx, TileType::Floor(Some(item)));
                },
                TileType::Wall => {},
            }
            DungeonMap { tiles }
        } else {
            self
        }
    }

    /// Clears the floor tile `(x, y)`; walls and positions outside the grid are
    /// left as they are.
    pub fn remove_item(self, x: usize, y: usize) -> (map: DungeonMap)
        ensures
            in_bounds(x as int, y as int) ==> map@ == self@.update(
                tile_index(x as int, y as int),
                tile_without_item(self@[tile_index(x as int, y as int)]),
            ),
            !in_bounds(x as int, y as int) ==> map@ == self@,
    {
        proof {
            use_type_invariant(&self);
            assert(self.tiles@ =~= self@);
        }
        if x < MAP_WIDTH && y < MAP_HEIGHT {
            let idx = y * MAP_WIDTH + x;
            let mut tiles = self.tiles;
            let tile = tiles[idx];
            match tile {
                TileType::Floor(_) => {
                    tiles.set(idx, TileType::Floor(None));
                },
                TileType::Wall => {},
            }
            DungeonMap { tiles }
        } else {
            self
        }
    }
}


/// Every byte of `bytes` stores a tile.
pub open spec fn valid_tiles_bytes(bytes: Seq<u8>) -> bool {
    forall|i: int| 0 <= i < bytes.len() ==> #[trigger] tile_of_code(bytes[i]) is Some
}

fn tile_to_code(tile: TileType) -> (b: u8)
    ensures
        b == tile_code(tile),
{
    match tile {
        TileType::Wall => 0,
        TileType::Floor(None) => 1,
        TileType::Floor(Some(Item::Sword)) => 2,
        TileType::Floor(Some(Item::Potion)) => 3,
    }
}

fn code_to_tile(b: u8) -> (tile: Option<TileType>)
    ensures
        tile == tile_of_code(b),
{
    if b == 0 {
        Some(TileType::Wall)
    } else if b == 1 {
        Some(TileType::Floor(None))
    } else if b == 2 {
        Some(TileType::Floor(Some(Item::Sword)))
    } else if b == 3 {
        Some(TileType::Floor(Some(Item::Potion)))
    } else {
        None
    }
}

impl DungeonMap {
    /// The bytes that store the map, one per tile, row by row.
    pub fn to_bytes(&self) -> (bytes: Vec<u8>)
        ensures
            bytes@ == tiles_bytes(self@),
    {
        proof {
            use_type_invariant(self);
            assert(self.tiles@ =~= self@);
        }
        let mut bytes: Vec<u8> = Vec::new();
        let mut i: usize = 0;
        while i < self.tiles.len()
            invariant
                i <= self.tiles@.len(),
                self.tiles@ == self@,
                bytes@ == tiles_bytes(self@.subrange(0, i as int)),
            decreases self.tiles@.len() - i,
        {
            bytes.push(tile_to_code(self.tiles[i]));
            i = i + 1;
            proof {
                assert(tiles_bytes(self@.subrange(0, i as int)) =~= tiles_bytes(
                    self@.subrange(0, i - 1),
                ).push(tile_code(self@[i - 1])));
            }
        }
        proof {
            assert(self@.subrange(0, i as int) =~= self@);
        }
        bytes
    }

    /// The map stored in `bytes`: `None` unless there is one valid byte per tile.
    pub fn from_bytes(bytes: &Vec<u8>) -> (map: Option<DungeonMap>)
        ensures
            map is Some <==> bytes@.len() == NUM_TILES as int && valid_tiles_bytes(bytes@),
            map matches Some(m) ==> forall|i: int|
                0 <= i < NUM_TILES as int ==> Some(#[trigger] m@[i]) == tile_of_code(bytes@[i]),
    {
        if bytes.len() != NUM_TILES {
            return None;
        }
        let mut tiles: Vec<TileType> = Vec::new();
        let mut i: usize = 0;
        while i < bytes.len()
            invariant
                i <= bytes@.len(),
                bytes@.len() == NUM_TILES as int,
                tiles@.len() == i as int,
                forall|j: int| 0 <= j < i ==> Some(#[trigger] tiles@[j]) == tile_of_code(bytes@[j]),
            decreases bytes@.len() - i,
        {
            match code_to_tile(bytes[i]) {
                Some(tile) => {
                    tiles.push(tile);
                },
                None => {
                    return None;
                },
            }
            i = i + 1;
        }
        let map = DungeonMap { tiles };
        proof {
            assert(map.tiles@ =~= map@);
            assert forall|j: int| 0 <= j < bytes@.len() implies #[trigger] tile_of_code(
                bytes@[j],
            ) is Some by {
                assert(Some(tiles@[j]) == tile_of_code(bytes@[j]));
            }
        }
        Some(map)
    }
}


/// A map reads back from the bytes that store it.
pub proof fn map_reads_back(tiles: Seq<TileType>)
    ensures
        valid_tiles_bytes(tiles_bytes(tiles)),
        forall|i: int| 0 <= i < tiles.len() ==> tile_of_code(#[trigger] tiles_bytes(tiles)[i]) == Some(
            tiles[i],
        ),
{
    assert forall|i: int| 0 <= i < tiles_bytes(tiles).len() implies #[trigger] tile_of_code(
        tiles_bytes(tiles)[i],
    ) is Some by {
        assert(tiles_bytes(tiles)[i] == tile_code(tiles[i]));
    }
}

impl PartialEq for DungeonMap {
    fn eq(&self, other: &DungeonMap) -> (same: bool) {
        proof {
            use_type_invariant(self);
            use_type_invariant(other);
        }
        let mut i: usize = 0;
        while i < self.tiles.len()
            invariant
                i <= self.tiles@.len(),
                self.tiles@.len() == NUM_TILES as int,
                other.tiles@.len() == NUM_TILES as int,
                forall|j: int| 0 <= j < i ==> self.tiles@[j] == other.tiles@[j],
            decreases self.tiles@.len() - i,
        {
            if self.tiles[i] != other.tiles[i] {
                proof {
                    assert(self@[i as int] != other@[i as int]);
                }
                return false;
            }
            i = i + 1;
        }
        proof {
            assert(self@ =~= other@);
        }
        true
    }
}

impl vstd::std_specs::cmp::PartialEqSpecImpl for DungeonMap {
    open spec fn obeys_eq_spec() -> bool {
        true
    }

    open spec fn eq_spec(&self, other: &DungeonMap) -> bool {
        self@ == other@
    }
}

} // verus!
