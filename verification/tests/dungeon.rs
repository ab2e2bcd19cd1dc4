use rollup_kernels::item::{self, Item};
use rollup_kernels::map::{DungeonMap, TileType, MAP_HEIGHT, MAP_WIDTH};
use rollup_kernels::market_place::MarketPlace;
use rollup_kernels::player::Player;
use rollup_kernels::state;

const ITEM_X: usize = MAP_WIDTH / 2;
const ITEM_Y: usize = MAP_HEIGHT / 2;

fn idx_to_xy(idx: usize) -> (usize, usize) {
    let x = idx % MAP_WIDTH;
    let y = idx / MAP_HEIGHT;
    (x, y)
}

#[test]
fn test_add_item() -> () {
    let map = DungeonMap::new();
    let sword = item::Item::new_sword();

    let map = map.add_item(ITEM_X, ITEM_Y, sword);

    let is_sword = match map.get_tile(ITEM_X, ITEM_Y) {
        Some(TileType::Floor(Some(Item::Sword))) => true,
        _ => false,
    };

    assert_eq!(is_sword, true);
}

#[test]
fn test_remove_item() -> () {
    let map = DungeonMap::new();
    let sword = item::Item::new_sword();

    let map = map.add_item(ITEM_X, ITEM_Y, sword);
    let map = map.remove_item(ITEM_X, ITEM_Y);

    let is_floor_none = match map.get_tile(ITEM_X, ITEM_Y) {
        Some(TileType::Floor(None)) => true,
        _ => false,
    };

    assert_eq!(is_floor_none, true);
}

#[test]
fn test_pickup_item() -> () {
    let sword_position = idx_to_xy(48);
    let state = state::State {
        map: DungeonMap::new(),
        player: Player::new(sword_position.0, sword_position.1),
        market_place: MarketPlace::new(),
    };

    let state = state.pick_up();

    let is_sword = match state.map.get_tile(state.player.x_pos, state.player.y_pos) {
        Some(TileType::Floor(None)) => true,
        _ => false,
    };

    let state::State { player, .. } = state;
    let inventory = player.inventory;

    assert!(!inventory.is_empty());
    assert_eq!(is_sword, true);
}

#[test]
fn test_drop_item() -> () {
    let sword_position = idx_to_xy(48);
    let state = state::State {
        map: DungeonMap::new(),
        player: Player::new(sword_position.0, sword_position.1),
        market_place: MarketPlace::new(),
    };

    let state = state::State::pick_up(state);

    let state = state::State::drop_item(state, 0);
    let state = state::State::drop_item(state, 1);

    let is_present = match state.map.get_tile(state.player.x_pos, state.player.y_pos) {
        Some(TileType::Floor(Some(Item::Sword))) => true,
        _ => false,
    };

    let state::State { player, .. } = state;
    let inventory = player.inventory;

    assert!(inventory.is_empty());
    assert_eq!(is_present, true);
}

#[test]
fn lib_test_add_item() {
    let map = DungeonMap::new();
    let sword = item::Item::new_sword();

    let map = map.add_item(ITEM_X, ITEM_Y, sword);

    let is_sword = matches!(
        map.get_tile(ITEM_X, ITEM_Y),
        Some(TileType::Floor(Some(Item::Sword)))
    );

    assert!(is_sword);
}

#[test]
fn lib_test_remove_item() {
    let map = DungeonMap::new();
    let sword = item::Item::new_sword();

    let map = map.add_item(ITEM_X, ITEM_Y, sword);
    let map = map.remove_item(ITEM_X, ITEM_Y);

    let is_floor_none = matches!(map.get_tile(ITEM_X, ITEM_Y), Some(TileType::Floor(None)));

    assert!(is_floor_none);
}

#[test]
fn test_remove_gold() {
    let sword_position = idx_to_xy(48);
    let state = state::State {
        map: DungeonMap::new(),
        player: Player::new(sword_position.0, sword_position.1),
        market_place: MarketPlace::new(),
    };
    let player = state.player.remove_gold(100);
    assert_eq!(900, player.gold)
}

#[test]
fn test_add_gold() {
    let sword_position = idx_to_xy(48);
    let state = state::State {
        map: DungeonMap::new(),
        player: Player::new(sword_position.0, sword_position.1),
        market_place: MarketPlace::new(),
    };
    let player = state.player.add_gold(100);
    assert_eq!(1100, player.gold)
}

#[test]
fn lib_test_pickup_item() {
    let sword_position = idx_to_xy(48);
    let state = state::State {
        map: DungeonMap::new(),
        player: Player::new(sword_position.0, sword_position.1),
        market_place: MarketPlace::new(),
    };

    let state = state.pick_up();

    let is_sword = matches!(
        state.map.get_tile(state.player.x_pos, state.player.y_pos),
        Some(TileType::Floor(None))
    );
    let state::State { player, .. } = state;
    let inventory = player.inventory;

    assert!(!inventory.is_empty());
    assert!(is_sword);
}

#[test]
fn lib_test_drop_item() {
    let sword_position = idx_to_xy(48);
    let state = state::State {
        map: DungeonMap::new(),
        player: Player::new(sword_position.0, sword_position.1),
        market_place: MarketPlace::new(),
    };

    let state = state::State::pick_up(state);

    let state = state::State::drop_item(state, 0);
    let state = state::State::drop_item(state, 1);

    let is_present = matches!(
        state.map.get_tile(state.player.x_pos, state.player.y_pos),
        Some(TileType::Floor(Some(Item::Sword)))
    );

    let state::State { player, .. } = state;
    let inventory = player.inventory;

    assert!(inventory.is_empty());
    assert!(is_present);
}
