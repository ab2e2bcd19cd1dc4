use rollup_kernels::item::Item;
use rollup_kernels::map::{DungeonMap, TileType, MAP_HEIGHT, MAP_WIDTH, NUM_TILES, SWORD_TILE};
use rollup_kernels::market_place::MarketPlace;
use rollup_kernels::player::{Player, INITIAL_GOLD, MAX_ITEMS};
use rollup_kernels::player_actions::PlayerAction;
use rollup_kernels::state::State;

fn state_at(x: usize, y: usize) -> State {
    State { map: DungeonMap::new(), player: Player::new(x, y), market_place: MarketPlace::new() }
}

fn count_items(state: &State, item: Item) -> usize {
    let mut n = 0;
    for y in 0..MAP_HEIGHT {
        for x in 0..MAP_WIDTH {
            if state.map.get_tile(x, y) == Some(TileType::Floor(Some(item))) {
                n += 1;
            }
        }
    }
    n + state.player.inventory.iter().filter(|i| **i == item).count()
}

#[test]
fn new_map_layout() {
    let map = DungeonMap::new();
    assert_eq!(map.get_tile(0, 0), Some(TileType::Wall));
    assert_eq!(map.get_tile(MAP_WIDTH - 1, 7), Some(TileType::Wall));
    assert_eq!(map.get_tile(5, MAP_HEIGHT - 1), Some(TileType::Wall));
    assert_eq!(map.get_tile(SWORD_TILE % MAP_WIDTH, SWORD_TILE / MAP_WIDTH), Some(TileType::Floor(Some(Item::Sword))));
    assert_eq!(map.get_tile(3, 3), Some(TileType::Floor(None)));
    assert_eq!(map.get_tile(MAP_WIDTH, 3), None);
    assert_eq!(map.get_tile(3, MAP_HEIGHT), None);
    assert_eq!(MAP_WIDTH * MAP_HEIGHT, NUM_TILES);
    assert!(map.can_enter_tile(1, 1));
    assert!(!map.can_enter_tile(0, 1));
    assert!(!map.can_enter_tile(MAP_WIDTH, 1));
}

#[test]
fn add_item_leaves_walls_alone() {
    let map = DungeonMap::new().add_item(0, 0, Item::Potion);
    assert_eq!(map.get_tile(0, 0), Some(TileType::Wall));
    let map = map.remove_item(0, 0);
    assert_eq!(map.get_tile(0, 0), Some(TileType::Wall));
}

#[test]
fn new_state_is_in_the_middle() {
    let state = State::new();
    assert_eq!(state.player.x_pos, MAP_WIDTH / 2);
    assert_eq!(state.player.y_pos, MAP_HEIGHT / 2);
    assert_eq!(state.player.gold, INITIAL_GOLD);
    assert!(state.player.inventory.is_empty());
    assert_eq!(state.market_place.get_price("tz1", Item::Sword), None);
}

#[test]
fn moves_stop_at_walls() {
    let state = state_at(1, 1);
    let state = state.transition(None, PlayerAction::MoveLeft, "me").0;
    assert_eq!((state.player.x_pos, state.player.y_pos), (1, 1));
    let state = state.transition(None, PlayerAction::MoveUp, "me").0;
    assert_eq!((state.player.x_pos, state.player.y_pos), (1, 1));
    let state = state.transition(None, PlayerAction::MoveRight, "me").0;
    assert_eq!((state.player.x_pos, state.player.y_pos), (2, 1));
    let state = state.transition(None, PlayerAction::MoveDown, "me").0;
    assert_eq!((state.player.x_pos, state.player.y_pos), (2, 2));
}

#[test]
fn pick_up_on_empty_floor_does_nothing() {
    let state = state_at(3, 3).pick_up();
    assert!(state.player.inventory.is_empty());
    assert_eq!(state.map.get_tile(3, 3), Some(TileType::Floor(None)));
}

#[test]
fn drop_undoes_pick_up_on_concrete_state() {
    let state = state_at(SWORD_TILE % MAP_WIDTH, SWORD_TILE / MAP_WIDTH);
    let picked = state.transition(None, PlayerAction::PickUp, "me").0;
    assert_eq!(picked.player.inventory, vec![Item::Sword]);
    let dropped = picked.transition(None, PlayerAction::Drop(0), "me").0;
    assert!(dropped.player.inventory.is_empty());
    assert_eq!(
        dropped.map.get_tile(SWORD_TILE % MAP_WIDTH, SWORD_TILE / MAP_WIDTH),
        Some(TileType::Floor(Some(Item::Sword)))
    );
}

#[test]
fn sell_then_buy_moves_the_item_and_the_gold() {
    let state = state_at(SWORD_TILE % MAP_WIDTH, SWORD_TILE / MAP_WIDTH).pick_up();
    assert_eq!(count_items(&state, Item::Sword), 1);
    let state = state.transition(None, PlayerAction::Sell(0, 300), "alice").0;
    assert!(state.player.inventory.is_empty());
    assert_eq!(state.market_place.get_price("alice", Item::Sword), Some(300));
    assert_eq!(state.market_place.get_price("bob", Item::Sword), None);
    let alice = Player::new(5, 5);
    let (state, paid) =
        state.transition(Some(alice), PlayerAction::Buy("alice".to_string(), Item::Sword), "bob");
    assert_eq!(state.player.inventory, vec![Item::Sword]);
    assert_eq!(state.player.gold, INITIAL_GOLD - 300);
    let paid = paid.unwrap();
    assert_eq!(paid.gold, INITIAL_GOLD + 300);
    assert_eq!((paid.x_pos, paid.y_pos), (5, 5));
    assert_eq!(state.market_place.get_price("alice", Item::Sword), None);
    assert_eq!(count_items(&state, Item::Sword), 1);
}

#[test]
fn sell_out_of_range_does_nothing() {
    let state = state_at(3, 3).sell_item("alice", 0, 10);
    assert!(state.player.inventory.is_empty());
    assert_eq!(state.market_place.get_price("alice", Item::Sword), None);
}

#[test]
fn buy_refused_without_enough_gold() {
    let mut state = state_at(3, 3);
    state.market_place.sell_item("alice", Item::Potion, INITIAL_GOLD + 1);
    let (state, paid) = state.buy_item(Some(Player::new(1, 1)), "alice", Item::Potion, "bob");
    assert!(paid.is_none());
    assert!(state.player.inventory.is_empty());
    assert_eq!(state.player.gold, INITIAL_GOLD);
    assert_eq!(state.market_place.get_price("alice", Item::Potion), Some(INITIAL_GOLD + 1));
}

#[test]
fn buy_refused_when_not_on_sale() {
    let (state, paid) = state_at(3, 3).buy_item(Some(Player::new(1, 1)), "alice", Item::Potion, "bob");
    assert!(paid.is_none());
    assert!(state.player.inventory.is_empty());
    assert_eq!(state.player.gold, INITIAL_GOLD);
}

#[test]
fn buy_refused_with_full_inventory() {
    let mut state = state_at(3, 3);
    for _ in 0..(MAX_ITEMS + 1) {
        state.player = state.player.add_item(Item::Potion);
    }
    state.market_place.sell_item("alice", Item::Sword, 1);
    let (state, paid) = state.buy_item(Some(Player::new(1, 1)), "alice", Item::Sword, "bob");
    assert!(paid.is_none());
    assert_eq!(state.player.inventory.len(), MAX_ITEMS + 1);
    assert_eq!(state.player.gold, INITIAL_GOLD);
    assert_eq!(state.market_place.get_price("alice", Item::Sword), Some(1));
}

#[test]
fn buy_allowed_at_max_items() {
    let mut state = state_at(3, 3);
    for _ in 0..MAX_ITEMS {
        state.player = state.player.add_item(Item::Potion);
    }
    state.market_place.sell_item("alice", Item::Sword, 1);
    let (state, paid) = state.buy_item(Some(Player::new(1, 1)), "alice", Item::Sword, "bob");
    assert_eq!(state.player.inventory.len(), MAX_ITEMS + 1);
    assert_eq!(state.player.gold, INITIAL_GOLD - 1);
    assert_eq!(paid.unwrap().gold, INITIAL_GOLD + 1);
}

#[test]
fn market_place_reads_back_writes() {
    let mut market = MarketPlace::new();
    market.sell_item("alice", Item::Sword, 10);
    market.sell_item("bob", Item::Sword, 20);
    market.sell_item("alice", Item::Potion, 30);
    assert_eq!(market.get_price("alice", Item::Sword), Some(10));
    assert_eq!(market.get_price("bob", Item::Sword), Some(20));
    assert_eq!(market.get_price("alice", Item::Potion), Some(30));
    market.sell_item("alice", Item::Sword, 15);
    assert_eq!(market.get_price("alice", Item::Sword), Some(15));
    market.buy_item("alice", Item::Sword);
    assert_eq!(market.get_price("alice", Item::Sword), None);
    assert_eq!(market.get_price("bob", Item::Sword), Some(20));
    market.buy_item("carol", Item::Sword);
    assert_eq!(market.get_price("bob", Item::Sword), Some(20));
    let copy = market.clone();
    assert_eq!(copy.get_price("alice", Item::Potion), Some(30));
}

#[test]
fn player_steps() {
    let p = Player::new(0, 0).move_left().move_up();
    assert_eq!((p.x_pos, p.y_pos), (0, 0));
    let p = p.move_right().move_down();
    assert_eq!((p.x_pos, p.y_pos), (1, 1));
    let p = Player::new(usize::MAX, usize::MAX).move_right().move_down();
    assert_eq!((p.x_pos, p.y_pos), (usize::MAX, usize::MAX));
    let (p, item) = Player::new(1, 1).add_item(Item::Sword).add_item(Item::Potion).remove_item(0);
    assert_eq!(item, Some(Item::Sword));
    assert_eq!(p.inventory, vec![Item::Potion]);
    let (p, item) = p.remove_item(5);
    assert_eq!(item, None);
    assert_eq!(p.inventory, vec![Item::Potion]);
}

#[test]
fn clone_keeps_the_game() {
    let state = state_at(SWORD_TILE % MAP_WIDTH, SWORD_TILE / MAP_WIDTH).pick_up();
    let copy = state.clone();
    assert_eq!(copy.player.inventory, state.player.inventory);
    assert_eq!((copy.player.x_pos, copy.player.y_pos), (state.player.x_pos, state.player.y_pos));
    assert_eq!(copy.map.get_tile(16, 1), Some(TileType::Floor(None)));
}

#[test]
fn selling_twice_replaces_the_first_sale() {
    let mut state = state_at(3, 3);
    state.player = state.player.add_item(Item::Potion).add_item(Item::Potion);
    assert_eq!(count_items(&state, Item::Potion), 2);
    let state = state.sell_item("alice", 0, 5);
    let state = state.sell_item("alice", 0, 7);
    assert!(state.player.inventory.is_empty());
    assert_eq!(state.market_place.get_price("alice", Item::Potion), Some(7));
    let (state, paid) = state.buy_item(None, "alice", Item::Potion, "alice");
    assert!(paid.is_none());
    assert_eq!(state.player.gold, INITIAL_GOLD);
    assert_eq!(state.player.inventory, vec![Item::Potion]);
    assert_eq!(state.market_place.get_price("alice", Item::Potion), None);
}

#[test]
fn player_stays_on_floor_when_walking_around() {
    let mut state = State::new();
    let moves = [
        PlayerAction::MoveUp,
        PlayerAction::MoveLeft,
        PlayerAction::MoveDown,
        PlayerAction::MoveRight,
    ];
    for step in 0..200 {
        let action = match step % 7 {
            0 | 1 | 2 => PlayerAction::MoveUp,
            3 => PlayerAction::MoveLeft,
            _ => PlayerAction::MoveRight,
        };
        state = state.transition(None, action, "me").0;
        assert!(state.map.can_enter_tile(state.player.x_pos, state.player.y_pos));
    }
    for action in moves {
        state = state.transition(None, action, "me").0;
        assert!(state.map.can_enter_tile(state.player.x_pos, state.player.y_pos));
    }
}

#[test]
fn purchase_without_the_seller_still_goes_through() {
    let mut state = state_at(3, 3);
    state.market_place.sell_item("alice", Item::Sword, 10);
    let (state, paid) = state.buy_item(None, "alice", Item::Sword, "bob");
    assert!(paid.is_none());
    assert_eq!(state.player.inventory, vec![Item::Sword]);
    assert_eq!(state.player.gold, INITIAL_GOLD - 10);
    assert_eq!(state.market_place.get_price("alice", Item::Sword), None);
}

#[test]
fn free_item_without_the_seller() {
    let mut state = state_at(3, 3);
    state.market_place.sell_item("alice", Item::Potion, 0);
    let (state, _) = state.buy_item(None, "alice", Item::Potion, "bob");
    assert_eq!(state.player.inventory, vec![Item::Potion]);
    assert_eq!(state.player.gold, INITIAL_GOLD);
    assert_eq!(state.market_place.get_price("alice", Item::Potion), None);
}

#[test]
fn purchase_refused_when_the_seller_cannot_hold_the_gold() {
    let mut state = state_at(3, 3);
    state.market_place.sell_item("alice", Item::Sword, 10);
    let rich = Player::new(1, 1).add_gold(usize::MAX - INITIAL_GOLD - 5);
    let (state, paid) = state.buy_item(Some(rich), "alice", Item::Sword, "bob");
    assert!(paid.is_none());
    assert_eq!(state.player.gold, INITIAL_GOLD);
    assert_eq!(state.market_place.get_price("alice", Item::Sword), Some(10));
}

#[test]
fn other_actions_hand_back_no_seller() {
    let (_, paid) = state_at(3, 3).transition(Some(Player::new(1, 1)), PlayerAction::MoveUp, "me");
    assert!(paid.is_none());
}

#[test]
fn equality_compares_the_game() {
    let a = state_at(3, 3);
    let b = state_at(3, 3);
    assert!(a == b);
    let c = state_at(3, 4);
    assert!(a != c);
    let d = state_at(SWORD_TILE % MAP_WIDTH, SWORD_TILE / MAP_WIDTH).pick_up();
    let e = d.clone();
    assert!(d == e);
    assert!(d.map != DungeonMap::new());
    let mut m1 = MarketPlace::new();
    m1.sell_item("alice", Item::Sword, 3);
    m1.sell_item("bob", Item::Potion, 4);
    let mut m2 = MarketPlace::new();
    m2.sell_item("bob", Item::Potion, 4);
    m2.sell_item("alice", Item::Sword, 3);
    assert!(m1 == m2);
    m2.sell_item("alice", Item::Sword, 5);
    assert!(m1 != m2);
    m2.buy_item("alice", Item::Sword);
    assert!(m1 != m2);
    assert!(Player::new(1, 1).add_item(Item::Sword) != Player::new(1, 1));
    assert!(Player::new(1, 1).add_item(Item::Sword) == Player::new(1, 1).add_item(Item::Sword));
}

#[test]
fn actions_clone() {
    let action = PlayerAction::Buy("alice".to_string(), Item::Potion);
    match action.clone() {
        PlayerAction::Buy(seller, item) => {
            assert_eq!(seller, "alice");
            assert_eq!(item, Item::Potion);
        }
        _ => panic!("not a purchase"),
    }
    assert!(matches!(PlayerAction::Sell(1, 2).clone(), PlayerAction::Sell(1, 2)));
}
