use rollup_kernels::item::Item;
use rollup_kernels::map::{DungeonMap, TileType, MAP_HEIGHT, MAP_WIDTH, NUM_TILES};
use rollup_kernels::market_place::MarketPlace;
use rollup_kernels::player::{Player, INITIAL_GOLD};
use rollup_kernels::player_actions::{PlayerAction, PlayerMsg};
use rollup_kernels::state::{player_path, State};
use rollup_kernels::storage::{decode_items, decode_player, encode_items, encode_player};

#[test]
fn player_bytes_round_trip() {
    let player = Player::new(3, 258).add_item(Item::Potion).add_item(Item::Sword);
    let bytes = encode_player(&player);
    assert_eq!(&bytes[0..8], &[0, 0, 0, 0, 0, 0, 0, 3]);
    assert_eq!(&bytes[8..16], &[0, 0, 0, 0, 0, 0, 1, 2]);
    assert_eq!(&bytes[16..24], &(INITIAL_GOLD as u64).to_be_bytes());
    assert_eq!(&bytes[24..], &[1, 0]);
    let back = decode_player(&bytes).unwrap();
    assert_eq!((back.x_pos, back.y_pos, back.gold), (3, 258, INITIAL_GOLD));
    assert_eq!(back.inventory, vec![Item::Potion, Item::Sword]);
}

#[test]
fn bad_player_bytes() {
    assert!(decode_player(&vec![0; 23]).is_none());
    let mut bytes = vec![0; 24];
    bytes.push(9);
    assert!(decode_player(&bytes).is_none());
}

#[test]
fn items_bytes() {
    let mut out = vec![7];
    encode_items(&vec![Item::Sword, Item::Potion], &mut out);
    assert_eq!(out, vec![7, 0, 1]);
    assert_eq!(decode_items(&out, 1), Some(vec![Item::Sword, Item::Potion]));
    assert_eq!(decode_items(&out, 0), None);
    assert_eq!(decode_items(&out, 3), Some(vec![]));
}

#[test]
fn map_bytes_round_trip() {
    let map = DungeonMap::new().add_item(3, 3, Item::Potion);
    let bytes = map.to_bytes();
    assert_eq!(bytes.len(), NUM_TILES);
    assert_eq!(bytes[0], 0);
    assert_eq!(bytes[3 * MAP_WIDTH + 3], 3);
    assert_eq!(bytes[48], 2);
    assert_eq!(bytes[MAP_WIDTH + 2], 1);
    let back = DungeonMap::from_bytes(&bytes).unwrap();
    for y in 0..MAP_HEIGHT {
        for x in 0..MAP_WIDTH {
            assert_eq!(back.get_tile(x, y), map.get_tile(x, y));
        }
    }
    assert!(DungeonMap::from_bytes(&bytes[1..].to_vec()).is_none());
    let mut bad = bytes.clone();
    bad[10] = 4;
    assert!(DungeonMap::from_bytes(&bad).is_none());
}

#[test]
fn market_bytes_round_trip() {
    let mut market = MarketPlace::new();
    market.sell_item("alice", Item::Sword, 10);
    market.sell_item("bób", Item::Potion, 300);
    let bytes = market.to_bytes();
    assert_eq!(&bytes[0..8], &[0, 0, 0, 0, 0, 0, 0, 2]);
    assert_eq!(&bytes[8..16], &[0, 0, 0, 0, 0, 0, 0, 5]);
    assert_eq!(&bytes[16..21], b"alice");
    assert_eq!(bytes[21], 0);
    assert_eq!(&bytes[22..30], &[0, 0, 0, 0, 0, 0, 0, 10]);
    let back = MarketPlace::from_bytes(&bytes).unwrap();
    assert_eq!(back.get_price("alice", Item::Sword), Some(10));
    assert_eq!(back.get_price("bób", Item::Potion), Some(300));
    assert_eq!(back.get_price("alice", Item::Potion), None);
    assert!(MarketPlace::from_bytes(&bytes[..bytes.len() - 1].to_vec()).is_none());
    let mut longer = bytes.clone();
    longer.push(0);
    assert!(MarketPlace::from_bytes(&longer).is_none());
    assert!(MarketPlace::from_bytes(&vec![0; 7]).is_none());
    let empty = MarketPlace::from_bytes(&vec![0; 8]).unwrap();
    assert_eq!(empty.get_price("alice", Item::Sword), None);
}

#[test]
fn later_stored_sale_replaces_earlier() {
    let mut bytes = vec![0, 0, 0, 0, 0, 0, 0, 2];
    for price in [5u8, 6u8] {
        bytes.extend_from_slice(&[0, 0, 0, 0, 0, 0, 0, 1]);
        bytes.push(b'a');
        bytes.push(1);
        bytes.extend_from_slice(&[0, 0, 0, 0, 0, 0, 0, price]);
    }
    let market = MarketPlace::from_bytes(&bytes).unwrap();
    assert_eq!(market.get_price("a", Item::Potion), Some(6));
}

#[test]
fn state_storage_round_trip() {
    let state = State::new().pick_up();
    let state = state.transition(None, PlayerAction::MoveDown, "me").0;
    let mut state = state;
    state.market_place.sell_item("seller", Item::Sword, 42);
    let (map, player, market) = state.to_storage();
    let back = State::from_storage(Some(map), Some(player), Some(market)).unwrap();
    assert_eq!(back.player.x_pos, state.player.x_pos);
    assert_eq!(back.player.y_pos, state.player.y_pos);
    assert_eq!(back.player.gold, state.player.gold);
    assert_eq!(back.player.inventory, state.player.inventory);
    assert_eq!(back.market_place.get_price("seller", Item::Sword), Some(42));
    assert_eq!(back.map.get_tile(16, 1), Some(TileType::Floor(Some(Item::Sword))));
}

#[test]
fn missing_parts_start_a_new_game() {
    let state = State::from_storage(None, None, None).unwrap();
    assert_eq!((state.player.x_pos, state.player.y_pos), (MAP_WIDTH / 2, MAP_HEIGHT / 2));
    assert_eq!(state.player.gold, INITIAL_GOLD);
    assert_eq!(state.map.get_tile(0, 0), Some(TileType::Wall));
    assert!(State::from_storage(Some(vec![1, 2]), None, None).is_none());
    assert!(State::from_storage(None, Some(vec![1, 2]), None).is_none());
    assert!(State::from_storage(None, None, Some(vec![1, 2])).is_none());
}

#[test]
fn player_messages() {
    let mut bytes = vec![3];
    bytes.extend_from_slice(b"tz1");
    let with = |action: &[u8]| {
        let mut b = bytes.clone();
        b.extend_from_slice(action);
        b
    };
    let msg = PlayerMsg::from_bytes(&with(&[1])).unwrap();
    assert_eq!(msg.public_key, "tz1");
    assert!(matches!(msg.action, PlayerAction::MoveUp));
    assert!(matches!(PlayerMsg::from_bytes(&with(&[2])).unwrap().action, PlayerAction::MoveDown));
    assert!(matches!(PlayerMsg::from_bytes(&with(&[3])).unwrap().action, PlayerAction::MoveLeft));
    assert!(matches!(PlayerMsg::from_bytes(&with(&[4])).unwrap().action, PlayerAction::MoveRight));
    assert!(matches!(PlayerMsg::from_bytes(&with(&[5])).unwrap().action, PlayerAction::PickUp));
    let drop = with(&[6, 0, 0, 0, 0, 0, 0, 0, 2]);
    assert!(matches!(PlayerMsg::from_bytes(&drop).unwrap().action, PlayerAction::Drop(2)));
    let sell = with(&[7, 0, 0, 0, 0, 0, 0, 0, 1, 0, 0, 0, 0, 0, 0, 1, 0]);
    assert!(matches!(PlayerMsg::from_bytes(&sell).unwrap().action, PlayerAction::Sell(1, 256)));
    let buy = with(&[8, 1, b'b', b'o', b'b']);
    match PlayerMsg::from_bytes(&buy).unwrap().action {
        PlayerAction::Buy(seller, item) => {
            assert_eq!(seller, "bob");
            assert_eq!(item, Item::Potion);
        }
        _ => panic!("not a purchase"),
    }
    assert!(PlayerMsg::from_bytes(&with(&[])).is_none());
    assert!(PlayerMsg::from_bytes(&with(&[9])).is_none());
    assert!(PlayerMsg::from_bytes(&with(&[1, 1])).is_none());
    assert!(PlayerMsg::from_bytes(&with(&[6, 0, 0])).is_none());
    assert!(PlayerMsg::from_bytes(&with(&[8, 7, b'b'])).is_none());
    assert!(PlayerMsg::from_bytes(&with(&[8, 1, 0xff])).is_none());
    assert!(PlayerMsg::from_bytes(&[]).is_none());
    assert!(PlayerMsg::from_bytes(&[5, b'a']).is_none());
    assert!(PlayerMsg::from_bytes(&[1, 0xff, 1]).is_none());
}

#[test]
fn player_paths() {
    assert_eq!(player_path("tz1abc"), "/state/players/tz1abc");
}
