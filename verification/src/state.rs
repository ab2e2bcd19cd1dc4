use vstd::multiset::Multiset;
use vstd::prelude::*;

use crate::item::Item;
use crate::map::{
    initial_tile, lemma_map_len, tile_index, valid_tiles_bytes, DungeonMap, TileType, MAP_HEIGHT,
    MAP_WIDTH, NUM_TILES,
};
use crate::market_place::{ListingKey, MarketPlace};
use crate::player::{step_down, step_up, Player, INITIAL_GOLD, MAX_ITEMS};
use crate::player_actions::PlayerAction;
use crate::storage::{
    be_value, decode_player, encode_player, encodes_market, encodes_player, items_of_bytes,
    market_reads_back, parse_market, player_bytes_valid, player_reads_back, sales_items, sales_map,
    tile_of_code, tiles_bytes,
};

verus! {

broadcast use lemma_map_len;

/// The whole game: the dungeon, the player and the market place.
#[derive(Debug)]
pub struct State {
    pub map: DungeonMap,
    pub player: Player,
    pub market_place: MarketPlace,
}

impl Clone for State {
    fn clone(&self) -> (state: State)
        ensures
            same_state(state, *self),
    {
        State {
            map: self.map.clone(),
            player: self.player.clone(),
            market_place: self.market_place.clone(),
        }
    }
}

impl PartialEq for State {
    fn eq(&self, other: &State) -> (same: bool) {
        self.map == other.map && self.player == other.player && self.market_place
            == other.market_place
    }
}

impl vstd::std_specs::cmp::PartialEqSpecImpl for State {
    open spec fn obeys_eq_spec() -> bool {
        true
    }

    open spec fn eq_spec(&self, other: &State) -> bool {
        &&& self.map@ == other.map@
        &&& same_player(self.player, other.player)
        &&& self.market_place@ == other.market_place@
    }
}

/// `a` and `b` are the same player: same place, same gold, same inventory.
pub open spec fn same_player(a: Player, b: Player) -> bool {
    &&& a.x_pos == b.x_pos
    &&& a.y_pos == b.y_pos
    &&& a.gold == b.gold
    &&& a.inventory@ == b.inventory@
}

/// `a` and `b` hold the same market place.
pub open spec fn same_market(a: MarketPlace, b: MarketPlace) -> bool {
    &&& a@ == b@
    &&& a.listed_items() == b.listed_items()
}

/// `a` and `b` are the same game.
pub open spec fn same_state(a: State, b: State) -> bool {
    &&& a.map@ == b.map@
    &&& same_player(a.player, b.player)
    &&& same_market(a.market_place, b.market_place)
}

/// The index of the tile on which the player of `s` stands.
pub open spec fn player_tile(s: State) -> int {
    tile_index(s.player.x_pos as int, s.player.y_pos as int)
}

/// The tile on which the player of `s` stands, `None` outside the grid.
pub open spec fn tile_under_player(s: State) -> Option<TileType> {
    s.map.tile_at(s.player.x_pos as int, s.player.y_pos as int)
}

/// `new` is `old` after the player asked to pick up what lies on its tile.
pub open spec fn picked_up(old: State, new: State) -> bool {
    match tile_under_player(old) {
        Some(TileType::Floor(Some(item))) => {
            &&& new.map@ == old.map@.update(player_tile(old), TileType::Floor(None))
            &&& new.player.x_pos == old.player.x_pos
            &&& new.player.y_pos == old.player.y_pos
            &&& new.player.gold == old.player.gold
            &&& new.player.inventory@ == old.player.inventory@.push(item)
            &&& same_market(new.market_place, old.market_place)
        },
        _ => same_state(new, old),
    }
}

/// `new` is `old` after the player asked to drop the item at `item_position`
/// of its inventory: it lands on the player's tile when that tile is an empty floor.
pub open spec fn dropped(old: State, new: State, item_position: usize) -> bool {
    if tile_under_player(old) == Some(TileType::Floor(None)) && item_position
        < old.player.inventory@.len() {
        let item = old.player.inventory@[item_position as int];
        &&& new.map@ == old.map@.update(player_tile(old), TileType::Floor(Some(item)))
        &&& new.player.x_pos == old.player.x_pos
        &&& new.player.y_pos == old.player.y_pos
        &&& new.player.gold == old.player.gold
        &&& new.player.inventory@ == old.player.inventory@.remove(item_position as int)
        &&& same_market(new.market_place, old.market_place)
    } else {
        same_state(new, old)
    }
}

/// `new` is `old` after the player at `address` put the item at `item_id` of its
/// inventory on sale at `price`.
pub open spec fn sold(
    old: State,
    new: State,
    address: Seq<char>,
    item_id: usize,
    price: usize,
) -> bool {
    if item_id < old.player.inventory@.len() {
        let item = old.player.inventory@[item_id as int];
        let key: ListingKey = (address, item);
        &&& new.map@ == old.map@
        &&& new.player.x_pos == old.player.x_pos
        &&& new.player.y_pos == old.player.y_pos
        &&& new.player.gold == old.player.gold
        &&& new.player.inventory@ == old.player.inventory@.remove(item_id as int)
        &&& new.market_place@ == old.market_place@.insert(key, price)
        &&& new.market_place.listed_items() == if old.market_place@.dom().contains(key) {
            old.market_place.listed_items()
        } else {
            old.market_place.listed_items().insert(item)
        }
    } else {
        same_state(new, old)
    }
}

/// Whether the player of `s` may buy `item` from the seller at `address`: the
/// inventory is not over `MAX_ITEMS`, the item is on sale, and the player can pay.
pub open spec fn can_buy(s: State, address: Seq<char>, item: Item) -> bool {
    &&& s.player.inventory@.len() <= MAX_ITEMS as int
    &&& s.market_place@.dom().contains((address, item))
    &&& s.market_place@[(address, item)] <= s.player.gold
}

/// Whether the purchase of `item` from the seller at `address` by the player
/// at `buyer` goes through: the buyer may buy it, and a seller's player that is
/// handed in (other than the buyer itself) can receive the price.
pub open spec fn trade_allowed(
    s: State,
    seller: Option<Player>,
    address: Seq<char>,
    item: Item,
    buyer: Seq<char>,
) -> bool {
    &&& can_buy(s, address, item)
    &&& address == buyer || (seller matches Some(p) ==> p.gold + s.market_place@[(address, item)]
        <= usize::MAX)
}

/// `after` is `before` with `amount` more gold.
pub open spec fn credited(before: Player, after: Player, amount: int) -> bool {
    &&& after.x_pos == before.x_pos
    &&& after.y_pos == before.y_pos
    &&& after.gold == before.gold + amount
    &&& after.inventory@ == before.inventory@
}

/// `new` is `old` after the player at `buyer` asked to buy `item` from the
/// seller at `address`, whose player, if handed in, was `seller_before`: the item
/// moves from the market place to the buyer's inventory and the buyer pays the
/// price; the seller's player, when handed in, comes back as `seller_after` with
/// the price added. A buyer that buys from itself pays itself: its gold stays.
/// When the purchase does not go through, nothing changes and `seller_after` is
/// `None`.
pub open spec fn bought(
    old: State,
    new: State,
    seller_before: Option<Player>,
    seller_after: Option<Player>,
    address: Seq<char>,
    item: Item,
    buyer: Seq<char>,
) -> bool {
    if trade_allowed(old, seller_before, address, item, buyer) {
        let price = old.market_place@[(address, item)];
        &&& new.map@ == old.map@
        &&& new.player.x_pos == old.player.x_pos
        &&& new.player.y_pos == old.player.y_pos
        &&& new.player.inventory@ == old.player.inventory@.push(item)
        &&& new.market_place@ == old.market_place@.remove((address, item))
        &&& new.market_place.listed_items() == old.market_place.listed_items().remove(item)
        &&& if address == buyer {
            &&& new.player.gold == old.player.gold
            &&& seller_after is None
        } else {
            &&& new.player.gold == old.player.gold - price
            &&& seller_before is None ==> seller_after is None
            &&& seller_before matches Some(p_before) ==> (seller_after matches Some(p_after)
                && credited(p_before, p_after, price as int))
        }
    } else {
        &&& same_state(new, old)
        &&& seller_after is None
    }
}

/// `new` is `old` after the player tried to step onto `(x, y)`: it moves there
/// only if that tile is a floor inside the grid.
pub open spec fn moved(old: State, new: State, x: usize, y: usize) -> bool {
    if old.map.enterable(x as int, y as int) {
        &&& new.map@ == old.map@
        &&& old.player.moved_to(new.player, x, y)
        &&& same_market(new.market_place, old.market_place)
    } else {
        same_state(new, old)
    }
}

/// `new` is `old` after `action` by the player at `address`; on a purchase,
/// `seller_before` is the seller's player and `seller_after` what becomes of it,
/// and on any other action `seller_after` is `None`.
pub open spec fn transitioned(
    old: State,
    new: State,
    seller_before: Option<Player>,
    seller_after: Option<Player>,
    action: PlayerAction,
    address: Seq<char>,
) -> bool {
    match action {
        PlayerAction::Buy(seller, item) => bought(
            old,
            new,
            seller_before,
            seller_after,
            seller@,
            item,
            address,
        ),
        _ => {
            &&& seller_after is None
            &&& match action {
                PlayerAction::MoveUp => moved(
                    old,
                    new,
                    old.player.x_pos,
                    step_down(old.player.y_pos),
                ),
                PlayerAction::MoveDown => moved(
                    old,
                    new,
                    old.player.x_pos,
                    step_up(old.player.y_pos),
                ),
                PlayerAction::MoveLeft => moved(
                    old,
                    new,
                    step_down(old.player.x_pos),
                    old.player.y_pos,
                ),
                PlayerAction::MoveRight => moved(
                    old,
                    new,
                    step_up(old.player.x_pos),
                    old.player.y_pos,
                ),
                PlayerAction::PickUp => picked_up(old, new),
                PlayerAction::Drop(item_position) => dropped(old, new, item_position),
                PlayerAction::Sell(item_id, price) => sold(old, new, address, item_id, price),
                PlayerAction::Buy(_, _) => true,
            }
        },
    }
}

impl State {
    /// The game at its start: the dungeon as created, the player in its middle
    /// with `INITIAL_GOLD` and nothing in hand, nothing on sale.
    pub fn new() -> (state: State)
        ensures
            state.map@.len() == NUM_TILES as int,
            forall|i: int| 0 <= i < NUM_TILES as int ==> #[trigger] state.map@[i] == initial_tile(i),
            state.player.x_pos == MAP_WIDTH / 2,
            state.player.y_pos == MAP_HEIGHT / 2,
            state.player.gold == INITIAL_GOLD,
            state.player.inventory@ == Seq::<Item>::empty(),
            state.market_place@ == Map::<ListingKey, usize>::empty(),
            state.market_place.listed_items() == Multiset::<Item>::empty(),
            on_floor(state),
    {
        let state = State {
            map: DungeonMap::new(),
            player: Player::new(MAP_WIDTH / 2, MAP_HEIGHT / 2),
            market_place: MarketPlace::new(),
        };
        proof {
            assert(state.map@[tile_index(16, 16)] == initial_tile(528));
        }
        state
    }

    /// The player picks up the item lying on its tile, if any.
    pub fn pick_up(self) -> (state: State)
        ensures
            picked_up(self, state),
    {
        let x_pos = self.player.x_pos;
        let y_pos = self.player.y_pos;
        let tile = self.map.get_tile(x_pos, y_pos);
        match tile {
            Some(TileType::Floor(Some(item))) => {
                let player = self.player.add_item(item);
                let map = self.map.remove_item(x_pos, y_pos);
                State { player, map, ..self }
            },
            Some(TileType::Floor(None)) => self,
            _ => self,
        }
    }

    /// The player drops the item at `item_position` of its inventory on its
    /// tile, which must be an empty floor.
    pub fn drop_item(self, item_position: usize) -> (state: State)
        ensures
            dropped(self, state, item_position),
    {
        let x_pos = self.player.x_pos;
        let y_pos = self.player.y_pos;
        let tile = self.map.get_tile(x_pos, y_pos);
        match tile {
            Some(TileType::Floor(None)) => {
                let (player, item) = self.player.remove_item(item_position);
                match item {
                    Some(item) => {
                        let map = self.map.add_item(x_pos, y_pos, item);
                        State { player, map, ..self }
                    },
                    None => State { player, ..self },
                }
            },
            _ => self,
        }
    }

    /// The player at `current_player_address` puts the item at `item_id` of its
    /// inventory on sale at `price`.
    pub fn sell_item(self, current_player_address: &str, item_id: usize, price: usize) -> (state:
        State)
        ensures
            sold(self, state, current_player_address@, item_id, price),
    {
        if item_id < self.player.inventory.len() {
            let item = self.player.inventory[item_id];
            let mut market_place = self.market_place;
            let mut inventory = self.player.inventory;
            inventory.remove(item_id);
            let player = Player { inventory, ..self.player };
            market_place.sell_item(current_player_address, item, price);
            State { player, market_place, ..self }
        } else {
            self
        }
    }

    /// The player at `current_player_address` buys `item` from the seller at
    /// `player_address`, whose player, if at hand, is `seller`: the item moves
    /// from the market place to the buyer's inventory and the buyer pays the asked
    /// price, which the seller, when handed in, receives and is handed back with.
    /// A buyer who buys from itself pays itself.
    pub fn buy_item(
        self,
        seller: Option<Player>,
        player_address: &str,
        item: Item,
        current_player_address: &str,
    ) -> (res: (State, Option<Player>))
        ensures
            bought(self, res.0, seller, res.1, player_address@, item, current_player_address@),
    {
        let inventory_len = self.player.inventory.len();
        if inventory_len > MAX_ITEMS {
            return (self, None);
        }
        let price = self.market_place.get_price(player_address, item);
        match price {
            None => (self, None),
            Some(price) => {
                if self.player.gold < price {
                    return (self, None);
                }
                let own_sale = player_address.to_string() == current_player_address.to_string();
                if own_sale {
                    let mut market_place = self.market_place;
                    market_place.buy_item(player_address, item);
                    let player = self.player.add_item(item);
                    return (State { player, market_place, ..self }, None);
                }
                match seller {
                    None => {
                        let mut market_place = self.market_place;
                        market_place.buy_item(player_address, item);
                        let player = self.player.remove_gold(price).add_item(item);
                        (State { player, market_place, ..self }, None)
                    },
                    Some(seller) => {
                        if seller.gold > usize::MAX - price {
                            return (self, None);
                        }
                        let mut market_place = self.market_place;
                        market_place.buy_item(player_address, item);
                        let player = self.player.remove_gold(price).add_item(item);
                        let seller = seller.add_gold(price);
                        (State { player, market_place, ..self }, Some(seller))
                    },
                }
            },
        }
    }

    fn update_player(self, player: Player) -> (state: State)
        ensures
            self.map.enterable(player.x_pos as int, player.y_pos as int) ==> {
                &&& state.map@ == self.map@
                &&& same_player(state.player, player)
                &&& same_market(state.market_place, self.market_place)
            },
            !self.map.enterable(player.x_pos as int, player.y_pos as int) ==> same_state(
                state,
                self,
            ),
    {
        if self.map.can_enter_tile(player.x_pos, player.y_pos) {
            State { player, ..self }
        } else {
            self
        }
    }

    /// Applies `player_action` of the player at `current_player_address`. On a
    /// purchase, `seller` is the seller's player, handed back paid when the
    /// purchase goes through; any other action hands back `None`.
    pub fn transition(
        self,
        seller: Option<Player>,
        player_action: PlayerAction,
        current_player_address: &str,
    ) -> (res: (State, Option<Player>))
        ensures
            transitioned(self, res.0, seller, res.1, player_action, current_player_address@),
    {
        match player_action {
            PlayerAction::MoveRight => {
                let player = self.player.clone();
                (self.update_player(player.move_right()), None)
            },
            PlayerAction::MoveLeft => {
                let player = self.player.clone();
                (self.update_player(player.move_left()), None)
            },
            PlayerAction::MoveUp => {
                let player = self.player.clone();
                (self.update_player(player.move_up()), None)
            },
            PlayerAction::MoveDown => {
                let player = self.player.clone();
                (self.update_player(player.move_down()), None)
            },
            PlayerAction::PickUp => (self.pick_up(), None),
            PlayerAction::Drop(item_position) => (self.drop_item(item_position), None),
            PlayerAction::Sell(item_id, price) => {
                (self.sell_item(current_player_address, item_id, price), None)
            },
            PlayerAction::Buy(player_address, item) => {
                self.buy_item(seller, &player_address, item, current_player_address)
            },
        }
    }
}

} // verus!

verus! {

/// What a tile holds.
pub open spec fn tile_item(t: TileType) -> Option<Item> {
    match t {
        TileType::Floor(content) => content,
        TileType::Wall => None,
    }
}

/// What the tiles hold, tile by tile (`None` for walls and empty floors).
pub open spec fn floor_items(tiles: Seq<TileType>) -> Multiset<Option<Item>> {
    tiles.map_values(|t: TileType| tile_item(t)).to_multiset()
}

/// How many copies of `item` the game holds: on the floor, in the inventory and
/// on sale.
pub open spec fn item_count(s: State, item: Item) -> nat {
    floor_items(s.map@).count(Some(item)) + s.player.inventory@.to_multiset().count(item)
        + s.market_place.listed_items().count(item)
}

/// The player of `s` stands on a floor tile inside the grid.
pub open spec fn on_floor(s: State) -> bool {
    s.map.enterable(s.player.x_pos as int, s.player.y_pos as int)
}

/// `action` puts on sale an item of which the same seller already has a copy
/// on sale: the new sale replaces the old one.
pub open spec fn overwrites_listing(s: State, action: PlayerAction, address: Seq<char>) -> bool {
    match action {
        PlayerAction::Sell(item_id, _) => {
            &&& item_id < s.player.inventory@.len()
            &&& s.market_place@.dom().contains((address, s.player.inventory@[item_id as int]))
        },
        _ => false,
    }
}

proof fn lemma_floor_items_update(tiles: Seq<TileType>, i: int, t: TileType)
    requires
        0 <= i < tiles.len(),
    ensures
        floor_items(tiles.update(i, t)) == floor_items(tiles).insert(tile_item(t)).remove(
            tile_item(tiles[i]),
        ),
        floor_items(tiles).count(tile_item(tiles[i])) > 0,
{
    broadcast use {vstd::seq_lib::to_multiset_update, vstd::seq_lib::to_multiset_contains};

    let f = |x: TileType| tile_item(x);
    let m = tiles.map_values(f);
    assert(tiles.update(i, t).map_values(f) =~= m.update(i, f(t)));
    assert(m[i] == tile_item(tiles[i]));
    assert(m.contains(tile_item(tiles[i])));
}

proof fn lemma_counts_after_pick_up(old: State, new: State)
    requires
        picked_up(old, new),
    ensures
        forall|item: Item| #[trigger] item_count(new, item) == item_count(old, item),
{
    broadcast use {vstd::seq_lib::to_multiset_build, vstd::multiset::group_multiset_axioms};

    if let Some(TileType::Floor(Some(picked))) = tile_under_player(old) {
        lemma_floor_items_update(old.map@, player_tile(old), TileType::Floor(None));
        assert(tile_item(old.map@[player_tile(old)]) == Some(picked));
    }
}

proof fn lemma_counts_after_drop(old: State, new: State, item_position: usize)
    requires
        dropped(old, new, item_position),
    ensures
        forall|item: Item| #[trigger] item_count(new, item) == item_count(old, item),
{
    broadcast use {
        vstd::seq_lib::to_multiset_remove,
        vstd::seq_lib::to_multiset_contains,
        vstd::multiset::group_multiset_axioms,
    };

    if tile_under_player(old) == Some(TileType::Floor(None)) && item_position
        < old.player.inventory@.len() {
        let dropped_item = old.player.inventory@[item_position as int];
        lemma_floor_items_update(
            old.map@,
            player_tile(old),
            TileType::Floor(Some(dropped_item)),
        );
        assert(old.player.inventory@.contains(dropped_item));
    }
}

proof fn lemma_counts_after_sell(
    old: State,
    new: State,
    address: Seq<char>,
    item_id: usize,
    price: usize,
)
    requires
        sold(old, new, address, item_id, price),
        !overwrites_listing(old, PlayerAction::Sell(item_id, price), address),
    ensures
        forall|item: Item| #[trigger] item_count(new, item) == item_count(old, item),
{
    broadcast use {
        vstd::seq_lib::to_multiset_remove,
        vstd::seq_lib::to_multiset_contains,
        vstd::multiset::group_multiset_axioms,
    };

    if item_id < old.player.inventory@.len() {
        let sold_item = old.player.inventory@[item_id as int];
        assert(old.player.inventory@.contains(sold_item));
    }
}

proof fn lemma_counts_after_buy(
    old: State,
    new: State,
    seller_before: Option<Player>,
    seller_after: Option<Player>,
    address: Seq<char>,
    item: Item,
    buyer: Seq<char>,
)
    requires
        bought(old, new, seller_before, seller_after, address, item, buyer),
    ensures
        forall|i: Item| #[trigger] item_count(new, i) == item_count(old, i),
{
    broadcast use {vstd::seq_lib::to_multiset_build, vstd::multiset::group_multiset_axioms};

    if trade_allowed(old, seller_before, address, item, buyer) {
        old.market_place.lemma_on_sale_is_listed((address, item));
    }
}

/// Items are neither created nor destroyed: every action moves items between
/// the floor, the inventory and the market place, except a sale that replaces
/// the same seller's earlier sale of the same item.
pub proof fn transition_conserves_items(
    old: State,
    new: State,
    seller_before: Option<Player>,
    seller_after: Option<Player>,
    action: PlayerAction,
    address: Seq<char>,
)
    requires
        transitioned(old, new, seller_before, seller_after, action, address),
        !overwrites_listing(old, action, address),
    ensures
        forall|item: Item| #[trigger] item_count(new, item) == item_count(old, item),
{
    match action {
        PlayerAction::PickUp => lemma_counts_after_pick_up(old, new),
        PlayerAction::Drop(item_position) => lemma_counts_after_drop(old, new, item_position),
        PlayerAction::Sell(item_id, price) => lemma_counts_after_sell(
            old,
            new,
            address,
            item_id,
            price,
        ),
        PlayerAction::Buy(seller, item) => lemma_counts_after_buy(
            old,
            new,
            seller_before,
            seller_after,
            seller@,
            item,
            address,
        ),
        _ => {},
    }
}

/// A player who stands on a floor tile still does after any action: moves onto
/// walls or out of the grid are refused, and picking up or dropping keeps the
/// tile a floor.
pub proof fn transition_keeps_player_on_floor(
    old: State,
    new: State,
    seller_before: Option<Player>,
    seller_after: Option<Player>,
    action: PlayerAction,
    address: Seq<char>,
)
    requires
        transitioned(old, new, seller_before, seller_after, action, address),
        on_floor(old),
    ensures
        on_floor(new),
{
}

/// Gold is neither created nor destroyed while the seller's player is at hand:
/// a purchase moves the price from the buyer to the seller it hands back, and
/// every other action, a purchase from oneself or one that does not go through
/// leaves the player's gold as it was. A purchase without the seller's player
/// only takes the price from the buyer.
pub proof fn transition_conserves_gold(
    old: State,
    new: State,
    seller_before: Option<Player>,
    seller_after: Option<Player>,
    action: PlayerAction,
    address: Seq<char>,
)
    requires
        transitioned(old, new, seller_before, seller_after, action, address),
    ensures
        new.player.gold <= old.player.gold,
        seller_after matches Some(p_after) ==> (seller_before matches Some(p_before)
            && new.player.gold + p_after.gold == old.player.gold + p_before.gold),
        seller_after is None && (seller_before is Some || !(action is Buy))
            ==> new.player.gold == old.player.gold,
{
}

/// Dropping, at the end of the inventory, the item just picked up puts the game
/// back as it was.
pub proof fn drop_undoes_pick_up(s0: State, s1: State, s2: State, last: usize)
    requires
        tile_under_player(s0) matches Some(TileType::Floor(Some(_))),
        picked_up(s0, s1),
        last == s0.player.inventory@.len(),
        dropped(s1, s2, last),
    ensures
        same_state(s2, s0),
{
    assert(s2.player.inventory@ =~= s0.player.inventory@);
    assert(s2.map@ =~= s0.map@);
}

/// A move goes one tile in its direction when that tile is a floor inside the
/// grid, and is refused otherwise, leaving the player where it stands: left
/// lowers the column, right raises it, up lowers the row and down raises it. A
/// move left or right never changes the row, a move up or down never changes
/// the column, and no move changes the dungeon, the gold, the inventory or the
/// market place.
pub proof fn moves_step_one_tile(
    old: State,
    new: State,
    seller_before: Option<Player>,
    seller_after: Option<Player>,
    action: PlayerAction,
    address: Seq<char>,
)
    requires
        transitioned(old, new, seller_before, seller_after, action, address),
        action is MoveLeft || action is MoveRight || action is MoveUp || action is MoveDown,
    ensures
        seller_after is None,
        new.map@ == old.map@,
        new.player.gold == old.player.gold,
        new.player.inventory@ == old.player.inventory@,
        new.market_place@ == old.market_place@,
        action is MoveLeft || action is MoveRight ==> new.player.y_pos == old.player.y_pos,
        action is MoveUp || action is MoveDown ==> new.player.x_pos == old.player.x_pos,
        action is MoveLeft ==> new.player.x_pos == if old.player.x_pos > 0 && old.map.enterable(
            old.player.x_pos - 1,
            old.player.y_pos as int,
        ) {
            old.player.x_pos - 1
        } else {
            old.player.x_pos as int
        },
        action is MoveRight ==> new.player.x_pos == if old.player.x_pos < usize::MAX
            && old.map.enterable(old.player.x_pos + 1, old.player.y_pos as int) {
            old.player.x_pos + 1
        } else {
            old.player.x_pos as int
        },
        action is MoveUp ==> new.player.y_pos == if old.player.y_pos > 0 && old.map.enterable(
            old.player.x_pos as int,
            old.player.y_pos - 1,
        ) {
            old.player.y_pos - 1
        } else {
            old.player.y_pos as int
        },
        action is MoveDown ==> new.player.y_pos == if old.player.y_pos < usize::MAX
            && old.map.enterable(old.player.x_pos as int, old.player.y_pos + 1) {
            old.player.y_pos + 1
        } else {
            old.player.y_pos as int
        },
{
}

/// Picking up, where the player's tile holds an item, appends that item to the
/// inventory, whatever the inventory already holds, and leaves the tile an
/// empty floor; the player stays where it is with its gold. Where the tile
/// holds no item, nothing changes.
pub proof fn pick_up_takes_the_item(
    old: State,
    new: State,
    seller_before: Option<Player>,
    seller_after: Option<Player>,
    address: Seq<char>,
    item: Item,
)
    requires
        transitioned(old, new, seller_before, seller_after, PlayerAction::PickUp, address),
    ensures
        old.map.tile_at(old.player.x_pos as int, old.player.y_pos as int) == Some(
            TileType::Floor(Some(item)),
        ) ==> {
            &&& new.player.inventory@ == old.player.inventory@.push(item)
            &&& new.map.tile_at(old.player.x_pos as int, old.player.y_pos as int) == Some(
                TileType::Floor(None),
            )
            &&& new.player.x_pos == old.player.x_pos
            &&& new.player.y_pos == old.player.y_pos
            &&& new.player.gold == old.player.gold
            &&& new.market_place@ == old.market_place@
        },
        !(old.map.tile_at(old.player.x_pos as int, old.player.y_pos as int) matches Some(
            TileType::Floor(Some(_)),
        )) ==> same_state(new, old),
{
}

/// Dropping the item at a position of the inventory, where the player stands on
/// an empty floor, puts that item on the tile and takes that position out of
/// the inventory, whichever position it is; the player stays where it is with
/// its gold. Anywhere else, or at a position past the inventory, nothing changes.
pub proof fn drop_puts_the_item_down(
    old: State,
    new: State,
    seller_before: Option<Player>,
    seller_after: Option<Player>,
    address: Seq<char>,
    item_position: usize,
)
    requires
        transitioned(
            old,
            new,
            seller_before,
            seller_after,
            PlayerAction::Drop(item_position),
            address,
        ),
    ensures
        old.map.tile_at(old.player.x_pos as int, old.player.y_pos as int) == Some(
            TileType::Floor(None),
        ) && item_position < old.player.inventory@.len() ==> {
            &&& new.map.tile_at(old.player.x_pos as int, old.player.y_pos as int) == Some(
                TileType::Floor(Some(old.player.inventory@[item_position as int])),
            )
            &&& new.player.inventory@ == old.player.inventory@.remove(item_position as int)
            &&& new.player.x_pos == old.player.x_pos
            &&& new.player.y_pos == old.player.y_pos
            &&& new.player.gold == old.player.gold
            &&& new.market_place@ == old.market_place@
        },
        old.map.tile_at(old.player.x_pos as int, old.player.y_pos as int) != Some(
            TileType::Floor(None),
        ) || item_position >= old.player.inventory@.len() ==> same_state(new, old),
{
}

/// Putting the item at a position of the inventory on sale at a price makes the
/// market place ask exactly that price for it from the seller, whatever it
/// asked before, leaves every other price as it was, and takes that position
/// out of the inventory. Past the inventory, nothing changes.
pub proof fn sell_asks_the_given_price(
    old: State,
    new: State,
    seller_before: Option<Player>,
    seller_after: Option<Player>,
    address: Seq<char>,
    item_id: usize,
    price: usize,
)
    requires
        transitioned(
            old,
            new,
            seller_before,
            seller_after,
            PlayerAction::Sell(item_id, price),
            address,
        ),
    ensures
        item_id < old.player.inventory@.len() ==> {
            let key = (address, old.player.inventory@[item_id as int]);
            &&& new.market_place@.dom().contains(key)
            &&& new.market_place@[key] == price
            &&& forall|k: ListingKey|
                k != key ==> (#[trigger] new.market_place@.dom().contains(k)
                    == old.market_place@.dom().contains(k) && new.market_place@[k]
                    == old.market_place@[k])
            &&& new.player.inventory@ == old.player.inventory@.remove(item_id as int)
            &&& new.player.gold == old.player.gold
        },
        item_id >= old.player.inventory@.len() ==> same_state(new, old),
{
}

/// A purchase from another seller goes through exactly when the buyer has room,
/// the item is on sale from that seller and the buyer can pay; it then costs the
/// buyer exactly the asked price, hands the item over, ends the sale, and hands
/// back the seller's player, when it was handed in, with that price added. A
/// purchase that does not go through changes nothing.
pub proof fn buy_pays_the_seller(
    old: State,
    new: State,
    seller_before: Option<Player>,
    seller_after: Option<Player>,
    seller: String,
    item: Item,
    address: Seq<char>,
)
    requires
        transitioned(
            old,
            new,
            seller_before,
            seller_after,
            PlayerAction::Buy(seller, item),
            address,
        ),
        seller@ != address,
        seller_before matches Some(p) ==> old.market_place@.dom().contains((seller@, item))
            ==> p.gold + old.market_place@[(seller@, item)] <= usize::MAX,
    ensures
        ({
            let key = (seller@, item);
            if old.player.inventory@.len() <= MAX_ITEMS as int
                && old.market_place@.dom().contains(key) && old.market_place@[key]
                <= old.player.gold {
                &&& new.player.gold == old.player.gold - old.market_place@[key]
                &&& new.player.inventory@ == old.player.inventory@.push(item)
                &&& !new.market_place@.dom().contains(key)
                &&& seller_before is None ==> seller_after is None
                &&& seller_before matches Some(p_before) ==> (seller_after matches Some(p_after)
                    && p_after.gold == p_before.gold + old.market_place@[key] && p_after.x_pos
                    == p_before.x_pos && p_after.y_pos == p_before.y_pos
                    && p_after.inventory@ == p_before.inventory@)
            } else {
                &&& same_state(new, old)
                &&& seller_after is None
            }
        }),
{
}

} // verus!

verus! {

/// Where the dungeon is kept in durable storage.
pub const MAP_PATH: &'static str = "/state/map";

/// Where the market place is kept in durable storage.
pub const MARKET_PLACE_PATH: &'static str = "/state/market_place";

/// Where the player at `address` is kept in durable storage.
pub fn player_path(address: &str) -> (path: String)
    ensures
        path@ == "/state/players/"@ + address@,
{
    let mut path = "/state/players/".to_string();
    path.append(address);
    path
}

impl State {
    /// The game read back from storage: a part that was never stored starts as
    /// in a new game, a part whose bytes store nothing makes the read fail.
    pub fn from_storage(
        map_bytes: Option<Vec<u8>>,
        player_bytes: Option<Vec<u8>>,
        market_bytes: Option<Vec<u8>>,
    ) -> (state: Option<State>)
        ensures
            state is Some <==> {
                &&& map_bytes matches Some(b) ==> b@.len() == NUM_TILES as int && valid_tiles_bytes(
                    b@,
                )
                &&& player_bytes matches Some(b) ==> player_bytes_valid(b@)
                &&& market_bytes matches Some(b) ==> parse_market(b@) is Some
            },
            state matches Some(s) ==> {
                &&& map_bytes is None ==> forall|i: int|
                    0 <= i < NUM_TILES as int ==> #[trigger] s.map@[i] == initial_tile(i)
                &&& map_bytes matches Some(b) ==> forall|i: int|
                    0 <= i < NUM_TILES as int ==> Some(#[trigger] s.map@[i]) == tile_of_code(b@[i])
                &&& player_bytes is None ==> {
                    &&& s.player.x_pos == MAP_WIDTH / 2
                    &&& s.player.y_pos == MAP_HEIGHT / 2
                    &&& s.player.gold == INITIAL_GOLD
                    &&& s.player.inventory@ == Seq::<Item>::empty()
                }
                &&& player_bytes matches Some(b) ==> {
                    &&& s.player.x_pos == be_value(b@.subrange(0, 8))
                    &&& s.player.y_pos == be_value(b@.subrange(8, 16))
                    &&& s.player.gold == be_value(b@.subrange(16, 24))
                    &&& s.player.inventory@ == items_of_bytes(b@.subrange(24, b@.len() as int))
                }
                &&& market_bytes is None ==> {
                    &&& s.market_place@ == Map::<ListingKey, usize>::empty()
                    &&& s.market_place.listed_items() == Multiset::<Item>::empty()
                }
                &&& market_bytes matches Some(b) ==> {
                    &&& s.market_place@ == sales_map(parse_market(b@).unwrap())
                    &&& s.market_place.listed_items() == sales_items(parse_market(b@).unwrap())
                }
            },
    {
        let map = match map_bytes {
            None => DungeonMap::new(),
            Some(bytes) => match DungeonMap::from_bytes(&bytes) {
                Some(map) => map,
                None => {
                    return None;
                },
            },
        };
        let player = match player_bytes {
            None => Player::new(MAP_WIDTH / 2, MAP_HEIGHT / 2),
            Some(bytes) => match decode_player(&bytes) {
                Some(player) => player,
                None => {
                    return None;
                },
            },
        };
        let market_place = match market_bytes {
            None => MarketPlace::new(),
            Some(bytes) => match MarketPlace::from_bytes(&bytes) {
                Some(market_place) => market_place,
                None => {
                    return None;
                },
            },
        };
        Some(State { map, player, market_place })
    }

    /// The bytes that store the dungeon, the player and the market place.
    pub fn to_storage(&self) -> (bytes: (Vec<u8>, Vec<u8>, Vec<u8>))
        ensures
            bytes.0@ == tiles_bytes(self.map@),
            encodes_player(bytes.1@, self.player),
            encodes_market(bytes.2@, self.market_place.sales()),
            sales_map(self.market_place.sales()) == self.market_place@,
            sales_items(self.market_place.sales()) == self.market_place.listed_items(),
    {
        (self.map.to_bytes(), encode_player(&self.player), self.market_place.to_bytes())
    }
}

/// A game reads back from the bytes that store it: every tile, the player and
/// every price come back as they were.
pub proof fn state_reads_back(
    s: State,
    map_bytes: Seq<u8>,
    player_bytes: Seq<u8>,
    market_bytes: Seq<u8>,
)
    requires
        map_bytes == tiles_bytes(s.map@),
        encodes_player(player_bytes, s.player),
        encodes_market(market_bytes, s.market_place.sales()),
        sales_map(s.market_place.sales()) == s.market_place@,
        sales_items(s.market_place.sales()) == s.market_place.listed_items(),
    ensures
        map_bytes.len() == NUM_TILES as int,
        valid_tiles_bytes(map_bytes),
        forall|i: int| 0 <= i < NUM_TILES as int ==> tile_of_code(#[trigger] map_bytes[i]) == Some(
            s.map@[i],
        ),
        player_bytes_valid(player_bytes),
        be_value(player_bytes.subrange(0, 8)) == s.player.x_pos,
        be_value(player_bytes.subrange(8, 16)) == s.player.y_pos,
        be_value(player_bytes.subrange(16, 24)) == s.player.gold,
        items_of_bytes(player_bytes.subrange(24, player_bytes.len() as int)) == s.player.inventory@,
        parse_market(market_bytes) is Some,
        sales_map(parse_market(market_bytes).unwrap()) == s.market_place@,
        sales_items(parse_market(market_bytes).unwrap()) == s.market_place.listed_items(),
{
    crate::map::map_reads_back(s.map@);
    player_reads_back(player_bytes, s.player);
    market_reads_back(market_bytes, s.market_place.sales());
}

} // verus!
