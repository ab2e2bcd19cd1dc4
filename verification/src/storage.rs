use vstd::multiset::Multiset;
use vstd::prelude::*;
use vstd::utf8::{decode_utf8, encode_utf8, valid_utf8};

use crate::item::Item;
use crate::map::TileType;
use crate::player::Player;

verus! {

/// The number that `bytes` write in base 256, most significant byte first.
pub open spec fn be_value(bytes: Seq<u8>) -> nat
    decreases bytes.len(),
{
    if bytes.len() == 0 {
        0
    } else {
        be_value(bytes.drop_last()) * 256 + bytes.last() as nat
    }
}

/// `256` to the power `n`.
pub open spec fn pow256(n: nat) -> nat
    decreases n,
{
    if n == 0 {
        1
    } else {
        256 * pow256((n - 1) as nat)
    }
}

proof fn lemma_pow256_8()
    ensures
        pow256(8) == 0x1_0000_0000_0000_0000,
{
    reveal_with_fuel(pow256, 9);
}

proof fn lemma_pow256_grows(i: nat, j: nat)
    requires
        i <= j,
    ensures
        pow256(i) <= pow256(j),
    decreases j,
{
    if i < j {
        lemma_pow256_grows(i, (j - 1) as nat);
    }
}

proof fn lemma_be_value_bound(bytes: Seq<u8>)
    ensures
        be_value(bytes) < pow256(bytes.len()),
    decreases bytes.len(),
{
    if bytes.len() > 0 {
        let init = bytes.drop_last();
        lemma_be_value_bound(init);
        let a = be_value(init);
        let p = pow256(init.len());
        let b = bytes.last() as nat;
        assert(a * 256 + b < 256 * p) by (nonlinear_arith)
            requires
                a < p,
                b < 256,
        ;
    }
}

proof fn lemma_be_value_push(bytes: Seq<u8>, b: u8)
    ensures
        be_value(bytes.push(b)) == be_value(bytes) * 256 + b,
{
    assert(bytes.push(b).drop_last() =~= bytes);
}

/// The last `n` bytes of `v`, most significant first.
fn be_bytes(v: u64, n: usize) -> (bytes: Vec<u8>)
    requires
        v < pow256(n as nat),
    ensures
        bytes@.len() == n,
        be_value(bytes@) == v,
    decreases n,
{
    if n == 0 {
        Vec::new()
    } else {
        proof {
            let p = pow256((n - 1) as nat);
            assert(v / 256 < p) by (nonlinear_arith)
                requires
                    v < 256 * p,
            ;
        }
        let mut bytes = be_bytes(v / 256, n - 1);
        proof {
            lemma_be_value_push(bytes@, (v % 256) as u8);
        }
        bytes.push((v % 256) as u8);
        bytes
    }
}

/// The eight bytes of `v`, most significant first.
pub(crate) fn u64_to_be_bytes(v: u64) -> (bytes: Vec<u8>)
    ensures
        bytes@.len() == 8,
        be_value(bytes@) == v,
{
    proof {
        lemma_pow256_8();
    }
    be_bytes(v, 8)
}

/// The number that the eight bytes of `bytes` from `start` on write, most
/// significant first.
pub(crate) fn u64_from_be_bytes(bytes: &[u8], start: usize) -> (v: u64)
    requires
        start + 8 <= bytes@.len(),
    ensures
        v == be_value(bytes@.subrange(start as int, start + 8)),
{
    let len = bytes.len();
    let mut v: u64 = 0;
    let mut i: usize = 0;
    while i < 8
        invariant
            i <= 8,
            len == bytes@.len(),
            start + 8 <= bytes@.len(),
            v == be_value(bytes@.subrange(start as int, start + i)),
        decreases 8 - i,
    {
        let b = bytes[start + i];
        proof {
            let before = bytes@.subrange(start as int, start + i);
            lemma_be_value_bound(before);
            lemma_pow256_grows((i + 1) as nat, 8);
            lemma_pow256_8();
            let p = pow256(i as nat);
            assert(v * 256 + b < 256 * p) by (nonlinear_arith)
                requires
                    v < p,
                    b < 256,
            ;
            assert(bytes@.subrange(start as int, start + i + 1) =~= before.push(b));
            lemma_be_value_push(before, b);
        }
        v = v * 256 + b as u64;
        i = i + 1;
    }
    v
}

/// The byte that stores `item`.
pub open spec fn item_code(item: Item) -> u8 {
    match item {
        Item::Sword => 0,
        Item::Potion => 1,
    }
}

/// The item that the byte `b` stores, if any.
pub open spec fn item_of_code(b: u8) -> Option<Item> {
    if b == 0 {
        Some(Item::Sword)
    } else if b == 1 {
        Some(Item::Potion)
    } else {
        None
    }
}

/// The byte that stores `tile`.
pub open spec fn tile_code(tile: TileType) -> u8 {
    match tile {
        TileType::Wall => 0,
        TileType::Floor(None) => 1,
        TileType::Floor(Some(item)) => (2 + item_code(item)) as u8,
    }
}

/// The tile that the byte `b` stores, if any.
pub open spec fn tile_of_code(b: u8) -> Option<TileType> {
    if b == 0 {
        Some(TileType::Wall)
    } else if b == 1 {
        Some(TileType::Floor(None))
    } else if b == 2 {
        Some(TileType::Floor(Some(Item::Sword)))
    } else if b == 3 {
        Some(TileType::Floor(Some(Item::Potion)))
    } else {
        None
    }
}

/// The bytes that store `items`, one per item.
pub open spec fn items_bytes(items: Seq<Item>) -> Seq<u8> {
    items.map_values(|item: Item| item_code(item))
}

/// Every byte of `bytes` stores an item.
pub open spec fn valid_items_bytes(bytes: Seq<u8>) -> bool {
    forall|i: int| 0 <= i < bytes.len() ==> #[trigger] item_of_code(bytes[i]) is Some
}

/// The items that `bytes` store (meaningful when `valid_items_bytes(bytes)`).
pub open spec fn items_of_bytes(bytes: Seq<u8>) -> Seq<Item> {
    bytes.map_values(|b: u8| item_of_code(b).unwrap())
}

/// The bytes that store the tiles of a map, one per tile.
pub open spec fn tiles_bytes(tiles: Seq<TileType>) -> Seq<u8> {
    tiles.map_values(|t: TileType| tile_code(t))
}

/// `bytes` store a player: its column, row and gold as eight bytes each (most
/// significant first), each of which fits a `usize`, then its items.
pub open spec fn player_bytes_valid(bytes: Seq<u8>) -> bool {
    &&& bytes.len() >= 24
    &&& be_value(bytes.subrange(0, 8)) <= usize::MAX
    &&& be_value(bytes.subrange(8, 16)) <= usize::MAX
    &&& be_value(bytes.subrange(16, 24)) <= usize::MAX
    &&& valid_items_bytes(bytes.subrange(24, bytes.len() as int))
}

pub(crate) fn item_to_code(item: Item) -> (b: u8)
    ensures
        b == item_code(item),
{
    match item {
        Item::Sword => 0,
        Item::Potion => 1,
    }
}

pub(crate) fn code_to_item(b: u8) -> (item: Option<Item>)
    ensures
        item == item_of_code(b),
{
    if b == 0 {
        Some(Item::Sword)
    } else if b == 1 {
        Some(Item::Potion)
    } else {
        None
    }
}

/// Appends the bytes of `items` to `out`.
pub fn encode_items(items: &Vec<Item>, out: &mut Vec<u8>)
    ensures
        final(out)@ == old(out)@ + items_bytes(items@),
{
    let ghost start = out@;
    let mut i: usize = 0;
    while i < items.len()
        invariant
            i <= items@.len(),
            out@ == start + items_bytes(items@.subrange(0, i as int)),
        decreases items@.len() - i,
    {
        out.push(item_to_code(items[i]));
        i = i + 1;
        proof {
            assert(items_bytes(items@.subrange(0, i as int)) =~= items_bytes(
                items@.subrange(0, i - 1),
            ).push(item_code(items@[i - 1])));
        }
    }
    proof {
        assert(items@.subrange(0, i as int) =~= items@);
    }
}

/// The items stored in `bytes` from `start` on; `None` if a byte stores no item.
pub fn decode_items(bytes: &Vec<u8>, start: usize) -> (items: Option<Vec<Item>>)
    requires
        start <= bytes@.len(),
    ensures
        items is Some <==> valid_items_bytes(bytes@.subrange(start as int, bytes@.len() as int)),
        items matches Some(v) ==> v@ == items_of_bytes(
            bytes@.subrange(start as int, bytes@.len() as int),
        ),
{
    let ghost tail = bytes@.subrange(start as int, bytes@.len() as int);
    let mut items: Vec<Item> = Vec::new();
    let mut i: usize = start;
    while i < bytes.len()
        invariant
            start <= i <= bytes@.len(),
            tail == bytes@.subrange(start as int, bytes@.len() as int),
            items@ == items_of_bytes(tail.subrange(0, i - start)),
            valid_items_bytes(tail.subrange(0, i - start)),
        decreases bytes@.len() - i,
    {
        match code_to_item(bytes[i]) {
            Some(item) => {
                items.push(item);
            },
            None => {
                proof {
                    assert(tail[i - start] == bytes@[i as int]);
                }
                return None;
            },
        }
        i = i + 1;
        proof {
            assert(tail.subrange(0, i - start) =~= tail.subrange(0, i - 1 - start).push(
                bytes@[i - 1],
            ));
            assert(items@ =~= items_of_bytes(tail.subrange(0, i - start)));
        }
    }
    proof {
        assert(tail.subrange(0, i - start) =~= tail);
    }
    Some(items)
}


/// `bytes` store `player`: its column, row and gold as eight bytes each, most
/// significant first, then one byte per item of its inventory.
pub open spec fn encodes_player(bytes: Seq<u8>, player: Player) -> bool {
    &&& bytes.len() == 24 + player.inventory@.len()
    &&& be_value(bytes.subrange(0, 8)) == player.x_pos
    &&& be_value(bytes.subrange(8, 16)) == player.y_pos
    &&& be_value(bytes.subrange(16, 24)) == player.gold
    &&& bytes.subrange(24, bytes.len() as int) == items_bytes(player.inventory@)
}

/// The bytes that store `player`.
pub fn encode_player(player: &Player) -> (bytes: Vec<u8>)
    ensures
        encodes_player(bytes@, *player),
{
    let mut bytes = u64_to_be_bytes(player.x_pos as u64);
    let mut y = u64_to_be_bytes(player.y_pos as u64);
    let mut gold = u64_to_be_bytes(player.gold as u64);
    let ghost bx = bytes@;
    let ghost by = y@;
    let ghost bg = gold@;
    bytes.append(&mut y);
    bytes.append(&mut gold);
    encode_items(&player.inventory, &mut bytes);
    proof {
        assert(bytes@.subrange(0, 8) =~= bx);
        assert(bytes@.subrange(8, 16) =~= by);
        assert(bytes@.subrange(16, 24) =~= bg);
        assert(bytes@.subrange(24, bytes@.len() as int) =~= items_bytes(player.inventory@));
    }
    bytes
}

/// The player stored in `bytes`; `None` when they store none.
pub fn decode_player(bytes: &Vec<u8>) -> (player: Option<Player>)
    ensures
        player is Some <==> player_bytes_valid(bytes@),
        player matches Some(p) ==> {
            &&& p.x_pos == be_value(bytes@.subrange(0, 8))
            &&& p.y_pos == be_value(bytes@.subrange(8, 16))
            &&& p.gold == be_value(bytes@.subrange(16, 24))
            &&& p.inventory@ == items_of_bytes(bytes@.subrange(24, bytes@.len() as int))
        },
{
    if bytes.len() < 24 {
        return None;
    }
    let x = u64_from_be_bytes(bytes.as_slice(), 0);
    let y = u64_from_be_bytes(bytes.as_slice(), 8);
    let gold = u64_from_be_bytes(bytes.as_slice(), 16);
    if x as u128 > usize::MAX as u128 || y as u128 > usize::MAX as u128 || gold as u128
        > usize::MAX as u128 {
        return None;
    }
    match decode_items(bytes, 24) {
        Some(inventory) => Some(
            Player { x_pos: x as usize, y_pos: y as usize, gold: gold as usize, inventory },
        ),
        None => None,
    }
}

/// A player reads back from the bytes that store it.
pub proof fn player_reads_back(bytes: Seq<u8>, player: Player)
    requires
        encodes_player(bytes, player),
    ensures
        player_bytes_valid(bytes),
        items_of_bytes(bytes.subrange(24, bytes.len() as int)) == player.inventory@,
{
    let tail = bytes.subrange(24, bytes.len() as int);
    assert forall|i: int| 0 <= i < tail.len() implies #[trigger] item_of_code(tail[i]) is Some by {
        assert(tail[i] == item_code(player.inventory@[i]));
    }
    assert forall|i: int| 0 <= i < tail.len() implies #[trigger] items_of_bytes(tail)[i]
        == player.inventory@[i] by {
        assert(tail[i] == item_code(player.inventory@[i]));
    }
    assert(items_of_bytes(tail) =~= player.inventory@);
}


/// `String::from_utf8` of std: the text that `bytes` encode in UTF-8, or
/// `None` when they are not valid UTF-8.
#[verifier::external_body]
fn string_from_utf8(bytes: Vec<u8>) -> (text: Option<String>)
    ensures
        text is Some <==> valid_utf8(bytes@),
        text matches Some(t) ==> t@ == decode_utf8(bytes@),
{
    String::from_utf8(bytes).ok()
}

/// The text that `bytes[start..end]` encode in UTF-8, or `None` when they are
/// not valid UTF-8.
pub(crate) fn utf8_to_string(bytes: &[u8], start: usize, end: usize) -> (text: Option<String>)
    requires
        start <= end <= bytes@.len(),
    ensures
        text is Some <==> valid_utf8(bytes@.subrange(start as int, end as int)),
        text matches Some(t) ==> t@ == decode_utf8(bytes@.subrange(start as int, end as int)),
{
    let mut part: Vec<u8> = Vec::new();
    let mut i: usize = start;
    while i < end
        invariant
            start <= i <= end,
            end <= bytes@.len(),
            part@ == bytes@.subrange(start as int, i as int),
        decreases end - i,
    {
        part.push(bytes[i]);
        i = i + 1;
        proof {
            assert(part@ =~= bytes@.subrange(start as int, i as int));
        }
    }
    string_from_utf8(part)
}

/// A sale as stored: the seller's address, the item and its price.
pub type SaleRecord = (Seq<char>, Item, usize);

/// Number of bytes that store `sale`.
pub open spec fn sale_size(sale: SaleRecord) -> int {
    17 + encode_utf8(sale.0).len() as int
}

/// `bytes` store exactly `sale`: the byte length of the address (eight bytes,
/// most significant first), the address in UTF-8, the item's byte and the
/// price (eight bytes, most significant first).
pub open spec fn encodes_sale(bytes: Seq<u8>, sale: SaleRecord) -> bool {
    let n = encode_utf8(sale.0).len() as int;
    &&& bytes.len() == 17 + n
    &&& be_value(bytes.subrange(0, 8)) == n
    &&& bytes.subrange(8, 8 + n) == encode_utf8(sale.0)
    &&& bytes[8 + n] == item_code(sale.1)
    &&& be_value(bytes.subrange(9 + n, 17 + n)) == sale.2
}

/// `bytes` store exactly `sales`, one after the other.
pub open spec fn encodes_sales(bytes: Seq<u8>, sales: Seq<SaleRecord>) -> bool
    decreases sales.len(),
{
    if sales.len() == 0 {
        bytes.len() == 0
    } else {
        let n = sale_size(sales[0]);
        &&& n <= bytes.len()
        &&& encodes_sale(bytes.subrange(0, n), sales[0])
        &&& encodes_sales(bytes.subrange(n, bytes.len() as int), sales.drop_first())
    }
}

/// `bytes` store a market place that holds `sales`: their number (eight bytes,
/// most significant first), then the sales.
pub open spec fn encodes_market(bytes: Seq<u8>, sales: Seq<SaleRecord>) -> bool {
    &&& bytes.len() >= 8
    &&& be_value(bytes.subrange(0, 8)) == sales.len()
    &&& encodes_sales(bytes.subrange(8, bytes.len() as int), sales)
}

/// The sale stored at `pos` of `bytes`, and where the next one starts.
pub open spec fn parse_sale(bytes: Seq<u8>, pos: int) -> Option<(SaleRecord, int)> {
    if 0 <= pos && pos + 8 <= bytes.len() {
        let n = be_value(bytes.subrange(pos, pos + 8)) as int;
        if pos + 17 + n <= bytes.len() {
            let address = bytes.subrange(pos + 8, pos + 8 + n);
            let item = item_of_code(bytes[pos + 8 + n]);
            let price = be_value(bytes.subrange(pos + 9 + n, pos + 17 + n));
            if valid_utf8(address) && item is Some && price <= usize::MAX {
                Some(((decode_utf8(address), item.unwrap(), price as usize), pos + 17 + n))
            } else {
                None
            }
        } else {
            None
        }
    } else {
        None
    }
}

/// The `count` sales stored from `pos` to the very end of `bytes`.
pub open spec fn parse_sales(bytes: Seq<u8>, pos: int, count: nat) -> Option<Seq<SaleRecord>>
    decreases count,
{
    if count == 0 {
        if pos == bytes.len() {
            Some(Seq::empty())
        } else {
            None
        }
    } else {
        match parse_sale(bytes, pos) {
            Some((sale, next)) => match parse_sales(bytes, next, (count - 1) as nat) {
                Some(rest) => Some(seq![sale] + rest),
                None => None,
            },
            None => None,
        }
    }
}

/// The sales that `bytes` store as a market place, if they store one.
pub open spec fn parse_market(bytes: Seq<u8>) -> Option<Seq<SaleRecord>> {
    if bytes.len() >= 8 {
        parse_sales(bytes, 8, be_value(bytes.subrange(0, 8)))
    } else {
        None
    }
}

/// The prices that `sales` ask, a later sale of the same item by the same
/// seller replacing an earlier one.
pub open spec fn sales_map(sales: Seq<SaleRecord>) -> Map<(Seq<char>, Item), usize>
    decreases sales.len(),
{
    if sales.len() == 0 {
        Map::empty()
    } else {
        sales_map(sales.drop_last()).insert((sales.last().0, sales.last().1), sales.last().2)
    }
}

/// The items that `sales` put on offer, a later sale of the same item by the
/// same seller replacing an earlier one.
pub open spec fn sales_items(sales: Seq<SaleRecord>) -> Multiset<Item>
    decreases sales.len(),
{
    if sales.len() == 0 {
        Multiset::empty()
    } else {
        let before = sales_items(sales.drop_last());
        if sales_map(sales.drop_last()).dom().contains((sales.last().0, sales.last().1)) {
            before
        } else {
            before.insert(sales.last().1)
        }
    }
}

/// `done` followed by what `rest` holds, if it holds anything.
pub open spec fn prepend_sales(done: Seq<SaleRecord>, rest: Option<Seq<SaleRecord>>) -> Option<
    Seq<SaleRecord>,
> {
    match rest {
        Some(r) => Some(done + r),
        None => None,
    }
}

proof fn lemma_item_code_reads_back(item: Item)
    ensures
        item_of_code(item_code(item)) == Some(item),
{
}

/// Stored sales can be appended one by one.
pub proof fn lemma_encodes_sales_push(
    bytes: Seq<u8>,
    sales: Seq<SaleRecord>,
    sale_bytes: Seq<u8>,
    sale: SaleRecord,
)
    requires
        encodes_sales(bytes, sales),
        encodes_sale(sale_bytes, sale),
    ensures
        encodes_sales(bytes + sale_bytes, sales.push(sale)),
    decreases sales.len(),
{
    let all = bytes + sale_bytes;
    let more = sales.push(sale);
    if sales.len() == 0 {
        assert(all =~= sale_bytes);
        assert(all.subrange(0, sale_size(sale)) =~= sale_bytes);
        assert(more.drop_first() =~= Seq::<SaleRecord>::empty());
        assert(all.subrange(sale_size(sale), all.len() as int).len() == 0);
        assert(encodes_sales(
            all.subrange(sale_size(sale), all.len() as int),
            more.drop_first(),
        ));
        assert(more[0] == sale);
    } else {
        let n = sale_size(sales[0]);
        let rest = bytes.subrange(n, bytes.len() as int);
        lemma_encodes_sales_push(rest, sales.drop_first(), sale_bytes, sale);
        assert(all.subrange(0, n) =~= bytes.subrange(0, n));
        assert(all.subrange(n, all.len() as int) =~= rest + sale_bytes);
        assert(more.drop_first() =~= sales.drop_first().push(sale));
        assert(more[0] == sales[0]);
        assert(encodes_sales(all.subrange(n, all.len() as int), more.drop_first()));
    }
}

/// Sales stored from `pos` on read back.
pub proof fn lemma_sales_read_back(bytes: Seq<u8>, pos: int, sales: Seq<SaleRecord>)
    requires
        0 <= pos <= bytes.len(),
        encodes_sales(bytes.subrange(pos, bytes.len() as int), sales),
    ensures
        parse_sales(bytes, pos, sales.len()) == Some(sales),
    decreases sales.len(),
{
    broadcast use {vstd::utf8::encode_utf8_valid_utf8, vstd::utf8::encode_utf8_decode_utf8};

    let t = bytes.subrange(pos, bytes.len() as int);
    if sales.len() == 0 {
        assert(pos == bytes.len());
    } else {
        let sale = sales[0];
        let m = encode_utf8(sale.0).len() as int;
        let n = sale_size(sale);
        let sb = t.subrange(0, n);
        assert(bytes.subrange(pos, pos + 8) =~= sb.subrange(0, 8));
        assert(bytes.subrange(pos + 8, pos + 8 + m) =~= sb.subrange(8, 8 + m));
        assert(bytes[pos + 8 + m] == sb[8 + m]);
        assert(bytes.subrange(pos + 9 + m, pos + 17 + m) =~= sb.subrange(9 + m, 17 + m));
        lemma_item_code_reads_back(sale.1);
        assert(parse_sale(bytes, pos) == Some((sale, pos + n)));
        assert(t.subrange(n, t.len() as int) =~= bytes.subrange(pos + n, bytes.len() as int));
        lemma_sales_read_back(bytes, pos + n, sales.drop_first());
        assert(seq![sale] + sales.drop_first() =~= sales);
    }
}

/// A market place reads back from the bytes that store it.
pub proof fn market_reads_back(bytes: Seq<u8>, sales: Seq<SaleRecord>)
    requires
        encodes_market(bytes, sales),
    ensures
        parse_market(bytes) == Some(sales),
{
    lemma_sales_read_back(bytes, 8, sales);
}

} // verus!
