use vstd::multiset::Multiset;
use vstd::prelude::*;

use crate::item::Item;
use crate::storage::{
    code_to_item, encodes_market, encodes_sale, encodes_sales, item_to_code, lemma_encodes_sales_push,
    parse_market, parse_sale, parse_sales, prepend_sales, sales_items, sales_map, u64_from_be_bytes,
    u64_to_be_bytes, utf8_to_string, SaleRecord,
};

verus! {

broadcast use vstd::string::to_string_from_display_ensures_for_str;

/// The key under which an item is on sale: the seller's address and the item.
pub type ListingKey = (Seq<char>, Item);

/// One item on sale.
#[derive(Debug)]
pub struct Listing {
    pub address: String,
    pub item: Item,
    pub price: usize,
}

impl Clone for Listing {
    fn clone(&self) -> (listing: Listing)
        ensures
            listing == *self,
    {
        Listing { address: self.address.clone(), item: self.item, price: self.price }
    }
}

/// The key of a listing.
pub open spec fn listing_key(l: Listing) -> ListingKey {
    (l.address@, l.item)
}

/// No two listings share a key.
pub open spec fn keys_unique(s: Seq<Listing>) -> bool {
    forall|i: int, j: int|
        0 <= i < s.len() && 0 <= j < s.len() && i != j ==> listing_key(#[trigger] s[i])
            != listing_key(#[trigger] s[j])
}

/// Some listing of `s` has key `k`.
pub open spec fn has_key(s: Seq<Listing>, k: ListingKey) -> bool {
    exists|i: int| 0 <= i < s.len() && listing_key(#[trigger] s[i]) == k
}

/// The price of the listing of `s` with key `k`.
pub open spec fn price_at(s: Seq<Listing>, k: ListingKey) -> usize {
    s[choose|i: int| 0 <= i < s.len() && listing_key(#[trigger] s[i]) == k].price
}

/// The listings of `s` as a map from key to price.
pub open spec fn listings_map(s: Seq<Listing>) -> Map<ListingKey, usize> {
    Map::new(|k: ListingKey| has_key(s, k), |k: ListingKey| price_at(s, k))
}

/// The items on sale in `s`, with their multiplicities.
pub open spec fn items_of(s: Seq<Listing>) -> Multiset<Item> {
    s.map_values(|l: Listing| l.item).to_multiset()
}

/// The price of `k` in `m`, if it is on sale.
pub open spec fn price_in(m: Map<ListingKey, usize>, k: ListingKey) -> Option<usize> {
    if m.dom().contains(k) {
        Some(m[k])
    } else {
        None
    }
}

proof fn lemma_price_at(s: Seq<Listing>, k: ListingKey, j: int)
    requires
        keys_unique(s),
        0 <= j < s.len(),
        listing_key(s[j]) == k,
    ensures
        price_at(s, k) == s[j].price,
{
    let c = choose|i: int| 0 <= i < s.len() && listing_key(#[trigger] s[i]) == k;
    assert(0 <= c < s.len() && listing_key(s[c]) == k);
}

proof fn lemma_update(s: Seq<Listing>, i: int, l: Listing)
    requires
        keys_unique(s),
        0 <= i < s.len(),
        listing_key(s[i]) == listing_key(l),
    ensures
        keys_unique(s.update(i, l)),
        listings_map(s.update(i, l)) == listings_map(s).insert(listing_key(l), l.price),
        items_of(s.update(i, l)) == items_of(s),
{
    let t = s.update(i, l);
    let k0 = listing_key(l);
    assert forall|a: int, b: int|
        0 <= a < t.len() && 0 <= b < t.len() && a != b implies listing_key(#[trigger] t[a])
        != listing_key(#[trigger] t[b]) by {
        assert(listing_key(s[a]) != listing_key(s[b]));
    }
    let m1 = listings_map(t);
    let m2 = listings_map(s).insert(k0, l.price);
    assert forall|k: ListingKey| m1.dom().contains(k) <==> m2.dom().contains(k) by {
        if has_key(s, k) {
            let j = choose|j: int| 0 <= j < s.len() && listing_key(#[trigger] s[j]) == k;
            if j == i {
                assert(listing_key(t[i]) == k);
            } else {
                assert(listing_key(t[j]) == k);
            }
        }
        if has_key(t, k) {
            let j = choose|j: int| 0 <= j < t.len() && listing_key(#[trigger] t[j]) == k;
            if j != i {
                assert(listing_key(s[j]) == k);
            }
        }
        if k == k0 {
            assert(listing_key(t[i]) == k);
        }
    }
    assert forall|k: ListingKey| #[trigger] m1.dom().contains(k) implies m1[k] == m2[k] by {
        let j = choose|j: int| 0 <= j < t.len() && listing_key(#[trigger] t[j]) == k;
        lemma_price_at(t, k, j);
        if j != i {
            assert(listing_key(s[j]) == k);
            lemma_price_at(s, k, j);
        }
    }
    assert(m1 =~= m2);
    let f = |x: Listing| x.item;
    assert(t.map_values(f) =~= s.map_values(f));
}

proof fn lemma_push(s: Seq<Listing>, l: Listing)
    requires
        keys_unique(s),
        !has_key(s, listing_key(l)),
    ensures
        keys_unique(s.push(l)),
        listings_map(s.push(l)) == listings_map(s).insert(listing_key(l), l.price),
        items_of(s.push(l)) == items_of(s).insert(l.item),
{
    broadcast use vstd::seq_lib::to_multiset_build;

    let t = s.push(l);
    let n = s.len() as int;
    let k0 = listing_key(l);
    assert forall|a: int, b: int|
        0 <= a < t.len() && 0 <= b < t.len() && a != b implies listing_key(#[trigger] t[a])
        != listing_key(#[trigger] t[b]) by {
        if a < n && b < n {
            assert(listing_key(s[a]) != listing_key(s[b]));
        } else if a < n {
            assert(listing_key(s[a]) != k0);
        } else {
            assert(listing_key(s[b]) != k0);
        }
    }
    let m1 = listings_map(t);
    let m2 = listings_map(s).insert(k0, l.price);
    assert forall|k: ListingKey| m1.dom().contains(k) <==> m2.dom().contains(k) by {
        if has_key(s, k) {
            let j = choose|j: int| 0 <= j < s.len() && listing_key(#[trigger] s[j]) == k;
            assert(listing_key(t[j]) == k);
        }
        if has_key(t, k) {
            let j = choose|j: int| 0 <= j < t.len() && listing_key(#[trigger] t[j]) == k;
            if j < n {
                assert(listing_key(s[j]) == k);
            }
        }
        if k == k0 {
            assert(listing_key(t[n]) == k);
        }
    }
    assert forall|k: ListingKey| #[trigger] m1.dom().contains(k) implies m1[k] == m2[k] by {
        let j = choose|j: int| 0 <= j < t.len() && listing_key(#[trigger] t[j]) == k;
        lemma_price_at(t, k, j);
        if j < n {
            assert(listing_key(s[j]) == k);
            lemma_price_at(s, k, j);
        }
    }
    assert(m1 =~= m2);
    let f = |x: Listing| x.item;
    assert(t.map_values(f) =~= s.map_values(f).push(l.item));
}

proof fn lemma_remove(s: Seq<Listing>, i: int)
    requires
        keys_unique(s),
        0 <= i < s.len(),
    ensures
        keys_unique(s.remove(i)),
        listings_map(s.remove(i)) == listings_map(s).remove(listing_key(s[i])),
        items_of(s.remove(i)) == items_of(s).remove(s[i].item),
{
    broadcast use vstd::seq_lib::to_multiset_remove;

    let t = s.remove(i);
    let k0 = listing_key(s[i]);
    assert forall|a: int, b: int|
        0 <= a < t.len() && 0 <= b < t.len() && a != b implies listing_key(#[trigger] t[a])
        != listing_key(#[trigger] t[b]) by {
        let sa = if a < i {
            a
        } else {
            a + 1
        };
        let sb = if b < i {
            b
        } else {
            b + 1
        };
        assert(t[a] == s[sa]);
        assert(t[b] == s[sb]);
        assert(listing_key(s[sa]) != listing_key(s[sb]));
    }
    let m1 = listings_map(t);
    let m2 = listings_map(s).remove(k0);
    assert forall|k: ListingKey| m1.dom().contains(k) <==> m2.dom().contains(k) by {
        if has_key(s, k) && k != k0 {
            let j = choose|j: int| 0 <= j < s.len() && listing_key(#[trigger] s[j]) == k;
            if j < i {
                assert(listing_key(t[j]) == k);
            } else {
                assert(j != i);
                assert(t[j - 1] == s[j]);
                assert(listing_key(t[j - 1]) == k);
            }
        }
        if has_key(t, k) {
            let j = choose|j: int| 0 <= j < t.len() && listing_key(#[trigger] t[j]) == k;
            if j < i {
                assert(t[j] == s[j]);
                assert(listing_key(s[j]) == k);
                assert(k != k0);
            } else {
                assert(t[j] == s[j + 1]);
                assert(listing_key(s[j + 1]) == k);
                assert(k != k0);
            }
        }
    }
    assert forall|k: ListingKey| #[trigger] m1.dom().contains(k) implies m1[k] == m2[k] by {
        let j = choose|j: int| 0 <= j < t.len() && listing_key(#[trigger] t[j]) == k;
        lemma_price_at(t, k, j);
        if j < i {
            assert(t[j] == s[j]);
            lemma_price_at(s, k, j);
        } else {
            assert(t[j] == s[j + 1]);
            lemma_price_at(s, k, j + 1);
        }
    }
    assert(m1 =~= m2);
    let f = |x: Listing| x.item;
    assert(t.map_values(f) =~= s.map_values(f).remove(i));
}

/// The items that players have put on sale, each under the seller's address.
#[derive(Debug)]
pub struct MarketPlace {
    inner: Vec<Listing>,
}

impl View for MarketPlace {
    type V = Map<ListingKey, usize>;

    closed spec fn view(&self) -> Map<ListingKey, usize> {
        listings_map(self.inner@)
    }
}

impl Clone for MarketPlace {
    fn clone(&self) -> (market_place: MarketPlace)
        ensures
            market_place@ == self@,
            market_place.listed_items() == self.listed_items(),
    {
        proof {
            use_type_invariant(self);
        }
        let inner = self.inner.clone();
        proof {
            assert(inner@ =~= self.inner@);
        }
        MarketPlace { inner }
    }
}

impl MarketPlace {
    #[verifier::type_invariant]
    closed spec fn well_formed(self) -> bool {
        keys_unique(self.inner@)
    }

    /// The items on sale, with their multiplicities.
    pub closed spec fn listed_items(&self) -> Multiset<Item> {
        items_of(self.inner@)
    }

    /// An item on sale counts among the listed items.
    pub proof fn lemma_on_sale_is_listed(self, key: ListingKey)
        requires
            self@.dom().contains(key),
        ensures
            self.listed_items().count(key.1) > 0,
    {
        broadcast use vstd::seq_lib::to_multiset_contains;

        let s = self.inner@;
        let j = choose|j: int| 0 <= j < s.len() && listing_key(#[trigger] s[j]) == key;
        let items = s.map_values(|l: Listing| l.item);
        assert(items[j] == key.1);
        assert(items.contains(key.1));
    }

    /// An empty market place.
    pub fn new() -> (market_place: MarketPlace)
        ensures
            market_place@ == Map::<ListingKey, usize>::empty(),
            market_place.listed_items() == Multiset::<Item>::empty(),
    {
        let market_place = MarketPlace { inner: Vec::new() };
        proof {
            assert(market_place@ =~= Map::<ListingKey, usize>::empty());
            let items = market_place.inner@.map_values(|l: Listing| l.item);
            assert(items =~= Seq::<Item>::empty());
            vstd::seq_lib::to_multiset_len(items);
            vstd::multiset::lemma_multiset_empty_len(items.to_multiset());
        }
        market_place
    }

    fn find(&self, address: &String, item: Item) -> (found: Option<usize>)
        ensures
            found matches Some(i) ==> i < self.inner@.len() && listing_key(self.inner@[i as int])
                == (address@, item),
            found is None ==> !has_key(self.inner@, (address@, item)),
    {
        let mut i: usize = 0;
        while i < self.inner.len()
            invariant
                i <= self.inner@.len(),
                forall|j: int| 0 <= j < i ==> listing_key(#[trigger] self.inner@[j]) != (address@, item),
            decreases self.inner@.len() - i,
        {
            if self.inner[i].item == item && self.inner[i].address == *address {
                return Some(i);
            }
            i = i + 1;
        }
        None
    }

    /// The price at which `player_address` sells `item`, if it is on sale.
    pub fn get_price(&self, player_address: &str, item: Item) -> (price: Option<usize>)
        ensures
            price == price_in(self@, (player_address@, item)),
    {
        proof {
            use_type_invariant(self);
        }
        let address = player_address.to_string();
        match self.find(&address, item) {
            Some(i) => {
                proof {
                    lemma_price_at(self.inner@, (address@, item), i as int);
                }
                Some(self.inner[i].price)
            },
            None => None,
        }
    }

    /// Takes the sale of `item` by `player_address` off the market place.
    pub fn buy_item(&mut self, player_address: &str, item: Item)
        ensures
            final(self)@ == old(self)@.remove((player_address@, item)),
            old(self)@.dom().contains((player_address@, item)) ==> final(self).listed_items()
                == old(self).listed_items().remove(item),
            !old(self)@.dom().contains((player_address@, item)) ==> final(self).listed_items()
                == old(self).listed_items(),
    {
        proof {
            use_type_invariant(&*self);
        }
        let address = player_address.to_string();
        match self.find(&address, item) {
            Some(i) => {
                proof {
                    lemma_remove(self.inner@, i as int);
                }
                let mut inner: Vec<Listing> = Vec::new();
                std::mem::swap(&mut inner, &mut self.inner);
                inner.remove(i);
                self.inner = inner;
            },
            None => {
                proof {
                    assert(listings_map(self.inner@).remove((address@, item)) =~= listings_map(
                        self.inner@,
                    ));
                }
            },
        }
    }

    /// Puts `item` on sale by `current_player_address` at `price`; a sale of the
    /// same item by the same seller gets the new price.
    pub fn sell_item(&mut self, current_player_address: &str, item: Item, price: usize)
        ensures
            final(self)@ == old(self)@.insert((current_player_address@, item), price),
            old(self)@.dom().contains((current_player_address@, item))
                ==> final(self).listed_items() == old(self).listed_items(),
            !old(self)@.dom().contains((current_player_address@, item))
                ==> final(self).listed_items() == old(self).listed_items().insert(item),
    {
        proof {
            use_type_invariant(&*self);
        }
        let address = current_player_address.to_string();
        let found = self.find(&address, item);
        let listing = Listing { address, item, price };
        match found {
            Some(i) => {
                proof {
                    lemma_update(self.inner@, i as int, listing);
                }
                let mut inner: Vec<Listing> = Vec::new();
                std::mem::swap(&mut inner, &mut self.inner);
                inner.set(i, listing);
                self.inner = inner;
            },
            None => {
                proof {
                    lemma_push(self.inner@, listing);
                }
                let mut inner: Vec<Listing> = Vec::new();
                std::mem::swap(&mut inner, &mut self.inner);
                inner.push(listing);
                self.inner = inner;
            },
        }
    }
}

} // verus!

verus! {

/// The sale that a listing stands for.
pub open spec fn sale_of(l: Listing) -> SaleRecord {
    (l.address@, l.item, l.price)
}

/// The sales that `s` stand for, in order.
pub open spec fn sales_of(s: Seq<Listing>) -> Seq<SaleRecord> {
    s.map_values(|l: Listing| sale_of(l))
}

proof fn lemma_sales_map(s: Seq<Listing>)
    requires
        keys_unique(s),
    ensures
        sales_map(sales_of(s)) == listings_map(s),
        sales_items(sales_of(s)) == items_of(s),
    decreases s.len(),
{
    if s.len() == 0 {
        assert(sales_of(s) =~= Seq::<SaleRecord>::empty());
        assert(listings_map(s) =~= Map::<ListingKey, usize>::empty());
        let items = s.map_values(|l: Listing| l.item);
        assert(items =~= Seq::<Item>::empty());
        vstd::seq_lib::to_multiset_len(items);
        vstd::multiset::lemma_multiset_empty_len(items.to_multiset());
    } else {
        let init = s.drop_last();
        let l = s.last();
        assert forall|a: int, b: int|
            0 <= a < init.len() && 0 <= b < init.len() && a != b implies listing_key(
            #[trigger] init[a],
        ) != listing_key(#[trigger] init[b]) by {
            assert(init[a] == s[a] && init[b] == s[b]);
        }
        if has_key(init, listing_key(l)) {
            let j = choose|j: int| 0 <= j < init.len() && listing_key(#[trigger] init[j]) == listing_key(l);
            assert(init[j] == s[j]);
            assert(listing_key(s[j]) != listing_key(s[s.len() - 1]));
        }
        lemma_sales_map(init);
        lemma_push(init, l);
        assert(init.push(l) =~= s);
        assert(sales_of(s).drop_last() =~= sales_of(init));
    }
}

fn encode_sale(listing: &Listing) -> (bytes: Vec<u8>)
    ensures
        encodes_sale(bytes@, sale_of(*listing)),
{
    let address = listing.address.as_str().as_bytes();
    let mut bytes = u64_to_be_bytes(address.len() as u64);
    let ghost len_bytes = bytes@;
    bytes.extend_from_slice(address);
    let ghost with_address = bytes@;
    bytes.push(item_to_code(listing.item));
    let mut price = u64_to_be_bytes(listing.price as u64);
    let ghost price_bytes = price@;
    bytes.append(&mut price);
    proof {
        let n = address@.len() as int;
        assert(bytes@.subrange(0, 8) =~= len_bytes);
        assert(bytes@.subrange(8, 8 + n) =~= address@);
        assert(bytes@.subrange(9 + n, 17 + n) =~= price_bytes);
    }
    bytes
}

fn parse_sale_at(bytes: &Vec<u8>, pos: usize) -> (parsed: Option<(String, Item, usize, usize)>)
    ensures
        parsed is Some <==> parse_sale(bytes@, pos as int) is Some,
        parsed matches Some((address, item, price, next)) ==> parse_sale(bytes@, pos as int)
            == Some(((address@, item, price), next as int)),
{
    if bytes.len() < 8 || pos > bytes.len() - 8 {
        return None;
    }
    let n = u64_from_be_bytes(bytes.as_slice(), pos);
    let room = bytes.len() - pos - 8;
    if n as u128 + 9 > room as u128 {
        return None;
    }
    let start = pos + 8;
    let end = start + n as usize;
    let address = match utf8_to_string(bytes.as_slice(), start, end) {
        Some(address) => address,
        None => {
            return None;
        },
    };
    let item = match code_to_item(bytes[end]) {
        Some(item) => item,
        None => {
            return None;
        },
    };
    let price = u64_from_be_bytes(bytes.as_slice(), end + 1);
    if price as u128 > usize::MAX as u128 {
        return None;
    }
    Some((address, item, price as usize, end + 9))
}

impl MarketPlace {
    /// The sales on offer, in the order they are kept.
    pub closed spec fn sales(&self) -> Seq<SaleRecord> {
        sales_of(self.inner@)
    }

    /// The bytes that store the market place.
    pub fn to_bytes(&self) -> (bytes: Vec<u8>)
        ensures
            encodes_market(bytes@, self.sales()),
            sales_map(self.sales()) == self@,
            sales_items(self.sales()) == self.listed_items(),
    {
        proof {
            use_type_invariant(self);
            lemma_sales_map(self.inner@);
        }
        let mut bytes = u64_to_be_bytes(self.inner.len() as u64);
        let ghost count_bytes = bytes@;
        let mut body: Vec<u8> = Vec::new();
        let mut i: usize = 0;
        while i < self.inner.len()
            invariant
                i <= self.inner@.len(),
                encodes_sales(body@, sales_of(self.inner@.subrange(0, i as int))),
            decreases self.inner@.len() - i,
        {
            let mut sale = encode_sale(&self.inner[i]);
            proof {
                lemma_encodes_sales_push(
                    body@,
                    sales_of(self.inner@.subrange(0, i as int)),
                    sale@,
                    sale_of(self.inner@[i as int]),
                );
                assert(sales_of(self.inner@.subrange(0, i + 1)) =~= sales_of(
                    self.inner@.subrange(0, i as int),
                ).push(sale_of(self.inner@[i as int])));
            }
            body.append(&mut sale);
            i = i + 1;
        }
        let ghost body_bytes = body@;
        bytes.append(&mut body);
        proof {
            assert(self.inner@.subrange(0, i as int) =~= self.inner@);
            assert(bytes@.subrange(0, 8) =~= count_bytes);
            assert(bytes@.subrange(8, bytes@.len() as int) =~= body_bytes);
        }
        bytes
    }

    /// The market place stored in `bytes`: its sales are put on offer in the
    /// order they are stored; `None` when `bytes` store no market place.
    pub fn from_bytes(bytes: &Vec<u8>) -> (market_place: Option<MarketPlace>)
        ensures
            market_place is Some <==> parse_market(bytes@) is Some,
            market_place matches Some(m) ==> m@ == sales_map(parse_market(bytes@).unwrap())
                && m.listed_items() == sales_items(parse_market(bytes@).unwrap()),
    {
        if bytes.len() < 8 {
            return None;
        }
        let count = u64_from_be_bytes(bytes.as_slice(), 0);
        let mut market_place = MarketPlace::new();
        let mut pos: usize = 8;
        let mut k: u64 = 0;
        let ghost mut done: Seq<SaleRecord> = Seq::empty();
        proof {
            assert(bytes@.subrange(0, 8) == bytes@.subrange(0, 8));
            assert(done + parse_sales(bytes@, 8, count as nat).unwrap() =~= parse_sales(
                bytes@,
                8,
                count as nat,
            ).unwrap());
            assert(sales_map(done) =~= Map::<ListingKey, usize>::empty());
            assert(sales_items(done) == Multiset::<Item>::empty());
        }
        while k < count
            invariant
                8 <= pos <= bytes@.len(),
                k <= count,
                count == crate::storage::be_value(bytes@.subrange(0, 8)),
                parse_market(bytes@) == prepend_sales(
                    done,
                    parse_sales(bytes@, pos as int, (count - k) as nat),
                ),
                market_place@ == sales_map(done),
                market_place.listed_items() == sales_items(done),
            decreases count - k,
        {
            match parse_sale_at(bytes, pos) {
                Some((address, item, price, next)) => {
                    market_place.sell_item(address.as_str(), item, price);
                    proof {
                        let sale: SaleRecord = (address@, item, price);
                        let rest = parse_sales(bytes@, next as int, (count - k - 1) as nat);
                        if rest is Some {
                            assert(done + (seq![sale] + rest.unwrap()) =~= done.push(sale)
                                + rest.unwrap());
                        }
                        assert(done.push(sale).drop_last() =~= done);
                        done = done.push(sale);
                    }
                    pos = next;
                    k = k + 1;
                },
                None => {
                    return None;
                },
            }
        }
        if pos != bytes.len() {
            return None;
        }
        proof {
            assert(done + Seq::<SaleRecord>::empty() =~= done);
        }
        Some(market_place)
    }
}

} // verus!

verus! {

/// `listing`'s item is on offer in `m` by the same seller at the same price.
pub open spec fn priced_in(m: Map<ListingKey, usize>, listing: Listing) -> bool {
    m.dom().contains(listing_key(listing)) && m[listing_key(listing)] == listing.price
}

impl MarketPlace {
    /// Every sale of `self` is on offer in `other` at the same price.
    fn sales_within(&self, other: &MarketPlace) -> (within: bool)
        ensures
            within == forall|k: ListingKey| #[trigger]
                self@.dom().contains(k) ==> other@.dom().contains(k) && other@[k] == self@[k],
    {
        proof {
            use_type_invariant(self);
            use_type_invariant(other);
        }
        let mut i: usize = 0;
        while i < self.inner.len()
            invariant
                i <= self.inner@.len(),
                keys_unique(self.inner@),
                keys_unique(other.inner@),
                forall|j: int| 0 <= j < i ==> #[trigger] priced_in(other@, self.inner@[j]),
            decreases self.inner@.len() - i,
        {
            let l = &self.inner[i];
            let ghost key = listing_key(self.inner@[i as int]);
            proof {
                lemma_price_at(self.inner@, key, i as int);
                assert(has_key(self.inner@, key));
                assert(self@.dom().contains(key));
                assert(self@[key] == l.price);
            }
            match other.find(&l.address, l.item) {
                Some(j) => {
                    proof {
                        lemma_price_at(other.inner@, key, j as int);
                        assert(has_key(other.inner@, key));
                        assert(other@[key] == other.inner@[j as int].price);
                    }
                    if other.inner[j].price != l.price {
                        return false;
                    }
                    proof {
                        assert(other.inner@[j as int].price == self.inner@[i as int].price);
                        assert(other@.dom().contains(listing_key(self.inner@[i as int])));
                        assert(other@[listing_key(self.inner@[i as int])]
                            == self.inner@[i as int].price);
                        assert(priced_in(other@, self.inner@[i as int]));
                    }
                },
                None => {
                    proof {
                        assert(!other@.dom().contains(key));
                    }
                    return false;
                },
            }
            i = i + 1;
        }
        proof {
            assert forall|k: ListingKey| #[trigger] self@.dom().contains(k) implies other@.dom().contains(
                k,
            ) && other@[k] == self@[k] by {
                let j = choose|j: int|
                    0 <= j < self.inner@.len() && listing_key(#[trigger] self.inner@[j]) == k;
                lemma_price_at(self.inner@, k, j);
                assert(priced_in(other@, self.inner@[j]));
            }
        }
        true
    }
}

impl PartialEq for MarketPlace {
    fn eq(&self, other: &MarketPlace) -> (same: bool) {
        let same = self.sales_within(other) && other.sales_within(self);
        proof {
            if same {
                assert(self@ =~= other@);
            }
        }
        same
    }
}

impl vstd::std_specs::cmp::PartialEqSpecImpl for MarketPlace {
    open spec fn obeys_eq_spec() -> bool {
        true
    }

    open spec fn eq_spec(&self, other: &MarketPlace) -> bool {
        self@ == other@
    }
}

} // verus!

verus! {

/// After a sale of `item` by `address` at `price`, the market place asks that
/// price for it, and every other sale keeps its price.
pub proof fn price_after_sell(
    before: Map<ListingKey, usize>,
    after: Map<ListingKey, usize>,
    address: Seq<char>,
    item: Item,
    price: usize,
)
    requires
        after == before.insert((address, item), price),
    ensures
        price_in(after, (address, item)) == Some(price),
        forall|k: ListingKey| k != (address, item) ==> #[trigger] price_in(after, k) == price_in(before, k),
{
}

/// After `item` of `address` is bought, it is no longer on sale, and every
/// other sale keeps its price.
pub proof fn price_after_buy(
    before: Map<ListingKey, usize>,
    after: Map<ListingKey, usize>,
    address: Seq<char>,
    item: Item,
)
    requires
        after == before.remove((address, item)),
    ensures
        price_in(after, (address, item)) == None::<usize>,
        forall|k: ListingKey| k != (address, item) ==> #[trigger] price_in(after, k) == price_in(before, k),
{
}

} // verus!
