use vstd::prelude::*;
use vstd::utf8::{decode_utf8, valid_utf8};

use crate::item::Item;
use crate::storage::{be_value, code_to_item, item_of_code, u64_from_be_bytes, utf8_to_string};

verus! {

/// What a player asks the game to do.
#[derive(Debug)]
pub enum PlayerAction {
    MoveUp,
    MoveDown,
    MoveLeft,
    MoveRight,
    PickUp,
    /// Drop the item at this inventory position.
    Drop(usize),
    /// Put the item at this inventory position on sale at this price.
    Sell(usize, usize),
    /// Buy this item from the seller with this address.
    Buy(String, Item),
}

impl Clone for PlayerAction {
    fn clone(&self) -> (action: PlayerAction)
        ensures
            action == *self,
    {
        match self {
            PlayerAction::MoveUp => PlayerAction::MoveUp,
            PlayerAction::MoveDown => PlayerAction::MoveDown,
            PlayerAction::MoveLeft => PlayerAction::MoveLeft,
            PlayerAction::MoveRight => PlayerAction::MoveRight,
            PlayerAction::PickUp => PlayerAction::PickUp,
            PlayerAction::Drop(position) => PlayerAction::Drop(*position),
            PlayerAction::Sell(item_id, price) => PlayerAction::Sell(*item_id, *price),
            PlayerAction::Buy(seller, item) => PlayerAction::Buy(seller.clone(), *item),
        }
    }
}

/// A message of a player: who sends it and what it asks.
#[derive(Debug)]
pub struct PlayerMsg {
    pub public_key: String,
    pub action: PlayerAction,
}

/// The eight bytes of `bytes` from `start` on store a number that fits a `usize`.
pub open spec fn usize_at(bytes: Seq<u8>, start: int) -> bool {
    be_value(bytes.subrange(start, start + 8)) <= usize::MAX
}

/// `bytes` store an action: its tag byte, then its arguments (positions and
/// prices as eight bytes, most significant first; for a purchase, the item's
/// byte and then the seller's address in UTF-8).
pub open spec fn valid_action_bytes(bytes: Seq<u8>) -> bool {
    if bytes.len() == 0 {
        false
    } else if 1 <= bytes[0] <= 5 {
        bytes.len() == 1
    } else if bytes[0] == 6 {
        bytes.len() == 9 && usize_at(bytes, 1)
    } else if bytes[0] == 7 {
        bytes.len() == 17 && usize_at(bytes, 1) && usize_at(bytes, 9)
    } else if bytes[0] == 8 {
        &&& bytes.len() >= 2
        &&& item_of_code(bytes[1]) is Some
        &&& valid_utf8(bytes.subrange(2, bytes.len() as int))
    } else {
        false
    }
}

/// `bytes` store `action`.
pub open spec fn decodes_action(bytes: Seq<u8>, action: PlayerAction) -> bool {
    match action {
        PlayerAction::MoveUp => bytes == seq![1u8],
        PlayerAction::MoveDown => bytes == seq![2u8],
        PlayerAction::MoveLeft => bytes == seq![3u8],
        PlayerAction::MoveRight => bytes == seq![4u8],
        PlayerAction::PickUp => bytes == seq![5u8],
        PlayerAction::Drop(position) => {
            &&& bytes.len() == 9
            &&& bytes[0] == 6
            &&& be_value(bytes.subrange(1, 9)) == position
        },
        PlayerAction::Sell(item_id, price) => {
            &&& bytes.len() == 17
            &&& bytes[0] == 7
            &&& be_value(bytes.subrange(1, 9)) == item_id
            &&& be_value(bytes.subrange(9, 17)) == price
        },
        PlayerAction::Buy(seller, item) => {
            &&& bytes.len() >= 2
            &&& bytes[0] == 8
            &&& item_of_code(bytes[1]) == Some(item)
            &&& valid_utf8(bytes.subrange(2, bytes.len() as int))
            &&& seller@ == decode_utf8(bytes.subrange(2, bytes.len() as int))
        },
    }
}

/// `bytes` store a message: the byte length `k` of the sender's public key,
/// the key in UTF-8 in the next `k` bytes, then an action.
pub open spec fn valid_msg_bytes(bytes: Seq<u8>) -> bool {
    &&& bytes.len() >= 1
    &&& 1 + bytes[0] <= bytes.len()
    &&& valid_utf8(bytes.subrange(1, 1 + bytes[0]))
    &&& valid_action_bytes(bytes.subrange(1 + bytes[0], bytes.len() as int))
}

/// `bytes` store `msg`.
pub open spec fn decodes_msg(bytes: Seq<u8>, msg: PlayerMsg) -> bool {
    &&& bytes.len() >= 1
    &&& 1 + bytes[0] <= bytes.len()
    &&& valid_utf8(bytes.subrange(1, 1 + bytes[0]))
    &&& msg.public_key@ == decode_utf8(bytes.subrange(1, 1 + bytes[0]))
    &&& decodes_action(bytes.subrange(1 + bytes[0], bytes.len() as int), msg.action)
}

fn usize_from_be_bytes(bytes: &[u8], start: usize) -> (v: Option<usize>)
    requires
        start + 8 <= bytes@.len(),
    ensures
        v is Some <==> usize_at(bytes@, start as int),
        v matches Some(n) ==> n == be_value(bytes@.subrange(start as int, start + 8)),
{
    let v = u64_from_be_bytes(bytes, start);
    if v as u128 > usize::MAX as u128 {
        None
    } else {
        Some(v as usize)
    }
}

impl PlayerAction {
    /// The action stored in `bytes[start..]`, if they store one.
    pub fn from_bytes(bytes: &[u8], start: usize) -> (action: Option<PlayerAction>)
        requires
            start <= bytes@.len(),
        ensures
            action is Some <==> valid_action_bytes(
                bytes@.subrange(start as int, bytes@.len() as int),
            ),
            action matches Some(a) ==> decodes_action(
                bytes@.subrange(start as int, bytes@.len() as int),
                a,
            ),
    {
        let ghost b = bytes@.subrange(start as int, bytes@.len() as int);
        let len = bytes.len() - start;
        if len == 0 {
            return None;
        }
        let tag = bytes[start];
        proof {
            assert(b[0] == tag);
        }
        if 1 <= tag && tag <= 5 {
            if len != 1 {
                return None;
            }
            proof {
                assert(b =~= seq![tag]);
            }
            if tag == 1 {
                Some(PlayerAction::MoveUp)
            } else if tag == 2 {
                Some(PlayerAction::MoveDown)
            } else if tag == 3 {
                Some(PlayerAction::MoveLeft)
            } else if tag == 4 {
                Some(PlayerAction::MoveRight)
            } else {
                Some(PlayerAction::PickUp)
            }
        } else if tag == 6 {
            if len != 9 {
                return None;
            }
            proof {
                assert(b.subrange(1, 9) =~= bytes@.subrange(start + 1, start + 9));
            }
            match usize_from_be_bytes(bytes, start + 1) {
                Some(position) => Some(PlayerAction::Drop(position)),
                None => None,
            }
        } else if tag == 7 {
            if len != 17 {
                return None;
            }
            proof {
                assert(b.subrange(1, 9) =~= bytes@.subrange(start + 1, start + 9));
                assert(b.subrange(9, 17) =~= bytes@.subrange(start + 9, start + 17));
            }
            let item_id = usize_from_be_bytes(bytes, start + 1);
            let price = usize_from_be_bytes(bytes, start + 9);
            match (item_id, price) {
                (Some(item_id), Some(price)) => Some(PlayerAction::Sell(item_id, price)),
                _ => None,
            }
        } else if tag == 8 {
            if len < 2 {
                return None;
            }
            proof {
                assert(b[1] == bytes@[start + 1]);
                assert(b.subrange(2, b.len() as int) =~= bytes@.subrange(
                    start + 2,
                    bytes@.len() as int,
                ));
            }
            let item = match code_to_item(bytes[start + 1]) {
                Some(item) => item,
                None => {
                    return None;
                },
            };
            match utf8_to_string(bytes, start + 2, bytes.len()) {
                Some(seller) => Some(PlayerAction::Buy(seller, item)),
                None => None,
            }
        } else {
            None
        }
    }
}

impl PlayerMsg {
    /// The message stored in `bytes`, if they store one.
    pub fn from_bytes(bytes: &[u8]) -> (msg: Option<PlayerMsg>)
        ensures
            msg is Some <==> valid_msg_bytes(bytes@),
            msg matches Some(m) ==> decodes_msg(bytes@, m),
    {
        if bytes.len() == 0 {
            return None;
        }
        let key_len = bytes[0] as usize;
        if key_len > bytes.len() - 1 {
            return None;
        }
        let public_key = match utf8_to_string(bytes, 1, 1 + key_len) {
            Some(key) => key,
            None => {
                return None;
            },
        };
        match PlayerAction::from_bytes(bytes, 1 + key_len) {
            Some(action) => Some(PlayerMsg { public_key, action }),
            None => None,
        }
    }
}

} // verus!
