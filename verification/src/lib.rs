//! Verified logic of a few Tezos smart-rollup kernels: a dungeon game (map,
//! player, market place, the state machine that applies a player's action, and
//! how the game and the players' messages are stored in bytes), a counter
//! kernel, a sequencer batch, and the tweets and error messages of a small social
//! app.

pub mod item;
pub mod map;
pub mod player;
pub mod player_actions;
pub mod market_place;
pub mod state;
pub mod storage;
pub mod counter;
pub mod sequencer;
pub mod tweet;
pub mod error;
