# rollup_kernels

Verified logic of a few Tezos smart-rollup kernels, written in Verus.

- `src/` is the verified library:
  - `item`, `map`, `player`, `player_actions`, `market_place`, `state`: the dungeon
    game — its map, player, market place and the state machine that applies a
    player's action, with the laws it keeps (items are conserved, the player never
    leaves the floor, dropping undoes picking up, prices read back);
  - `storage`: how the game and the players' messages are laid out in bytes, with
    proofs that what is written reads back;
  - `counter`: the counter kernel's counter and how an inbox message changes it;
  - `sequencer`: the batch of operations the sequencer turns into inbox messages;
  - `tweet`, `error`: the tweets and the error messages of the social app.
- `app/` holds what talks to the rollup host: the kernels' entry points (inbox and
  durable storage), the sequencer's injector interface and the serialisable tweet.
- `tests/` run the library on concrete values.
