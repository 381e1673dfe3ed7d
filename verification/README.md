# sirpent

Server-side logic of Sirpent, a multiplayer snake game played over TCP, as a
Verus library with its contracts proved.

- `src/` is the verified library:
  - `grids/`, `hexgrid.rs`, `hexagon_grid.rs`, `hex_grid.rs`: square and
    hexagonal grids, their distances (proved to be metrics), neighbours,
    bounds, balls of cells and boards of snakes;
  - `actors/nameserver.rs`, `net/name_service.rs`: unique player names, with
    Roman numeral suffixes;
  - `player.rs`: the player protocol as a state machine;
  - `engine/spectators.rs`: the spectators of the games and the queue of
    messages shown to them;
  - `clients/mod.rs`, `client_future.rs`, `net/comms/`: per-client message queues,
    relays and rooms, stepped by the task that drives them;
  - `clients/command.rs`, `clients/receive.rs`, `clients/receive_timeout.rs`,
    `clients/transmit.rs`, `net/pending.rs`, `net/clients_send.rs`,
    `net/clients_receive.rs`, `net/clients_receive_timed.rs`,
    `collect_results.rs`, `game_future.rs`: the bookkeeping of operations
    that wait on many clients at once;
  - `net/mod.rs`: the line framing of messages;
  - `channels.rs`, `ident.rs`: the calls into `futures` and `uuid` that the
    logic makes, with the contracts they are trusted to meet.
- `tests/` runs the library with the real outside crates.
- `app/` is the server program: sockets, JSON, timers and the event loop,
  driving the library.

The game itself is not here. The rules of a turn (snake movement, eating,
collisions, food) and the futures that play a game depend on a `snake`
module and on the `state` and `protocol` crates, none of which is part of
this source tree or available to build against, so neither the library nor
the server program plays games: the server greets clients, names them and
seats players and spectators.
