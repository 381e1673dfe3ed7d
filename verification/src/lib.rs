//! Server-side logic of the Sirpent snake game: grid geometry, name
//! allocation, client message queues, the player protocol state machine and
//! the bookkeeping of group sends and receives.
#![allow(unused_imports)]

use vstd::prelude::*;

pub mod actors;
pub mod channels;
pub mod client;
pub mod client_future;
pub mod clients;
pub mod collect_results;
pub mod engine;
pub mod game_future;
pub mod grids;
pub mod hexagon_grid;
pub mod hexgrid;
pub mod hex_grid;
pub mod net;
pub mod ident;
pub mod player;

verus! {

} // verus!
