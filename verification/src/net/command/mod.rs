//! How long to wait for a client, and what state a client is in.

use vstd::prelude::*;
use std::time::Duration;

verus! {

/// How long to wait for a client's reply.
#[derive(Clone, Copy, Debug, PartialEq)]
pub enum Timeout {
    /// Wait as long as it takes.
    NoTimeout,
    /// Give up waiting after this long, keeping the client.
    Optional(Duration),
    /// Give up waiting after this long and disconnect the client.
    Disconnecting(Duration),
}

/// The state of a client.
#[derive(Clone, Copy, Debug, PartialEq, Eq, Structural)]
pub enum Status {
    Ready,
    Waiting,
    Gone,
}

} // verus!
