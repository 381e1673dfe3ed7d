//! The server's actors, of which the name server is the part with logic of its own.

use vstd::prelude::*;

pub mod nameserver;

verus! {

} // verus!
