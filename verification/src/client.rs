//! Kinds of clients.

use vstd::prelude::*;

pub use crate::net::ClientKind;

verus! {

} // verus!
