//! A group receive that gives up waiting after a timeout: the batches that
//! came before it are handed out, and the clients still going are left out.
//! The task that drives it polls the group receive and the timer.

use vstd::prelude::*;
use super::receive::{GroupReceive, ReceiveFailure};

verus! {

/// A group receive with the batches of clients that completed so far.
#[verifier::reject_recursive_types(M)]
pub struct GroupReceiveTimeout<Id, S, M, E> {
    pub group_receive: GroupReceive<Id, S, M, E>,
    items: Option<Vec<Vec<(Id, Result<(M, S), ReceiveFailure<E>>)>>>,
}

impl<Id, S, M, E> GroupReceiveTimeout<Id, S, M, E> {
    /// The group receive being timed.
    pub closed spec fn timed(&self) -> GroupReceive<Id, S, M, E> {
        self.group_receive
    }

    /// Whether the batches have not been handed out yet.
    pub closed spec fn has_items(&self) -> bool {
        self.items is Some
    }

    /// The batches so far, in the order they came.
    pub closed spec fn batches(&self) -> Seq<Vec<(Id, Result<(M, S), ReceiveFailure<E>>)>> {
        match self.items {
            Some(v) => v@,
            None => Seq::empty(),
        }
    }

    /// A timed receive over `group_receive`, with no batch yet.
    pub fn new(group_receive: GroupReceive<Id, S, M, E>) -> (t: GroupReceiveTimeout<Id, S, M, E>)
        ensures
            t.timed() == group_receive,
            t.has_items(),
            t.batches().len() == 0,
    {
        GroupReceiveTimeout { group_receive: group_receive, items: Some(Vec::new()) }
    }

    /// Keeps a batch of clients that completed.
    pub fn collect(&mut self, batch: Vec<(Id, Result<(M, S), ReceiveFailure<E>>)>)
        requires
            old(self).has_items(),
        ensures
            final(self).has_items(),
            final(self).batches() == old(self).batches().push(batch),
            final(self).timed() == old(self).timed(),
    {
        match &mut self.items {
            Some(items) => items.push(batch),
            None => {},
        }
    }

    /// Hands out the batches, when the group receive is done or the time is
    /// up; they can be handed out once.
    pub fn finish(&mut self) -> (batches: Vec<Vec<(Id, Result<(M, S), ReceiveFailure<E>>)>>)
        requires
            old(self).has_items(),
        ensures
            batches@ == old(self).batches(),
            !final(self).has_items(),
            final(self).timed() == old(self).timed(),
    {
        let mut items: Option<Vec<Vec<(Id, Result<(M, S), ReceiveFailure<E>>)>>> = None;
        std::mem::swap(&mut items, &mut self.items);
        match items {
            Some(v) => v,
            None => Vec::new(),
        }
    }
}

} // verus!
