//! A group receive that stops at a timeout: once the time is up, the
//! messages and channels received so far are handed out and the receives
//! still going are dropped. The task that drives it polls the timer and,
//! until it fires, the receives.

use vstd::prelude::*;
use super::clients_receive::ClientsReceive;
use super::pending::ids_of;

verus! {

/// A group receive that the timeout has not ended yet, or nothing once it has.
pub struct ClientsTimedReceive<I, M, C, D> {
    pub receive: Option<ClientsReceive<I, M, C, D>>,
}

impl<I: Clone, M, C, D> ClientsTimedReceive<I, M, C, D> {
    /// The group receive, until the timeout ends it.
    pub closed spec fn receiving(&self) -> Option<ClientsReceive<I, M, C, D>> {
        self.receive
    }

    /// A timed receive over `reads`, none of them done yet.
    pub fn new(reads: Vec<(I, D)>) -> (t: ClientsTimedReceive<I, M, C, D>)
        ensures
            t.receiving() matches Some(r) && r.pending() == reads@ && r.has_entries()
                && r.msgs_so_far().len() == 0 && r.txs_so_far().len() == 0,
            ids_of(reads@).no_duplicates() ==> (t.receiving() matches Some(r) && r.well_keyed()),
    {
        ClientsTimedReceive { receive: Some(ClientsReceive::new(reads)) }
    }

    /// A timed receive from the single client `id`.
    pub fn single(id: I, read: D) -> (t: ClientsTimedReceive<I, M, C, D>)
        ensures
            t.receiving() matches Some(r) && r.pending() == seq![(id, read)] && r.has_entries()
                && r.msgs_so_far().len() == 0 && r.txs_so_far().len() == 0,
    {
        let mut reads: Vec<(I, D)> = Vec::new();
        reads.push((id, read));
        assert(reads@ =~= seq![(id, read)]);
        ClientsTimedReceive::new(reads)
    }

    /// The time is up: hands out the messages received so far and the
    /// channels of the clients that sent them, and drops the receives still
    /// going.
    pub fn timed_out(&mut self) -> (e: (Vec<(I, M)>, Vec<(I, C)>))
        requires
            old(self).receiving() matches Some(r) && r.has_entries(),
        ensures
            match old(self).receiving() {
                Some(r) => e.0@ == r.msgs_so_far() && e.1@ == r.txs_so_far(),
                None => false,
            },
            final(self).receiving() is None,
    {
        let mut receive: Option<ClientsReceive<I, M, C, D>> = None;
        std::mem::swap(&mut receive, &mut self.receive);
        match receive {
            Some(mut r) => r.entries(),
            None => (Vec::new(), Vec::new()),
        }
    }
}

} // verus!
