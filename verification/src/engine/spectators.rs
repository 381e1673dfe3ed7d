//! The spectators of the games: they are seated as they arrive, and every
//! message about the games is shown to each of them, in the order the
//! messages came. A spectator who sends anything, or whose channel refuses a
//! message, is taken out to be closed, as spectating means only listening.
//! The task that drives it polls the channels of arrivals, of messages and of
//! the spectators, sends what is handed out here, and reports back.

use vstd::prelude::*;
use std::collections::VecDeque;
use crate::net::comms::{Client, ClientId, Room};
use crate::net::comms::room::{clients_map, ids_distinct};

verus! {

/// The spectators and the messages waiting to be shown to them.
#[verifier::reject_recursive_types(M)]
pub struct Spectators<M> where M: Send + 'static {
    spectators: Room<M, M>,
    msg_queue: VecDeque<M>,
}

impl<M> Spectators<M> where M: Send + 'static {
    /// The spectators, by identifier.
    pub closed spec fn seated(&self) -> Map<ClientId, Client<M, M>> {
        self.spectators.members()
    }

    /// The messages waiting to be shown, oldest first.
    pub closed spec fn queue(&self) -> Seq<M> {
        self.msg_queue@
    }

    /// No spectator and no message yet.
    pub fn new() -> (s: Spectators<M>)
        ensures
            s.seated() == Map::<ClientId, Client<M, M>>::empty(),
            s.queue() == Seq::<M>::empty(),
    {
        Spectators { spectators: Room::new(), msg_queue: VecDeque::new() }
    }

    /// The identifiers of the spectators, each once.
    pub fn ids(&self) -> (ids: Vec<ClientId>)
        ensures
            ids@.to_set() == self.seated().dom(),
            ids@.no_duplicates(),
    {
        self.spectators.client_ids()
    }

    /// The spectator with identifier `id`, if it is seated.
    pub fn spectator(&self, id: &ClientId) -> (c: Option<&Client<M, M>>)
        ensures
            c is Some <==> self.seated().dom().contains(*id),
            c matches Some(client) ==> *client == self.seated()[*id],
    {
        self.spectators.get(id)
    }

    /// Seats a spectator who arrived, unless one with its identifier is
    /// already seated; says whether it was seated.
    pub fn arrived(&mut self, client: Client<M, M>) -> (seated: bool)
        ensures
            seated == !old(self).seated().dom().contains(client.spec_id()),
            seated ==> final(self).seated() == old(self).seated().insert(client.spec_id(), client),
            !seated ==> final(self).seated() == old(self).seated(),
            final(self).queue() == old(self).queue(),
    {
        self.spectators.insert(client)
    }

    /// A message to show joins the end of the queue.
    pub fn message(&mut self, msg: M)
        ensures
            final(self).queue() == old(self).queue().push(msg),
            final(self).seated() == old(self).seated(),
    {
        self.msg_queue.push_back(msg);
    }

    /// Takes out the spectator `id`, who sent something or whose channel
    /// refused a message, to be closed; nothing if it is not seated.
    pub fn take_out(&mut self, id: &ClientId) -> (c: Option<Client<M, M>>)
        ensures
            c is Some <==> old(self).seated().dom().contains(*id),
            c matches Some(client) ==> client == old(self).seated()[*id],
            final(self).seated() == old(self).seated().remove(*id),
            final(self).queue() == old(self).queue(),
    {
        self.spectators.remove(id)
    }

    /// The oldest waiting message, which leaves the queue, with the
    /// spectators to show it to, each once; nothing when no message waits.
    pub fn next_broadcast(&mut self) -> (b: Option<(M, Vec<ClientId>)>)
        ensures
            final(self).seated() == old(self).seated(),
            old(self).queue().len() == 0 ==> b is None && final(self).queue() == old(self).queue(),
            old(self).queue().len() > 0 ==> (b matches Some(p) && p.0 == old(self).queue()[0]
                && p.1@.to_set() == old(self).seated().dom() && p.1@.no_duplicates())
                && final(self).queue() == old(self).queue().drop_first(),
    {
        match self.msg_queue.pop_front() {
            Some(msg) => Some((msg, self.spectators.client_ids())),
            None => None,
        }
    }

    /// A channel of arrivals or of messages ended: every spectator is taken
    /// out, to be closed.
    pub fn close_all(&mut self) -> (all: Vec<Client<M, M>>)
        ensures
            clients_map(all@) == old(self).seated(),
            ids_distinct(all@),
            final(self).seated() == Map::<ClientId, Client<M, M>>::empty(),
            final(self).queue() == old(self).queue(),
    {
        self.spectators.take_all()
    }
}

} // verus!
