//! The server's handle on one client: its identifier, an optional name
//! proper to the means of communication, and the channel to its relay.

use vstd::prelude::*;
use futures::sync::{mpsc, oneshot};
use crate::ident::new_uuid;
use super::{ClientId, ClientStatus, ClientTimeout, Command};
use super::room::Room;

verus! {

/// A handle on one client.
#[derive(Clone)]
#[verifier::reject_recursive_types(T)]
#[verifier::reject_recursive_types(R)]
pub struct Client<T, R> where T: Send + 'static, R: Send + 'static {
    id: ClientId,
    name: Option<String>,
    cmd_tx: mpsc::Sender<Command<T, R>>,
}

impl<T, R> Client<T, R> where T: Send + 'static, R: Send + 'static {
    /// The client's identifier.
    pub closed spec fn spec_id(&self) -> ClientId {
        self.id
    }

    /// The client's name, if it has one.
    pub closed spec fn spec_name(&self) -> Option<Seq<char>> {
        match self.name {
            Some(n) => Some(n@),
            None => None,
        }
    }

    /// The channel on which the client's relay is commanded.
    pub closed spec fn spec_cmd_tx(&self) -> mpsc::Sender<Command<T, R>> {
        self.cmd_tx
    }

    /// A client with a fresh random identifier, commanded through `cmd_tx`.
    pub fn new(name: Option<String>, cmd_tx: mpsc::Sender<Command<T, R>>) -> (c: Client<T, R>)
        ensures
            c.spec_name() == (match name {
                Some(n) => Some(n@),
                None => None::<Seq<char>>,
            }),
            c.spec_cmd_tx() == cmd_tx,
    {
        Client { id: new_uuid(), name: name, cmd_tx: cmd_tx }
    }

    /// The client's identifier.
    pub fn id(&self) -> (id: ClientId)
        ensures
            id == self.spec_id(),
    {
        self.id
    }

    /// The client's name, if it has one.
    pub fn name(&self) -> (name: Option<String>)
        ensures
            match name {
                Some(n) => self.spec_name() == Some(n@),
                None => self.spec_name() is None,
            },
    {
        match &self.name {
            Some(n) => Some(n.clone()),
            None => None,
        }
    }

    /// The channel on which the client's relay is commanded; every command
    /// to the client goes through a clone of it.
    pub fn command_sender(&self) -> (tx: &mpsc::Sender<Command<T, R>>)
        ensures
            *tx == self.spec_cmd_tx(),
    {
        &self.cmd_tx
    }

    /// The command that has the relay send `msg` to this client.
    pub fn transmit_command(&self, msg: T) -> (cmd: Command<T, R>)
        ensures
            cmd == Command::<T, R>::Transmit(self.spec_id(), msg),
    {
        Command::Transmit(self.id, msg)
    }

    /// The command that has the relay put the client's next message into
    /// `reply_tx`, waiting for it as `timeout` says.
    pub fn receive_command(&self, timeout: ClientTimeout, reply_tx: oneshot::Sender<R>) -> (cmd: Command<T, R>)
        ensures
            cmd == Command::<T, R>::ReceiveInto(self.spec_id(), timeout, reply_tx),
    {
        Command::ReceiveInto(self.id, timeout, reply_tx)
    }

    /// The command that has the relay put the client's status into `reply_tx`.
    pub fn status_command(&self, reply_tx: oneshot::Sender<ClientStatus>) -> (cmd: Command<T, R>)
        ensures
            cmd == Command::<T, R>::StatusInto(self.spec_id(), reply_tx),
    {
        Command::StatusInto(self.id, reply_tx)
    }

    /// The command that has the relay disconnect this client.
    pub fn close_command(&self) -> (cmd: Command<T, R>)
        ensures
            cmd == Command::<T, R>::Close(self.spec_id()),
    {
        Command::Close(self.id)
    }

    /// Puts this client in `room`, unless a client with its identifier is
    /// already there, which then stays; says whether it was put there.
    pub fn join(self, room: &mut Room<T, R>) -> (joined: bool)
        ensures
            joined == !old(room).ids().contains(self.spec_id()),
            joined ==> final(room).members() == old(room).members().insert(self.spec_id(), self),
            !joined ==> final(room).members() == old(room).members(),
            final(room).ids() == old(room).ids().insert(self.spec_id()),
    {
        room.insert(self)
    }
}

} // verus!
