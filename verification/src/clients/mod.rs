//! A client connection's queues: messages waiting to be sent to the client,
//! messages received from it, and the one-shot replies waiting for them.
//! The server commands a client through a channel of `Cmd`s; the task that
//! drives the connection hands each command, each message from the client
//! and each sending opportunity to the `Client` here, which decides.

use vstd::prelude::*;
use std::sync::Arc;
use std::collections::VecDeque;
use futures::sync::{mpsc, oneshot};
use crate::channels::{arc_try_unwrap, bounded_channel, unbounded_channel};

pub use crate::net::ClientKind;

pub mod command;
pub mod receive;
pub mod receive_timeout;
pub mod transmit;

verus! {

/// A one-shot reply that may be shared by several holders: only the last
/// holder left can complete it.
#[derive(Clone)]
#[verifier::reject_recursive_types(M)]
pub struct RaceableOneshotSender<M> {
    inner: Option<Arc<oneshot::Sender<M>>>,
}

impl<M> RaceableOneshotSender<M> {
    /// Whether this holder can still try to complete the reply.
    pub closed spec fn is_armed(&self) -> bool {
        self.inner is Some
    }

    /// The reply sender this holder shares, if it is armed.
    pub closed spec fn held(&self) -> Option<oneshot::Sender<M>> {
        match self.inner {
            Some(arc) => Some(*arc),
            None => None,
        }
    }

    /// A reply that sends on `oneshot_tx`.
    pub fn new(oneshot_tx: oneshot::Sender<M>) -> (s: RaceableOneshotSender<M>)
        ensures
            s.is_armed(),
            s.held() == Some(oneshot_tx),
    {
        RaceableOneshotSender { inner: Some(Arc::new(oneshot_tx)) }
    }

    /// Completes the reply with `msg` if this holder is armed and is the last
    /// holder of the reply: the reply sender comes back with `msg`, for the
    /// caller to send; otherwise `msg` is dropped. Either way this holder is
    /// disarmed afterwards.
    pub fn complete(&mut self, msg: M) -> (done: Option<(oneshot::Sender<M>, M)>)
        ensures
            !final(self).is_armed(),
            done matches Some(d) ==> old(self).held() == Some(d.0) && d.1 == msg,
    {
        let mut inner: Option<Arc<oneshot::Sender<M>>> = None;
        std::mem::swap(&mut inner, &mut self.inner);
        if let Some(arc) = inner {
            if let Some(sender) = arc_try_unwrap(arc) {
                return Some((sender, msg));
            }
        }
        None
    }
}

/// A command from the server to a client's connection.
#[derive(Clone)]
#[verifier::reject_recursive_types(M)]
pub enum Cmd<M> {
    /// Queue a message to send to the client.
    Transmit(M),
    /// Queue a reply to complete with the next message from the client.
    ReceiveInto(RaceableOneshotSender<M>),
    /// Close the connection.
    Close,
}

/// Why a client's connection fails.
#[derive(Clone, Copy, Debug, PartialEq, Eq, Structural)]
pub enum QueueError {
    /// "Tried to exceed msg tx queue capacity."
    TxQueueFull,
    /// "Tried to exceed msg relay tx queue capacity."
    RelayQueueFull,
    /// "Tried to exceed msg rx queue capacity."
    RxQueueFull,
}

/// `len` more items would not exceed the queue limit, if there is one.
pub open spec fn room_for(limit: Option<usize>, len: int) -> bool {
    match limit {
        Some(l) => len < l,
        None => true,
    }
}

/// A queue of length `len` is within the limit, if there is one.
pub open spec fn within(limit: Option<usize>, len: int) -> bool {
    match limit {
        Some(l) => len <= l,
        None => true,
    }
}

/// A client's connection: its identifier, the sink and stream of messages to
/// and from the client, the server's command stream, and the queues.
#[verifier::reject_recursive_types(M)]
pub struct Client<Id, S, T, C, M> {
    pub client_id: Id,
    pub client_tx: S,
    pub client_rx: T,
    msg_tx_queue: VecDeque<M>,
    msg_rx_queue: VecDeque<M>,
    pub command_rx: C,
    msg_relay_tx_queue: VecDeque<RaceableOneshotSender<M>>,
    queue_limit: Option<usize>,
}

impl<Id, S, T, C, M> Client<Id, S, T, C, M> {
    /// Messages waiting to be sent to the client, oldest first.
    pub closed spec fn tx_queue(&self) -> Seq<M> {
        self.msg_tx_queue@
    }

    /// Messages received from the client and not yet forwarded, oldest first.
    pub closed spec fn rx_queue(&self) -> Seq<M> {
        self.msg_rx_queue@
    }

    /// Replies waiting for a message from the client, oldest first.
    pub closed spec fn relay_queue(&self) -> Seq<RaceableOneshotSender<M>> {
        self.msg_relay_tx_queue@
    }

    /// The most items each queue may hold, if bounded.
    pub closed spec fn limit(&self) -> Option<usize> {
        self.queue_limit
    }

    /// The client's identifier.
    pub closed spec fn spec_client_id(&self) -> Id {
        self.client_id
    }

    /// The sink of messages to the client.
    pub closed spec fn spec_client_tx(&self) -> S {
        self.client_tx
    }

    /// The stream of messages from the client.
    pub closed spec fn spec_client_rx(&self) -> T {
        self.client_rx
    }

    /// Every queue holds at most `limit` items, if there is a limit.
    pub open spec fn within_limits(&self) -> bool {
        &&& within(self.limit(), self.tx_queue().len() as int)
        &&& within(self.limit(), self.rx_queue().len() as int)
        &&& within(self.limit(), self.relay_queue().len() as int)
    }

    /// Takes in a command from the server: a message to send joins the end of
    /// the send queue, a reply joins the end of the reply queue, unless that
    /// queue is already at the limit, which fails the connection. A `Close`
    /// command is not taken: a connection has no way to close yet.
    pub fn handle_command(&mut self, command: Cmd<M>) -> (r: Result<(), QueueError>)
        requires
            old(self).within_limits(),
            !(command is Close),
        ensures
            final(self).within_limits(),
            final(self).limit() == old(self).limit(),
            final(self).rx_queue() == old(self).rx_queue(),
            match command {
                Cmd::Transmit(msg) => if room_for(old(self).limit(), old(self).tx_queue().len() as int) {
                    r is Ok && final(self).tx_queue() == old(self).tx_queue().push(msg)
                        && final(self).relay_queue() == old(self).relay_queue()
                } else {
                    r == Err::<(), QueueError>(QueueError::TxQueueFull) && final(self).tx_queue() == old(self).tx_queue()
                        && final(self).relay_queue() == old(self).relay_queue()
                },
                Cmd::ReceiveInto(relay) => if room_for(old(self).limit(), old(self).relay_queue().len() as int) {
                    r is Ok && final(self).relay_queue() == old(self).relay_queue().push(relay)
                        && final(self).tx_queue() == old(self).tx_queue()
                } else {
                    r == Err::<(), QueueError>(QueueError::RelayQueueFull)
                        && final(self).relay_queue() == old(self).relay_queue()
                        && final(self).tx_queue() == old(self).tx_queue()
                },
                Cmd::Close => false,
            },
    {
        match command {
            Cmd::Transmit(msg_tx) => {
                if let Some(queue_limit) = self.queue_limit {
                    if self.msg_tx_queue.len() >= queue_limit {
                        return Err(QueueError::TxQueueFull);
                    }
                }
                self.msg_tx_queue.push_back(msg_tx);
                Ok(())
            },
            Cmd::ReceiveInto(msg_relay_tx) => {
                if let Some(queue_limit) = self.queue_limit {
                    if self.msg_relay_tx_queue.len() >= queue_limit {
                        return Err(QueueError::RelayQueueFull);
                    }
                }
                self.msg_relay_tx_queue.push_back(msg_relay_tx);
                Ok(())
            },
            // Ruled out by `requires`.
            Cmd::Close => Err(QueueError::TxQueueFull),
        }
    }

    /// The oldest message waiting to be sent, if any.
    pub fn next_to_send(&self) -> (m: Option<&M>)
        ensures
            self.tx_queue().len() == 0 ==> m is None,
            self.tx_queue().len() > 0 ==> m == Some(&self.tx_queue()[0]),
    {
        if self.msg_tx_queue.len() == 0 {
            None
        } else {
            Some(&self.msg_tx_queue[0])
        }
    }

    /// The oldest waiting message has started sending: it leaves the queue.
    pub fn sent(&mut self)
        requires
            old(self).within_limits(),
            old(self).tx_queue().len() > 0,
        ensures
            final(self).within_limits(),
            final(self).tx_queue() == old(self).tx_queue().drop_first(),
            final(self).rx_queue() == old(self).rx_queue(),
            final(self).relay_queue() == old(self).relay_queue(),
            final(self).limit() == old(self).limit(),
    {
        let _ = self.msg_tx_queue.pop_front();
    }

    /// Takes in a message from the client: it joins the end of the receive
    /// queue, unless that queue is at the limit, which fails the connection.
    pub fn receive_from_client(&mut self, msg: M) -> (r: Result<(), QueueError>)
        requires
            old(self).within_limits(),
        ensures
            final(self).within_limits(),
            final(self).tx_queue() == old(self).tx_queue(),
            final(self).relay_queue() == old(self).relay_queue(),
            final(self).limit() == old(self).limit(),
            room_for(old(self).limit(), old(self).rx_queue().len() as int) ==> r is Ok
                && final(self).rx_queue() == old(self).rx_queue().push(msg),
            !room_for(old(self).limit(), old(self).rx_queue().len() as int) ==> r
                == Err::<(), QueueError>(QueueError::RxQueueFull) && final(self).rx_queue() == old(self).rx_queue(),
    {
        if let Some(queue_limit) = self.queue_limit {
            if self.msg_rx_queue.len() >= queue_limit {
                return Err(QueueError::RxQueueFull);
            }
        }
        self.msg_rx_queue.push_back(msg);
        Ok(())
    }

    /// When a received message and a waiting reply are both queued, takes
    /// the oldest of each, to complete that reply with that message.
    pub fn next_forward(&mut self) -> (f: Option<(M, RaceableOneshotSender<M>)>)
        requires
            old(self).within_limits(),
        ensures
            final(self).within_limits(),
            final(self).tx_queue() == old(self).tx_queue(),
            final(self).limit() == old(self).limit(),
            if old(self).rx_queue().len() > 0 && old(self).relay_queue().len() > 0 {
                f == Some((old(self).rx_queue()[0], old(self).relay_queue()[0]))
                    && final(self).rx_queue() == old(self).rx_queue().drop_first()
                    && final(self).relay_queue() == old(self).relay_queue().drop_first()
            } else {
                f is None && final(self).rx_queue() == old(self).rx_queue()
                    && final(self).relay_queue() == old(self).relay_queue()
            },
    {
        if self.msg_rx_queue.len() > 0 && self.msg_relay_tx_queue.len() > 0 {
            let msg_rx = self.msg_rx_queue.pop_front();
            let relay_tx = self.msg_relay_tx_queue.pop_front();
            match (msg_rx, relay_tx) {
                (Some(m), Some(t)) => Some((m, t)),
                _ => None,
            }
        } else {
            None
        }
    }
}

impl<Id, S, T, M> Client<Id, S, T, mpsc::Receiver<Cmd<M>>, M> {
    /// A connection whose queues hold at most `queue_limit` items each, and
    /// the sender of its command channel, which buffers `queue_limit` commands.
    pub fn bounded(client_id: Id, client_tx: S, client_rx: T, queue_limit: usize) -> (r: (
        Client<Id, S, T, mpsc::Receiver<Cmd<M>>, M>,
        mpsc::Sender<Cmd<M>>,
    ))
        requires
            queue_limit < usize::MAX / 4,
        ensures
            r.0.within_limits(),
            r.0.spec_client_id() == client_id,
            r.0.spec_client_tx() == client_tx,
            r.0.spec_client_rx() == client_rx,
            r.0.limit() == Some(queue_limit),
            r.0.tx_queue().len() == 0,
            r.0.rx_queue().len() == 0,
            r.0.relay_queue().len() == 0,
    {
        let (command_tx, command_rx) = bounded_channel(queue_limit);
        (
            Client {
                client_id: client_id,
                client_tx: client_tx,
                client_rx: client_rx,
                msg_tx_queue: VecDeque::with_capacity(queue_limit),
                msg_rx_queue: VecDeque::with_capacity(queue_limit),
                command_rx: command_rx,
                msg_relay_tx_queue: VecDeque::new(),
                queue_limit: Some(queue_limit),
            },
            command_tx,
        )
    }
}

impl<Id: Clone, S, T, M> Client<Id, S, T, mpsc::UnboundedReceiver<Cmd<M>>, M> {
    /// A connection with unbounded queues, and the sender of its unbounded
    /// command channel.
    pub fn unbounded(client_id: Id, client_tx: S, client_rx: T) -> (r: (
        Client<Id, S, T, mpsc::UnboundedReceiver<Cmd<M>>, M>,
        mpsc::UnboundedSender<Cmd<M>>,
    ))
        ensures
            r.0.within_limits(),
            r.0.spec_client_id() == client_id,
            r.0.spec_client_tx() == client_tx,
            r.0.spec_client_rx() == client_rx,
            r.0.limit() is None,
            r.0.tx_queue().len() == 0,
            r.0.rx_queue().len() == 0,
            r.0.relay_queue().len() == 0,
    {
        let (command_tx, command_rx) = unbounded_channel();
        (
            Client {
                client_id: client_id,
                client_tx: client_tx,
                client_rx: client_rx,
                msg_tx_queue: VecDeque::new(),
                msg_rx_queue: VecDeque::new(),
                command_rx: command_rx,
                msg_relay_tx_queue: VecDeque::new(),
                queue_limit: None,
            },
            command_tx,
        )
    }

    /// A copy of the client's identifier.
    pub fn client_id(&self) -> (id: Id)
        ensures
            cloned::<Id>(self.spec_client_id(), id),
    {
        self.client_id.clone()
    }
}

} // verus!
