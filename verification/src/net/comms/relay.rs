//! The relay of one client: it queues what the server commands, sends queued
//! messages to the client, buffers what the client sends, and forwards it to
//! the replies that wait for it. The task that drives a relay polls its
//! command channel, sink and stream, and hands what they give to it.

use vstd::prelude::*;
use std::collections::VecDeque;
use futures::sync::{mpsc, oneshot};
use crate::channels::{bounded_channel, is_canceled};
use crate::ident::uuid_eq;
use super::{ClientId, ClientStatus, Command};

verus! {

/// Why a relay stops.
#[derive(Debug)]
pub enum RelayError<A, B> {
    /// A command named another client.
    IncorrectClientIdInCommand,
    /// A channel closed; which one.
    BrokenPipe(String),
    /// A queue would have exceeded its limit; which one.
    QueueLimitExceeded(String),
    /// Sending to the client failed.
    Tx(A),
    /// Receiving from the client failed.
    Rx(B),
}

/// What the relay does after a command.
#[derive(Clone, Copy, Debug, PartialEq, Eq, Structural)]
pub enum CommandOutcome {
    /// Read the next command.
    Continue,
    /// The client is closed: the relay ends, dropping all its channels.
    Close,
}

/// The sending half of a relay: the sink to the client and the messages
/// waiting to be sent, oldest first.
pub struct ClientRelayTx<A, T> {
    pub tx: A,
    buffer: VecDeque<T>,
}

impl<A, T> ClientRelayTx<A, T> {
    /// The sink to the client.
    pub closed spec fn spec_tx(&self) -> A {
        self.tx
    }

    /// The messages waiting to be sent, oldest first.
    pub closed spec fn pending(&self) -> Seq<T> {
        self.buffer@
    }

    /// A sending half over `tx` with nothing waiting.
    pub fn new(tx: A) -> (r: ClientRelayTx<A, T>)
        ensures
            r.spec_tx() == tx,
            r.pending() == Seq::<T>::empty(),
    {
        ClientRelayTx { tx: tx, buffer: VecDeque::new() }
    }

    /// Takes the oldest waiting message, to hand to the sink.
    pub fn next_to_send(&mut self) -> (m: Option<T>)
        ensures
            final(self).spec_tx() == old(self).spec_tx(),
            old(self).pending().len() == 0 ==> m is None && final(self).pending() == old(self).pending(),
            old(self).pending().len() > 0 ==> m == Some(old(self).pending()[0])
                && final(self).pending() == old(self).pending().drop_first(),
    {
        self.buffer.pop_front()
    }

    /// Puts back a message that the sink was not ready to take, as the oldest.
    pub fn unsend(&mut self, msg: T)
        ensures
            final(self).spec_tx() == old(self).spec_tx(),
            final(self).pending() == seq![msg] + old(self).pending(),
    {
        self.buffer.push_front(msg);
    }
}

/// The receiving half of a relay: the stream from the client, the messages
/// received and not yet forwarded, and the replies waiting for a message or
/// for the client's status, each oldest first.
#[verifier::reject_recursive_types(R)]
pub struct ClientRelayRx<B, R> {
    pub rx: B,
    buffer: VecDeque<R>,
    forward_txs: VecDeque<oneshot::Sender<R>>,
    status_txs: VecDeque<oneshot::Sender<ClientStatus>>,
}

impl<B, R> ClientRelayRx<B, R> {
    /// The stream from the client.
    pub closed spec fn spec_rx(&self) -> B {
        self.rx
    }

    /// Messages received and not yet forwarded, oldest first.
    pub closed spec fn buffered(&self) -> Seq<R> {
        self.buffer@
    }

    /// Replies waiting for a message, oldest first.
    pub closed spec fn forwards(&self) -> Seq<oneshot::Sender<R>> {
        self.forward_txs@
    }

    /// Replies waiting for the client's status, oldest first.
    pub closed spec fn statuses(&self) -> Seq<oneshot::Sender<ClientStatus>> {
        self.status_txs@
    }

    /// A receiving half over `rx` with nothing buffered or waiting.
    pub fn new(rx: B) -> (r: ClientRelayRx<B, R>)
        ensures
            r.spec_rx() == rx,
            r.buffered() == Seq::<R>::empty(),
            r.forwards() == Seq::<oneshot::Sender<R>>::empty(),
            r.statuses() == Seq::<oneshot::Sender<ClientStatus>>::empty(),
    {
        ClientRelayRx { rx: rx, buffer: VecDeque::new(), forward_txs: VecDeque::new(), status_txs: VecDeque::new() }
    }

    /// Takes in a message from the client: it joins the end of the buffer,
    /// unless the buffer is at `queue_limit`, which stops the relay.
    pub fn receive<EA, EB>(&mut self, msg: R, queue_limit: Option<usize>) -> (r: Result<(), RelayError<EA, EB>>)
        ensures
            final(self).spec_rx() == old(self).spec_rx(),
            final(self).forwards() == old(self).forwards(),
            final(self).statuses() == old(self).statuses(),
            match queue_limit {
                Some(l) if old(self).buffered().len() >= l => r matches Err(RelayError::QueueLimitExceeded(s))
                    && s@ == "Tried to exceed msg rx queue capacity."@ && final(self).buffered() == old(self).buffered(),
                _ => r is Ok && final(self).buffered() == old(self).buffered().push(msg),
            },
    {
        if let Some(queue_limit) = queue_limit {
            if self.buffer.len() >= queue_limit {
                let s = "Tried to exceed msg rx queue capacity.".to_string();
                proof {
                    broadcast use vstd::string::group_string_axioms;
                }
                return Err(RelayError::QueueLimitExceeded(s));
            }
        }
        self.buffer.push_back(msg);
        Ok(())
    }

    /// Whether each waiting reply's receiver is still there, oldest first.
    pub fn forward_liveness(&self) -> (live: Vec<bool>)
        ensures
            live@.len() == self.forwards().len(),
    {
        let mut live: Vec<bool> = Vec::new();
        let mut i: usize = 0;
        while i < self.forward_txs.len()
            invariant
                i <= self.forward_txs@.len(),
                live@.len() == i,
            decreases self.forward_txs.len() - i,
        {
            live.push(!is_canceled(&self.forward_txs[i]));
            i = i + 1;
        }
        live
    }

    /// Whether each waiting status reply's receiver is still there, oldest first.
    pub fn status_liveness(&self) -> (live: Vec<bool>)
        ensures
            live@.len() == self.statuses().len(),
    {
        let mut live: Vec<bool> = Vec::new();
        let mut i: usize = 0;
        while i < self.status_txs.len()
            invariant
                i <= self.status_txs@.len(),
                live@.len() == i,
            decreases self.status_txs.len() - i,
        {
            live.push(!is_canceled(&self.status_txs[i]));
            i = i + 1;
        }
        live
    }

    /// Pairs buffered messages, oldest first, with the waiting replies,
    /// oldest first, while there are both: a reply whose receiver is gone
    /// (its flag in `live` is false) is dropped without taking a message.
    /// Then takes every waiting status reply; those whose receiver is still
    /// there (by `status_live`) are handed out, to be answered `Ready`.
    /// The caller completes each reply handed out with its message.
    pub fn forward(&mut self, live: Vec<bool>, status_live: Vec<bool>) -> (r: (
        Vec<(oneshot::Sender<R>, R)>,
        Vec<oneshot::Sender<ClientStatus>>,
    ))
        requires
            live@.len() == old(self).forwards().len(),
            status_live@.len() == old(self).statuses().len(),
        ensures
            final(self).spec_rx() == old(self).spec_rx(),
            r.0@ == deliveries(old(self).buffered(), old(self).forwards(), live@),
            final(self).buffered() == msgs_left(old(self).buffered(), old(self).forwards(), live@),
            final(self).forwards() == fwds_left(old(self).buffered(), old(self).forwards(), live@),
            final(self).buffered().len() == 0 || final(self).forwards().len() == 0,
            r.0@.map_values(|p: (oneshot::Sender<R>, R)| p.1) + final(self).buffered() == old(self).buffered(),
            exists|f: int| 0 <= f <= old(self).forwards().len()
                && #[trigger] old(self).forwards().skip(f) == final(self).forwards()
                && r.0@.map_values(|p: (oneshot::Sender<R>, R)| p.0)
                    == live_only(old(self).forwards().take(f), live@.take(f)),
            r.1@ == live_only(old(self).statuses(), status_live@),
            final(self).statuses().len() == 0,
    {
        proof {
            forward_conserves(self.buffer@, self.forward_txs@, live@);
        }
        let ghost b0 = self.buffer@;
        let ghost f0 = self.forward_txs@;
        let ghost l0 = live@;
        let mut live = live;
        let mut done: Vec<(oneshot::Sender<R>, R)> = Vec::new();
        while self.buffer.len() > 0 && self.forward_txs.len() > 0
            invariant
                self.rx == old(self).rx,
                self.status_txs@ == old(self).status_txs@,
                live@.len() == self.forward_txs@.len(),
                done@ + deliveries(self.buffer@, self.forward_txs@, live@) == deliveries(b0, f0, l0),
                msgs_left(self.buffer@, self.forward_txs@, live@) == msgs_left(b0, f0, l0),
                fwds_left(self.buffer@, self.forward_txs@, live@) == fwds_left(b0, f0, l0),
            decreases self.forward_txs@.len(),
        {
            let ghost b = self.buffer@;
            let ghost f = self.forward_txs@;
            let ghost l = live@;
            let ghost d = done@;
            let is_live = live.remove(0);
            let forward_tx = self.forward_txs.pop_front();
            match forward_tx {
                Some(tx) => {
                    if is_live {
                        let msg = self.buffer.pop_front();
                        match msg {
                            Some(msg) => {
                                let ghost pair = (tx, msg);
                                done.push((tx, msg));
                                assert(done@ + deliveries(self.buffer@, self.forward_txs@, live@)
                                    =~= d + (seq![pair] + deliveries(b.drop_first(), f.drop_first(), l.drop_first())));
                            },
                            None => {},
                        }
                    }
                },
                None => {},
            }
        }
        let ghost s0 = self.status_txs@;
        let ghost sl0 = status_live@;
        let mut status_live = status_live;
        let mut answers: Vec<oneshot::Sender<ClientStatus>> = Vec::new();
        while self.status_txs.len() > 0
            invariant
                self.rx == old(self).rx,
                self.buffer@ == msgs_left(b0, f0, l0),
                self.forward_txs@ == fwds_left(b0, f0, l0),
                self.buffer@.len() == 0 || self.forward_txs@.len() == 0,
                done@ == deliveries(b0, f0, l0),
                status_live@.len() == self.status_txs@.len(),
                answers@ + live_only(self.status_txs@, status_live@) == live_only(s0, sl0),
            decreases self.status_txs@.len(),
        {
            let ghost st = self.status_txs@;
            let ghost sl = status_live@;
            let ghost a = answers@;
            let is_live = status_live.remove(0);
            let status_tx = self.status_txs.pop_front();
            match status_tx {
                Some(tx) => {
                    if is_live {
                        let ghost t = tx;
                        answers.push(tx);
                        assert(answers@ + live_only(self.status_txs@, status_live@)
                            =~= a + (seq![t] + live_only(st.drop_first(), sl.drop_first())));
                    }
                },
                None => {},
            }
        }
        assert(answers@ =~= live_only(s0, sl0));
        (done, answers)
    }
}

/// The replies completed when the messages `msgs` meet the waiting replies
/// `fwds` with liveness `live`, both oldest first: each live reply takes the
/// oldest message left, a reply whose receiver is gone takes none, until the
/// messages or the replies run out.
pub open spec fn deliveries<R>(msgs: Seq<R>, fwds: Seq<oneshot::Sender<R>>, live: Seq<bool>) -> Seq<(oneshot::Sender<R>, R)>
    decreases fwds.len(),
{
    if msgs.len() == 0 || fwds.len() == 0 {
        Seq::empty()
    } else if live[0] {
        seq![(fwds[0], msgs[0])] + deliveries(msgs.drop_first(), fwds.drop_first(), live.drop_first())
    } else {
        deliveries(msgs, fwds.drop_first(), live.drop_first())
    }
}

/// The messages left after `deliveries(msgs, fwds, live)`.
pub open spec fn msgs_left<R>(msgs: Seq<R>, fwds: Seq<oneshot::Sender<R>>, live: Seq<bool>) -> Seq<R>
    decreases fwds.len(),
{
    if msgs.len() == 0 || fwds.len() == 0 {
        msgs
    } else if live[0] {
        msgs_left(msgs.drop_first(), fwds.drop_first(), live.drop_first())
    } else {
        msgs_left(msgs, fwds.drop_first(), live.drop_first())
    }
}

/// The replies left waiting after `deliveries(msgs, fwds, live)`.
pub open spec fn fwds_left<R>(msgs: Seq<R>, fwds: Seq<oneshot::Sender<R>>, live: Seq<bool>) -> Seq<oneshot::Sender<R>>
    decreases fwds.len(),
{
    if msgs.len() == 0 || fwds.len() == 0 {
        fwds
    } else if live[0] {
        fwds_left(msgs.drop_first(), fwds.drop_first(), live.drop_first())
    } else {
        fwds_left(msgs, fwds.drop_first(), live.drop_first())
    }
}

/// Forwarding loses no message and skips no live reply: the messages handed
/// out, in order, followed by the messages left buffered are the messages
/// buffered before; the replies that took them are, in order, the live ones
/// among the oldest `f` waiting replies, whose place the remaining replies
/// take; and afterwards no message waits while a reply does.
pub proof fn forward_conserves<R>(msgs: Seq<R>, fwds: Seq<oneshot::Sender<R>>, live: Seq<bool>)
    requires
        live.len() == fwds.len(),
    ensures
        deliveries(msgs, fwds, live).map_values(|p: (oneshot::Sender<R>, R)| p.1) + msgs_left(msgs, fwds, live) == msgs,
        exists|f: int| 0 <= f <= fwds.len()
            && #[trigger] fwds.skip(f) == fwds_left(msgs, fwds, live)
            && deliveries(msgs, fwds, live).map_values(|p: (oneshot::Sender<R>, R)| p.0)
                == live_only(fwds.take(f), live.take(f)),
        msgs_left(msgs, fwds, live).len() == 0 || fwds_left(msgs, fwds, live).len() == 0,
    decreases fwds.len(),
{
    let d = deliveries(msgs, fwds, live);
    if msgs.len() == 0 || fwds.len() == 0 {
        assert(d.map_values(|p: (oneshot::Sender<R>, R)| p.1) + msgs =~= msgs);
        assert(fwds.skip(0) =~= fwds);
        assert(fwds.take(0) =~= Seq::<oneshot::Sender<R>>::empty());
        assert(d.map_values(|p: (oneshot::Sender<R>, R)| p.0) =~= live_only(fwds.take(0), live.take(0)));
    } else {
        let m1 = if live[0] { msgs.drop_first() } else { msgs };
        let f1 = fwds.drop_first();
        let l1 = live.drop_first();
        forward_conserves(m1, f1, l1);
        let d1 = deliveries(m1, f1, l1);
        let k = choose|k: int| 0 <= k <= f1.len()
            && #[trigger] f1.skip(k) == fwds_left(m1, f1, l1)
            && d1.map_values(|p: (oneshot::Sender<R>, R)| p.0) == live_only(f1.take(k), l1.take(k));
        assert(fwds.skip(k + 1) =~= f1.skip(k));
        let ft = fwds.take(k + 1);
        let lt = live.take(k + 1);
        assert(ft.drop_first() =~= f1.take(k));
        assert(lt.drop_first() =~= l1.take(k));
        if live[0] {
            assert(d == seq![(fwds[0], msgs[0])] + d1);
            assert(d.map_values(|p: (oneshot::Sender<R>, R)| p.1)
                =~= seq![msgs[0]] + d1.map_values(|p: (oneshot::Sender<R>, R)| p.1));
            assert(seq![msgs[0]] + msgs.drop_first() =~= msgs);
            assert(d.map_values(|p: (oneshot::Sender<R>, R)| p.0)
                =~= seq![fwds[0]] + d1.map_values(|p: (oneshot::Sender<R>, R)| p.0));
            assert(live_only(ft, lt) == seq![ft[0]] + live_only(ft.drop_first(), lt.drop_first()));
        } else {
            assert(d == d1);
            assert(live_only(ft, lt) == live_only(ft.drop_first(), lt.drop_first()));
        }
        assert(fwds.skip(k + 1) == fwds_left(msgs, fwds, live));
    }
}

/// The items of `xs` whose flag in `live` is set, in order.
pub open spec fn live_only<X>(xs: Seq<X>, live: Seq<bool>) -> Seq<X>
    decreases xs.len(),
{
    if xs.len() == 0 {
        Seq::empty()
    } else if live[0] {
        seq![xs[0]] + live_only(xs.drop_first(), live.drop_first())
    } else {
        live_only(xs.drop_first(), live.drop_first())
    }
}

/// A client's relay: its identifier and name, the limit on each of its
/// queues, its two halves and the channel on which it is commanded.
#[verifier::reject_recursive_types(T)]
#[verifier::reject_recursive_types(R)]
pub struct ClientRelay<A, B, T, R> where T: Send, R: Send {
    id: ClientId,
    name: Option<String>,
    queue_limit: Option<usize>,
    pub tx_relay: ClientRelayTx<A, T>,
    pub rx_relay: ClientRelayRx<B, R>,
    pub cmd_rx: mpsc::Receiver<Command<T, R>>,
}

/// One more item does not exceed the limit, if there is one.
pub open spec fn below_limit(limit: Option<usize>, len: int) -> bool {
    match limit {
        Some(l) => len < l,
        None => true,
    }
}

impl<A, B, T, R> ClientRelay<A, B, T, R> where T: Send, R: Send {
    /// The identifier of the client.
    pub closed spec fn spec_id(&self) -> ClientId {
        self.id
    }

    /// The sending half.
    pub closed spec fn spec_tx_relay(&self) -> ClientRelayTx<A, T> {
        self.tx_relay
    }

    /// The receiving half.
    pub closed spec fn spec_rx_relay(&self) -> ClientRelayRx<B, R> {
        self.rx_relay
    }

    /// The channel on which the relay is commanded.
    pub closed spec fn spec_cmd_rx(&self) -> mpsc::Receiver<Command<T, R>> {
        self.cmd_rx
    }

    /// The limit on each queue, if any.
    pub closed spec fn limit(&self) -> Option<usize> {
        self.queue_limit
    }

    /// A relay for client `id` over the sink `tx` and the stream `rx`, and
    /// the sender of its command channel, which buffers `queue_limit`
    /// commands, or 3 without a limit.
    pub fn new(id: ClientId, name: Option<String>, queue_limit: Option<usize>, tx: A, rx: B) -> (r: (
        ClientRelay<A, B, T, R>,
        mpsc::Sender<Command<T, R>>,
    ))
        requires
            match queue_limit {
                Some(l) => l < usize::MAX / 4,
                None => true,
            },
        ensures
            r.0.spec_id() == id,
            r.0.limit() == queue_limit,
            r.0.spec_tx_relay().spec_tx() == tx,
            r.0.spec_tx_relay().pending().len() == 0,
            r.0.spec_rx_relay().spec_rx() == rx,
            r.0.spec_rx_relay().buffered().len() == 0,
            r.0.spec_rx_relay().forwards().len() == 0,
            r.0.spec_rx_relay().statuses().len() == 0,
    {
        let buffer = match queue_limit {
            Some(l) => l,
            None => 3,
        };
        let (cmd_tx, cmd_rx) = bounded_channel(buffer);
        let client_relay = ClientRelay {
            id: id,
            name: name,
            queue_limit: queue_limit,
            tx_relay: ClientRelayTx::new(tx),
            rx_relay: ClientRelayRx::new(rx),
            cmd_rx: cmd_rx,
        };
        (client_relay, cmd_tx)
    }

    /// Carries out one command from the server. A command for another client
    /// stops the relay; so does a command that would put a queue over the
    /// limit. A message to send joins the end of the send queue; a reply
    /// waiting for a message or for the status joins the end of its queue;
    /// discarding empties the receive buffer; closing ends the relay.
    pub fn apply_command<EA, EB>(&mut self, cmd: Command<T, R>) -> (r: Result<CommandOutcome, RelayError<EA, EB>>)
        ensures
            final(self).spec_id() == old(self).spec_id(),
            final(self).limit() == old(self).limit(),
            final(self).spec_tx_relay().spec_tx() == old(self).spec_tx_relay().spec_tx(),
            final(self).spec_rx_relay().spec_rx() == old(self).spec_rx_relay().spec_rx(),
            final(self).spec_cmd_rx() == old(self).spec_cmd_rx(),
            match cmd {
                Command::Transmit(id, msg) => if id != old(self).spec_id() {
                    r matches Err(RelayError::IncorrectClientIdInCommand) && unchanged_queues(*old(self), *final(self))
                } else if !below_limit(old(self).limit(), old(self).spec_tx_relay().pending().len() as int) {
                    r matches Err(RelayError::QueueLimitExceeded(s)) && s@ == "tx_relay.buffer"@
                        && unchanged_queues(*old(self), *final(self))
                } else {
                    r == Ok::<CommandOutcome, RelayError<EA, EB>>(CommandOutcome::Continue)
                        && final(self).spec_tx_relay().pending() == old(self).spec_tx_relay().pending().push(msg)
                        && final(self).spec_rx_relay().buffered() == old(self).spec_rx_relay().buffered()
                        && final(self).spec_rx_relay().forwards() == old(self).spec_rx_relay().forwards()
                        && final(self).spec_rx_relay().statuses() == old(self).spec_rx_relay().statuses()
                },
                Command::ReceiveInto(id, _, reply) => if id != old(self).spec_id() {
                    r matches Err(RelayError::IncorrectClientIdInCommand) && unchanged_queues(*old(self), *final(self))
                } else if !below_limit(old(self).limit(), old(self).spec_rx_relay().forwards().len() as int) {
                    r matches Err(RelayError::QueueLimitExceeded(s)) && s@ == "forward_txs"@
                        && unchanged_queues(*old(self), *final(self))
                } else {
                    r == Ok::<CommandOutcome, RelayError<EA, EB>>(CommandOutcome::Continue)
                        && final(self).spec_rx_relay().forwards() == old(self).spec_rx_relay().forwards().push(reply)
                        && final(self).spec_tx_relay().pending() == old(self).spec_tx_relay().pending()
                        && final(self).spec_rx_relay().buffered() == old(self).spec_rx_relay().buffered()
                        && final(self).spec_rx_relay().statuses() == old(self).spec_rx_relay().statuses()
                },
                Command::DiscardReceiveBuffer(id) => if id != old(self).spec_id() {
                    r matches Err(RelayError::IncorrectClientIdInCommand) && unchanged_queues(*old(self), *final(self))
                } else {
                    r == Ok::<CommandOutcome, RelayError<EA, EB>>(CommandOutcome::Continue)
                        && final(self).spec_rx_relay().buffered().len() == 0
                        && final(self).spec_tx_relay().pending() == old(self).spec_tx_relay().pending()
                        && final(self).spec_rx_relay().forwards() == old(self).spec_rx_relay().forwards()
                        && final(self).spec_rx_relay().statuses() == old(self).spec_rx_relay().statuses()
                },
                Command::StatusInto(id, reply) => if id != old(self).spec_id() {
                    r matches Err(RelayError::IncorrectClientIdInCommand) && unchanged_queues(*old(self), *final(self))
                } else if !below_limit(old(self).limit(), old(self).spec_rx_relay().statuses().len() as int) {
                    r matches Err(RelayError::QueueLimitExceeded(s)) && s@ == "status_txs"@
                        && unchanged_queues(*old(self), *final(self))
                } else {
                    r == Ok::<CommandOutcome, RelayError<EA, EB>>(CommandOutcome::Continue)
                        && final(self).spec_rx_relay().statuses() == old(self).spec_rx_relay().statuses().push(reply)
                        && final(self).spec_tx_relay().pending() == old(self).spec_tx_relay().pending()
                        && final(self).spec_rx_relay().buffered() == old(self).spec_rx_relay().buffered()
                        && final(self).spec_rx_relay().forwards() == old(self).spec_rx_relay().forwards()
                },
                Command::Close(id) => if id != old(self).spec_id() {
                    r matches Err(RelayError::IncorrectClientIdInCommand) && unchanged_queues(*old(self), *final(self))
                } else {
                    r == Ok::<CommandOutcome, RelayError<EA, EB>>(CommandOutcome::Close)
                        && unchanged_queues(*old(self), *final(self))
                },
            },
    {
        proof {
            broadcast use vstd::string::group_string_axioms;
        }
        match cmd {
            Command::Transmit(id, msg) => {
                if !uuid_eq(&id, &self.id) {
                    return Err(RelayError::IncorrectClientIdInCommand);
                }
                if let Some(queue_limit) = self.queue_limit {
                    if self.tx_relay.buffer.len() >= queue_limit {
                        return Err(RelayError::QueueLimitExceeded("tx_relay.buffer".to_string()));
                    }
                }
                self.tx_relay.buffer.push_back(msg);
            },
            Command::ReceiveInto(id, _timeout, reply) => {
                if !uuid_eq(&id, &self.id) {
                    return Err(RelayError::IncorrectClientIdInCommand);
                }
                if let Some(queue_limit) = self.queue_limit {
                    if self.rx_relay.forward_txs.len() >= queue_limit {
                        return Err(RelayError::QueueLimitExceeded("forward_txs".to_string()));
                    }
                }
                self.rx_relay.forward_txs.push_back(reply);
            },
            Command::DiscardReceiveBuffer(id) => {
                if !uuid_eq(&id, &self.id) {
                    return Err(RelayError::IncorrectClientIdInCommand);
                }
                self.rx_relay.buffer.clear();
            },
            Command::StatusInto(id, reply) => {
                if !uuid_eq(&id, &self.id) {
                    return Err(RelayError::IncorrectClientIdInCommand);
                }
                if let Some(queue_limit) = self.queue_limit {
                    if self.rx_relay.status_txs.len() >= queue_limit {
                        return Err(RelayError::QueueLimitExceeded("status_txs".to_string()));
                    }
                }
                self.rx_relay.status_txs.push_back(reply);
            },
            Command::Close(id) => {
                if !uuid_eq(&id, &self.id) {
                    return Err(RelayError::IncorrectClientIdInCommand);
                }
                return Ok(CommandOutcome::Close);
            },
        }
        Ok(CommandOutcome::Continue)
    }

    /// Takes in a message from the client under the relay's own queue limit:
    /// it joins the end of the buffer, unless the buffer is at the limit,
    /// which stops the relay.
    pub fn receive_from_client<EA, EB>(&mut self, msg: R) -> (r: Result<(), RelayError<EA, EB>>)
        ensures
            final(self).spec_id() == old(self).spec_id(),
            final(self).limit() == old(self).limit(),
            final(self).spec_tx_relay() == old(self).spec_tx_relay(),
            final(self).spec_cmd_rx() == old(self).spec_cmd_rx(),
            final(self).spec_rx_relay().spec_rx() == old(self).spec_rx_relay().spec_rx(),
            final(self).spec_rx_relay().forwards() == old(self).spec_rx_relay().forwards(),
            final(self).spec_rx_relay().statuses() == old(self).spec_rx_relay().statuses(),
            match old(self).limit() {
                Some(l) if old(self).spec_rx_relay().buffered().len() >= l => r matches Err(RelayError::QueueLimitExceeded(s))
                    && s@ == "Tried to exceed msg rx queue capacity."@
                    && final(self).spec_rx_relay().buffered() == old(self).spec_rx_relay().buffered(),
                _ => r is Ok && final(self).spec_rx_relay().buffered() == old(self).spec_rx_relay().buffered().push(msg),
            },
    {
        self.rx_relay.receive(msg, self.queue_limit)
    }

    /// The error with which the relay stops when its command channel closes.
    pub fn commands_closed<EA, EB>() -> (e: RelayError<EA, EB>)
        ensures
            e matches RelayError::BrokenPipe(s) && s@ == "cmd_rx"@,
    {
        proof {
            broadcast use vstd::string::group_string_axioms;
        }
        RelayError::BrokenPipe("cmd_rx".to_string())
    }
}

/// No queue of the relay changed from `a` to `b`.
pub open spec fn unchanged_queues<A, B, T: Send, R: Send>(a: ClientRelay<A, B, T, R>, b: ClientRelay<A, B, T, R>) -> bool {
    &&& b.spec_tx_relay().pending() == a.spec_tx_relay().pending()
    &&& b.spec_rx_relay().buffered() == a.spec_rx_relay().buffered()
    &&& b.spec_rx_relay().forwards() == a.spec_rx_relay().forwards()
    &&& b.spec_rx_relay().statuses() == a.spec_rx_relay().statuses()
}

} // verus!
