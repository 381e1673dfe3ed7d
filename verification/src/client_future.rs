//! A client connection driven as one task, commanded one command per poll:
//! queues of messages to send and received, replies waiting for messages, and
//! requests for the client's identifier.

use vstd::prelude::*;
use std::collections::VecDeque;
use futures::sync::{mpsc, oneshot};
use crate::channels::{bounded_channel, unbounded_channel};
use crate::clients::{QueueError, room_for, within};
use crate::net::pending::{completed, ids_of, keyed, lemma_settle_keyed, settle, still_pending, PollOutcome};

pub use crate::net::ClientKind;

verus! {

/// A command from the server to a client's connection.
#[verifier::reject_recursive_types(I)]
#[verifier::reject_recursive_types(M)]
pub enum ClientFutureCommand<I, M> {
    /// Queue a message to send to the client.
    Transmit(M),
    /// Queue a reply to complete with the next message from the client.
    Receive(oneshot::Sender<M>),
    /// Reply with the client's identifier.
    GetId(oneshot::Sender<I>),
}

/// A client's connection: identifier, sink and stream of messages to and
/// from the client, the server's command stream, and the queues.
#[verifier::reject_recursive_types(M)]
pub struct ClientFuture<I, S, T, C, M> {
    pub client_id: I,
    pub client_tx: S,
    pub client_rx: T,
    msg_tx_queue: VecDeque<M>,
    msg_rx_queue: VecDeque<M>,
    pub command_rx: C,
    msg_relay_tx_queue: VecDeque<oneshot::Sender<M>>,
    queue_limit: Option<usize>,
}

impl<I, S, T, C, M> ClientFuture<I, S, T, C, M> {
    /// The client's identifier.
    pub closed spec fn spec_client_id(&self) -> I {
        self.client_id
    }

    /// Messages waiting to be sent to the client, oldest first.
    pub closed spec fn tx_queue(&self) -> Seq<M> {
        self.msg_tx_queue@
    }

    /// Messages received from the client and not yet forwarded, oldest first.
    pub closed spec fn rx_queue(&self) -> Seq<M> {
        self.msg_rx_queue@
    }

    /// Replies waiting for a message from the client, oldest first.
    pub closed spec fn relay_queue(&self) -> Seq<oneshot::Sender<M>> {
        self.msg_relay_tx_queue@
    }

    /// The most items each queue may hold, if bounded.
    pub closed spec fn limit(&self) -> Option<usize> {
        self.queue_limit
    }

    /// Every queue holds at most `limit` items, if there is a limit.
    pub open spec fn within_limits(&self) -> bool {
        &&& within(self.limit(), self.tx_queue().len() as int)
        &&& within(self.limit(), self.rx_queue().len() as int)
        &&& within(self.limit(), self.relay_queue().len() as int)
    }

    /// A connection over the given channels, with empty queues that may
    /// hold at most `queue_limit` items each, if there is a limit.
    fn with_queues(client_id: I, client_tx: S, client_rx: T, command_rx: C, queue_limit: Option<usize>) -> (r: ClientFuture<I, S, T, C, M>)
        ensures
            r.spec_client_id() == client_id,
            r.limit() == queue_limit,
            r.tx_queue().len() == 0,
            r.rx_queue().len() == 0,
            r.relay_queue().len() == 0,
            r.within_limits(),
    {
        ClientFuture {
            client_id: client_id,
            client_tx: client_tx,
            client_rx: client_rx,
            msg_tx_queue: VecDeque::new(),
            msg_rx_queue: VecDeque::new(),
            command_rx: command_rx,
            msg_relay_tx_queue: VecDeque::new(),
            queue_limit: queue_limit,
        }
    }

    /// Takes in a command from the server: a message to send joins the end of
    /// the send queue and a reply joins the end of the reply queue, unless
    /// that queue is at the limit, which fails the connection; a request for
    /// the identifier is answered at once: its reply comes back with a copy
    /// of the identifier, for the caller to complete.
    pub fn handle_command(&mut self, command: ClientFutureCommand<I, M>) -> (r: Result<Option<(oneshot::Sender<I>, I)>, QueueError>)
        where I: Clone,
        requires
            old(self).within_limits(),
        ensures
            final(self).within_limits(),
            final(self).limit() == old(self).limit(),
            final(self).spec_client_id() == old(self).spec_client_id(),
            final(self).rx_queue() == old(self).rx_queue(),
            match command {
                ClientFutureCommand::Transmit(msg) => if room_for(old(self).limit(), old(self).tx_queue().len() as int) {
                    r == Ok::<Option<(oneshot::Sender<I>, I)>, QueueError>(None)
                        && final(self).tx_queue() == old(self).tx_queue().push(msg)
                        && final(self).relay_queue() == old(self).relay_queue()
                } else {
                    r == Err::<Option<(oneshot::Sender<I>, I)>, QueueError>(QueueError::TxQueueFull)
                        && final(self).tx_queue() == old(self).tx_queue()
                        && final(self).relay_queue() == old(self).relay_queue()
                },
                ClientFutureCommand::Receive(relay) => if room_for(old(self).limit(), old(self).relay_queue().len() as int) {
                    r == Ok::<Option<(oneshot::Sender<I>, I)>, QueueError>(None)
                        && final(self).relay_queue() == old(self).relay_queue().push(relay)
                        && final(self).tx_queue() == old(self).tx_queue()
                } else {
                    r == Err::<Option<(oneshot::Sender<I>, I)>, QueueError>(QueueError::RelayQueueFull)
                        && final(self).relay_queue() == old(self).relay_queue()
                        && final(self).tx_queue() == old(self).tx_queue()
                },
                ClientFutureCommand::GetId(reply) => (r matches Ok(Some(answer)) && answer.0 == reply
                    && cloned::<I>(old(self).spec_client_id(), answer.1))
                    && final(self).tx_queue() == old(self).tx_queue()
                    && final(self).relay_queue() == old(self).relay_queue(),
            },
    {
        match command {
            ClientFutureCommand::Transmit(msg_tx) => {
                if let Some(queue_limit) = self.queue_limit {
                    if self.msg_tx_queue.len() >= queue_limit {
                        return Err(QueueError::TxQueueFull);
                    }
                }
                self.msg_tx_queue.push_back(msg_tx);
                Ok(None)
            },
            ClientFutureCommand::Receive(msg_relay_tx) => {
                if let Some(queue_limit) = self.queue_limit {
                    if self.msg_relay_tx_queue.len() >= queue_limit {
                        return Err(QueueError::RelayQueueFull);
                    }
                }
                self.msg_relay_tx_queue.push_back(msg_relay_tx);
                Ok(None)
            },
            ClientFutureCommand::GetId(id_relay_tx) => {
                Ok(Some((id_relay_tx, self.client_id.clone())))
            },
        }
    }

    /// Takes the oldest message waiting to be sent, once the sink has taken
    /// the previous one.
    pub fn next_to_send(&mut self) -> (m: Option<M>)
        requires
            old(self).within_limits(),
        ensures
            final(self).within_limits(),
            final(self).limit() == old(self).limit(),
            final(self).rx_queue() == old(self).rx_queue(),
            final(self).relay_queue() == old(self).relay_queue(),
            old(self).tx_queue().len() == 0 ==> m is None && final(self).tx_queue() == old(self).tx_queue(),
            old(self).tx_queue().len() > 0 ==> m == Some(old(self).tx_queue()[0])
                && final(self).tx_queue() == old(self).tx_queue().drop_first(),
    {
        self.msg_tx_queue.pop_front()
    }

    /// Takes in a message from the client: it joins the end of the receive
    /// queue, unless that queue is at the limit, which fails the connection.
    pub fn receive_from_client(&mut self, msg: M) -> (r: Result<(), QueueError>)
        requires
            old(self).within_limits(),
        ensures
            final(self).within_limits(),
            final(self).tx_queue() == old(self).tx_queue(),
            final(self).relay_queue() == old(self).relay_queue(),
            final(self).limit() == old(self).limit(),
            room_for(old(self).limit(), old(self).rx_queue().len() as int) ==> r is Ok
                && final(self).rx_queue() == old(self).rx_queue().push(msg),
            !room_for(old(self).limit(), old(self).rx_queue().len() as int) ==> r
                == Err::<(), QueueError>(QueueError::RxQueueFull) && final(self).rx_queue() == old(self).rx_queue(),
    {
        if let Some(queue_limit) = self.queue_limit {
            if self.msg_rx_queue.len() >= queue_limit {
                return Err(QueueError::RxQueueFull);
            }
        }
        self.msg_rx_queue.push_back(msg);
        Ok(())
    }

    /// When a received message and a waiting reply are both queued, takes
    /// the oldest of each: the reply comes back with the message, for the
    /// caller to complete.
    pub fn forward(&mut self) -> (f: Option<(oneshot::Sender<M>, M)>)
        requires
            old(self).within_limits(),
        ensures
            final(self).within_limits(),
            final(self).tx_queue() == old(self).tx_queue(),
            final(self).limit() == old(self).limit(),
            if old(self).rx_queue().len() > 0 && old(self).relay_queue().len() > 0 {
                f == Some((old(self).relay_queue()[0], old(self).rx_queue()[0]))
                    && final(self).rx_queue() == old(self).rx_queue().drop_first()
                    && final(self).relay_queue() == old(self).relay_queue().drop_first()
            } else {
                f is None && final(self).rx_queue() == old(self).rx_queue()
                    && final(self).relay_queue() == old(self).relay_queue()
            },
    {
        if self.msg_rx_queue.len() > 0 && self.msg_relay_tx_queue.len() > 0 {
            let msg_rx = self.msg_rx_queue.pop_front();
            let relay_tx = self.msg_relay_tx_queue.pop_front();
            match (msg_rx, relay_tx) {
                (Some(m), Some(t)) => Some((t, m)),
                _ => None,
            }
        } else {
            None
        }
    }

    /// A copy of the client's identifier.
    pub fn client_id(&self) -> (id: I)
        where I: Clone,
        ensures
            cloned::<I>(self.spec_client_id(), id),
    {
        self.client_id.clone()
    }
}

impl<I, S, T, M> ClientFuture<I, S, T, mpsc::Receiver<ClientFutureCommand<I, M>>, M> {
    /// A connection whose queues hold at most `queue_limit` items each, and
    /// the sender of its command channel, which buffers `queue_limit` commands.
    pub fn bounded(client_id: I, client_tx: S, client_rx: T, queue_limit: usize) -> (r: (
        ClientFuture<I, S, T, mpsc::Receiver<ClientFutureCommand<I, M>>, M>,
        mpsc::Sender<ClientFutureCommand<I, M>>,
    ))
        requires
            queue_limit < usize::MAX / 4,
        ensures
            r.0.spec_client_id() == client_id,
            r.0.limit() == Some(queue_limit),
            r.0.tx_queue().len() == 0,
            r.0.rx_queue().len() == 0,
            r.0.relay_queue().len() == 0,
            r.0.within_limits(),
    {
        let (command_tx, command_rx) = bounded_channel(queue_limit);
        (ClientFuture::with_queues(client_id, client_tx, client_rx, command_rx, Some(queue_limit)), command_tx)
    }
}

impl<I, S, T, M> ClientFuture<I, S, T, mpsc::UnboundedReceiver<ClientFutureCommand<I, M>>, M> {
    /// A connection with unbounded queues, and the sender of its unbounded
    /// command channel.
    pub fn unbounded(client_id: I, client_tx: S, client_rx: T) -> (r: (
        ClientFuture<I, S, T, mpsc::UnboundedReceiver<ClientFutureCommand<I, M>>, M>,
        mpsc::UnboundedSender<ClientFutureCommand<I, M>>,
    ))
        ensures
            r.0.spec_client_id() == client_id,
            r.0.limit() is None,
            r.0.tx_queue().len() == 0,
            r.0.rx_queue().len() == 0,
            r.0.relay_queue().len() == 0,
            r.0.within_limits(),
    {
        let (command_tx, command_rx) = unbounded_channel();
        (ClientFuture::with_queues(client_id, client_tx, client_rx, command_rx, None), command_tx)
    }
}

/// The number of leading outcomes of `o` that are not failures.
pub open spec fn leading_successes<X>(o: Seq<PollOutcome<X>>) -> int
    decreases o.len(),
{
    if o.len() == 0 {
        0
    } else if o[0] is Failed {
        0
    } else {
        1 + leading_successes(o.drop_first())
    }
}

proof fn lemma_leading_successes<X>(o: Seq<PollOutcome<X>>)
    ensures
        0 <= leading_successes(o) <= o.len(),
        forall|k: int| 0 <= k < leading_successes(o) ==> !(#[trigger] o[k] is Failed),
        leading_successes(o) < o.len() ==> o[leading_successes(o)] is Failed,
    decreases o.len(),
{
    if o.len() > 0 && !(o[0] is Failed) {
        lemma_leading_successes(o.drop_first());
        assert forall|k: int| 0 <= k < leading_successes(o) implies !(#[trigger] o[k] is Failed) by {
            if k > 0 {
                assert(o[k] == o.drop_first()[k - 1]);
            }
        }
    }
}

/// `e` is `before` followed by the results of the completed operations of
/// `p` among the first `k`, each with a copy of its identifier.
pub open spec fn entries_extend<I: Clone, D, X>(
    e: Seq<(I, X)>,
    before: Seq<(I, X)>,
    p: Seq<(I, D)>,
    o: Seq<PollOutcome<X>>,
    k: int,
) -> bool {
    let done = completed(p.take(k), o.take(k));
    &&& e.len() == before.len() + done.len()
    &&& e.take(before.len() as int) == before
    &&& forall|j: int| 0 <= j < done.len() ==> {
        &&& (#[trigger] e[before.len() + j]).1 == done[j].1
        &&& cloned::<I>(done[j].0, e[before.len() + j].0)
    }
}

/// Why a group receive fails.
#[derive(Clone, Copy, Debug, PartialEq, Eq, Structural)]
pub enum ReceiveError {
    /// "Unspecified error.": a receive failed.
    Unspecified,
}

/// The receives still going, each with its client, and the messages and
/// command channels of the clients that answered.
pub struct Receive<I, C, D, M> {
    pub reads: Vec<(I, D)>,
    entries: Option<Vec<(I, (M, C))>>,
}

impl<I: Clone, C, D, M> Receive<I, C, D, M> {
    /// The receives still going.
    pub closed spec fn pending(&self) -> Seq<(I, D)> {
        self.reads@
    }

    /// Whether the entries have not been handed out yet.
    pub closed spec fn has_entries(&self) -> bool {
        self.entries is Some
    }

    /// The answers so far, in the order they came.
    pub closed spec fn entries_so_far(&self) -> Seq<(I, (M, C))> {
        match self.entries {
            Some(v) => v@,
            None => Seq::empty(),
        }
    }

    /// No client occurs twice among the clients that answered and those
    /// whose receive is still going.
    pub open spec fn well_keyed(&self) -> bool {
        keyed(self.entries_so_far(), self.pending())
    }

    /// A group receive over `reads`, none of them done yet.
    pub fn new(reads: Vec<(I, D)>) -> (s: Receive<I, C, D, M>)
        ensures
            s.pending() == reads@,
            ids_of(reads@).no_duplicates() ==> s.well_keyed(),
            s.has_entries(),
            s.entries_so_far() == Seq::<(I, (M, C))>::empty(),
    {
        let s = Receive { reads: reads, entries: Some(Vec::new()) };
        assert(ids_of(s.entries_so_far()) =~= Seq::<I>::empty());
        s
    }

    /// Hands out the answers so far.
    pub fn entries(self) -> (e: Vec<(I, (M, C))>)
        requires
            self.has_entries(),
        ensures
            e@ == self.entries_so_far(),
    {
        match self.entries {
            Some(e) => e,
            None => Vec::new(),
        }
    }

    /// Takes in the outcome of polling each receive, in the order of
    /// `pending`. If one failed, the group receive fails: the answers before
    /// the first failure join the entries and nothing else changes.
    /// Otherwise an answered receive joins the entries and leaves, the others
    /// stay, and once none is left all the entries are handed out.
    pub fn settle(&mut self, outcomes: Vec<PollOutcome<(M, C)>>) -> (r: Result<Option<Vec<(I, (M, C))>>, ReceiveError>)
        requires
            old(self).has_entries(),
            outcomes@.len() == old(self).pending().len(),
        ensures
            leading_successes(outcomes@) < outcomes@.len() ==> {
                &&& r == Err::<Option<Vec<(I, (M, C))>>, ReceiveError>(ReceiveError::Unspecified)
                &&& final(self).pending() == old(self).pending()
                &&& final(self).has_entries()
                &&& entries_extend(final(self).entries_so_far(), old(self).entries_so_far(), old(self).pending(), outcomes@,
                    leading_successes(outcomes@))
            },
            leading_successes(outcomes@) == outcomes@.len() ==> {
                &&& final(self).pending() == still_pending(old(self).pending(), outcomes@)
                &&& final(self).pending().len() == 0 ==> (r matches Ok(Some(e))
                    && e@ == old(self).entries_so_far() + completed(old(self).pending(), outcomes@)
                    && !final(self).has_entries())
                &&& final(self).pending().len() > 0 ==> (r matches Ok(None) && final(self).has_entries()
                    && final(self).entries_so_far() == old(self).entries_so_far() + completed(old(self).pending(), outcomes@))
            },
            leading_successes(outcomes@) == outcomes@.len() && old(self).well_keyed() ==> keyed(
                old(self).entries_so_far() + completed(old(self).pending(), outcomes@),
                final(self).pending(),
            ),
    {
        proof {
            if old(self).well_keyed() {
                let e0 = old(self).entries_so_far();
                let c = completed(old(self).pending(), outcomes@);
                lemma_settle_keyed(e0, old(self).pending(), outcomes@);
                assert(ids_of(e0 + c) =~= ids_of(e0) + ids_of(c));
            }
        }
        proof {
            lemma_leading_successes(outcomes@);
        }
        let ghost p = self.reads@;
        let ghost o = outcomes@;
        let mut k: usize = 0;
        while k < outcomes.len() && !outcomes[k].is_failed()
            invariant
                0 <= k <= outcomes@.len(),
                o == outcomes@,
                forall|j: int| 0 <= j < k ==> !(#[trigger] o[j] is Failed),
                0 <= leading_successes(o) <= o.len(),
                forall|j: int| 0 <= j < leading_successes(o) ==> !(#[trigger] o[j] is Failed),
                leading_successes(o) < o.len() ==> o[leading_successes(o)] is Failed,
                k <= leading_successes(o),
            decreases outcomes.len() - k,
        {
            k = k + 1;
        }
        let mut entries: Option<Vec<(I, (M, C))>> = None;
        std::mem::swap(&mut entries, &mut self.entries);
        let mut entries = match entries {
            Some(e) => e,
            None => Vec::new(),
        };
        if k < outcomes.len() {
            assert(k == leading_successes(o));
            let ghost e0 = entries@;
            let mut outcomes = outcomes;
            let mut j: usize = 0;
            assert(entries@.take(e0.len() as int) =~= e0);
            while j < k
                invariant
                    j <= k,
                    k < o.len(),
                    p.len() == o.len(),
                    p == self.reads@,
                    outcomes@ == o.skip(j as int),
                    entries_extend(entries@, e0, p, o, j as int),
                decreases k - j,
            {
                let outcome = outcomes.remove(0);
                let ghost before = entries@;
                proof {
                    assert(o.skip(j as int).drop_first() =~= o.skip(j + 1));
                    assert(p.take(j + 1).drop_last() =~= p.take(j as int));
                    assert(o.take(j + 1).drop_last() =~= o.take(j as int));
                }
                match outcome {
                    PollOutcome::Ready(x) => {
                        let id = self.reads[j].0.clone();
                        entries.push((id, x));
                    },
                    _ => {},
                }
                proof {
                    let done = completed(p.take(j + 1), o.take(j + 1));
                    let prev = completed(p.take(j as int), o.take(j as int));
                    assert(entries@.take(e0.len() as int) =~= e0) by {
                        assert(before.take(e0.len() as int) =~= e0);
                    }
                    assert forall|i: int| 0 <= i < done.len() implies {
                        &&& (#[trigger] entries@[e0.len() + i]).1 == done[i].1
                        &&& cloned::<I>(done[i].0, entries@[e0.len() + i].0)
                    } by {
                        if i < prev.len() {
                            assert(entries@[e0.len() + i] == before[e0.len() + i]);
                        }
                    }
                }
                j = j + 1;
            }
            self.entries = Some(entries);
            return Err(ReceiveError::Unspecified);
        }
        assert(k == o.len());
        let mut reads: Vec<(I, D)> = Vec::new();
        std::mem::swap(&mut reads, &mut self.reads);
        let (kept, mut done) = settle(reads, outcomes);
        self.reads = kept;
        entries.append(&mut done);
        if self.reads.len() == 0 {
            Ok(Some(entries))
        } else {
            self.entries = Some(entries);
            Ok(None)
        }
    }
}

/// A group receive that stops at a timeout: once the time is up, the answers
/// so far are handed out and the receives still going are dropped. The task
/// that drives it polls the timer and, until it fires, the receives.
pub struct TimedReceive<I, C, D, M> {
    pub receive: Option<Receive<I, C, D, M>>,
}

impl<I: Clone, C, D, M> TimedReceive<I, C, D, M> {
    /// The group receive, until the timeout ends it.
    pub closed spec fn receiving(&self) -> Option<Receive<I, C, D, M>> {
        self.receive
    }

    /// A timed receive over `reads`, none of them done yet.
    pub fn new(reads: Vec<(I, D)>) -> (t: TimedReceive<I, C, D, M>)
        ensures
            t.receiving() matches Some(r) && r.pending() == reads@ && r.has_entries()
                && r.entries_so_far().len() == 0,
            ids_of(reads@).no_duplicates() ==> (t.receiving() matches Some(r) && r.well_keyed()),
    {
        TimedReceive { receive: Some(Receive::new(reads)) }
    }

    /// The time is up: hands out the answers so far and drops the receives
    /// still going.
    pub fn timed_out(&mut self) -> (e: Vec<(I, (M, C))>)
        requires
            old(self).receiving() matches Some(r) && r.has_entries(),
        ensures
            match old(self).receiving() {
                Some(r) => e@ == r.entries_so_far(),
                None => false,
            },
            final(self).receiving() is None,
    {
        let mut receive: Option<Receive<I, C, D, M>> = None;
        std::mem::swap(&mut receive, &mut self.receive);
        match receive {
            Some(r) => r.entries(),
            None => Vec::new(),
        }
    }
}

} // verus!
