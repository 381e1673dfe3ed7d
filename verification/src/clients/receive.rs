//! Receiving one message from each client of a group: each client is sent a
//! command to forward its next message into a one-shot reply, and then its
//! reply is awaited. The task that drives the group polls the commands and
//! the replies and hands each outcome back here.

use vstd::prelude::*;
use futures::sync::oneshot;
use crate::channels::oneshot_channel;
use super::{Cmd, RaceableOneshotSender};
use vstd::multiset::Multiset;
use super::command::{CommandMode, GroupCommand, GroupPoll, ids_ms, lemma_ids_ms_concat};

verus! {

/// Why a client of a group receive has no message.
#[derive(Clone, Debug)]
pub enum ReceiveFailure<E> {
    /// Sending it the receive command failed.
    Commanding(E),
    /// Its reply was dropped before a message came.
    Cancelled,
}

/// What polling one client's reply gave.
#[verifier::reject_recursive_types(M)]
pub enum ReplyOutcome<Id, S, M> {
    /// The message came.
    Ready(Id, S, M),
    /// No message yet.
    NotReady(Id, S, oneshot::Receiver<M>),
    /// The reply was dropped.
    Cancelled(Id),
}

/// The clients whose command went through, with their sink and the reply
/// to await, in order.
pub open spec fn replies_to_await<Id, S, M, E>(v: Seq<(Id, Result<(S, oneshot::Receiver<M>), E>)>) -> Seq<(Id, S, oneshot::Receiver<M>)>
    decreases v.len(),
{
    if v.len() == 0 {
        Seq::empty()
    } else {
        let rest = replies_to_await(v.drop_last());
        match v.last().1 {
            Ok(p) => rest.push((v.last().0, p.0, p.1)),
            Err(_) => rest,
        }
    }
}

/// The clients whose command failed, with the failure, in order.
pub open spec fn commanding_failures<Id, S, M, E>(v: Seq<(Id, Result<(S, oneshot::Receiver<M>), E>)>) -> Seq<(Id, Result<(M, S), ReceiveFailure<E>>)>
    decreases v.len(),
{
    if v.len() == 0 {
        Seq::empty()
    } else {
        let rest = commanding_failures(v.drop_last());
        match v.last().1 {
            Ok(_) => rest,
            Err(e) => rest.push((v.last().0, Err(ReceiveFailure::Commanding(e)))),
        }
    }
}

/// Whether some command in `v` failed.
pub open spec fn some_command_failed<Id, S, M, E>(v: Seq<(Id, Result<(S, oneshot::Receiver<M>), E>)>) -> bool {
    exists|k: int| 0 <= k < v.len() && (#[trigger] v[k]).1 is Err
}

/// The replies still awaited, in order.
pub open spec fn reply_retries<Id, S, M>(o: Seq<ReplyOutcome<Id, S, M>>) -> Seq<(Id, S, oneshot::Receiver<M>)>
    decreases o.len(),
{
    if o.len() == 0 {
        Seq::empty()
    } else {
        let rest = reply_retries(o.drop_last());
        match o.last() {
            ReplyOutcome::NotReady(id, s, rx) => rest.push((id, s, rx)),
            _ => rest,
        }
    }
}

/// The clients whose reply came or was dropped, with the message and sink
/// or the failure, in order.
pub open spec fn reply_completions<Id, S, M, E>(o: Seq<ReplyOutcome<Id, S, M>>) -> Seq<(Id, Result<(M, S), ReceiveFailure<E>>)>
    decreases o.len(),
{
    if o.len() == 0 {
        Seq::empty()
    } else {
        let rest = reply_completions(o.drop_last());
        match o.last() {
            ReplyOutcome::Ready(id, s, m) => rest.push((id, Ok((m, s)))),
            ReplyOutcome::Cancelled(id) => rest.push((id, Err(ReceiveFailure::Cancelled))),
            ReplyOutcome::NotReady(_, _, _) => rest,
        }
    }
}

/// The identifiers of the clients of the awaited replies `s`, counted with
/// repetition.
pub open spec fn awaited_ids<Id, S, M>(s: Seq<(Id, S, oneshot::Receiver<M>)>) -> Multiset<Id>
    decreases s.len(),
{
    if s.len() == 0 {
        Multiset::empty()
    } else {
        awaited_ids(s.drop_last()).insert(s.last().0)
    }
}

/// The identifiers of the clients that the outcomes of polling replies are
/// about, counted with repetition.
pub open spec fn reply_outcome_ids<Id, S, M>(o: Seq<ReplyOutcome<Id, S, M>>) -> Multiset<Id>
    decreases o.len(),
{
    if o.len() == 0 {
        Multiset::empty()
    } else {
        let rest = reply_outcome_ids(o.drop_last());
        match o.last() {
            ReplyOutcome::Ready(id, _, _) => rest.insert(id),
            ReplyOutcome::NotReady(id, _, _) => rest.insert(id),
            ReplyOutcome::Cancelled(id) => rest.insert(id),
        }
    }
}

proof fn lemma_awaited_ids_concat<Id, S, M>(a: Seq<(Id, S, oneshot::Receiver<M>)>, b: Seq<(Id, S, oneshot::Receiver<M>)>)
    ensures
        awaited_ids(a + b) == awaited_ids(a).add(awaited_ids(b)),
    decreases b.len(),
{
    broadcast use vstd::multiset::group_multiset_axioms;
    if b.len() == 0 {
        assert(a + b =~= a);
        assert(awaited_ids(a).add(awaited_ids(b)) =~= awaited_ids(a));
    } else {
        lemma_awaited_ids_concat(a, b.drop_last());
        assert((a + b).drop_last() =~= a + b.drop_last());
        assert((a + b).last() == b.last());
        assert(awaited_ids(a + b) =~= awaited_ids(a).add(awaited_ids(b)));
    }
}

/// Polling the awaited replies loses no client: the clients awaited again
/// and the clients completed are, counted with repetition, the clients the
/// outcomes are about; every reply not ready is awaited again with its
/// client and sink; every message that came completes its client with the
/// message and sink; every dropped reply completes its client with that
/// failure.
pub proof fn replies_conserve_clients<Id, S, M, E>(o: Seq<ReplyOutcome<Id, S, M>>)
    ensures
        awaited_ids(reply_retries(o)).add(ids_ms(reply_completions::<Id, S, M, E>(o))) == reply_outcome_ids(o),
        forall|i: int| #![trigger o[i]] 0 <= i < o.len() ==> (o[i] matches ReplyOutcome::NotReady(id, s, rx)
            ==> reply_retries(o).contains((id, s, rx))),
        forall|i: int| #![trigger o[i]] 0 <= i < o.len() ==> (o[i] matches ReplyOutcome::Ready(id, s, m)
            ==> reply_completions::<Id, S, M, E>(o).contains((id, Ok((m, s))))),
        forall|i: int| #![trigger o[i]] 0 <= i < o.len() ==> (o[i] matches ReplyOutcome::Cancelled(id)
            ==> reply_completions::<Id, S, M, E>(o).contains((id, Err(ReceiveFailure::Cancelled)))),
    decreases o.len(),
{
    broadcast use vstd::multiset::group_multiset_axioms;
    if o.len() == 0 {
        assert(awaited_ids(reply_retries(o)).add(ids_ms(reply_completions::<Id, S, M, E>(o))) =~= Multiset::empty());
    } else {
        let o1 = o.drop_last();
        let n = o.len() - 1;
        replies_conserve_clients::<Id, S, M, E>(o1);
        let r = reply_retries(o1);
        let c = reply_completions::<Id, S, M, E>(o1);
        let r2 = reply_retries(o);
        let c2 = reply_completions::<Id, S, M, E>(o);
        match o.last() {
            ReplyOutcome::Ready(id, s, m) => {
                assert(c2 == c.push((id, Ok((m, s)))));
                assert(c.push((id, Ok::<(M, S), ReceiveFailure<E>>((m, s)))).drop_last() =~= c);
                assert(ids_ms(c2) == ids_ms(c).insert(id));
                assert(r2 == r);
            },
            ReplyOutcome::NotReady(id, s, rx) => {
                assert(r2 == r.push((id, s, rx)));
                assert(r.push((id, s, rx)).drop_last() =~= r);
                assert(awaited_ids(r2) == awaited_ids(r).insert(id));
                assert(c2 == c);
            },
            ReplyOutcome::Cancelled(id) => {
                assert(c2 == c.push((id, Err(ReceiveFailure::Cancelled))));
                assert(c.push((id, Err::<(M, S), ReceiveFailure<E>>(ReceiveFailure::Cancelled))).drop_last() =~= c);
                assert(ids_ms(c2) == ids_ms(c).insert(id));
                assert(r2 == r);
            },
        }
        assert(awaited_ids(r2).add(ids_ms(c2)) =~= reply_outcome_ids(o));
        assert(r.is_prefix_of(r2));
        assert(c.is_prefix_of(c2));
        assert forall|i: int| #![trigger o[i]] 0 <= i < o.len() implies (o[i] matches ReplyOutcome::NotReady(id, s, rx)
            ==> r2.contains((id, s, rx))) by {
            if let ReplyOutcome::NotReady(id, s, rx) = o[i] {
                if i < n {
                    assert(o1[i] == o[i]);
                    let k = choose|k: int| 0 <= k < r.len() && r[k] == (id, s, rx);
                    assert(r2[k] == r[k]);
                } else {
                    assert(r2[r.len() as int] == (id, s, rx));
                }
            }
        }
        assert forall|i: int| #![trigger o[i]] 0 <= i < o.len() implies (o[i] matches ReplyOutcome::Ready(id, s, m)
            ==> c2.contains((id, Ok((m, s))))) by {
            if let ReplyOutcome::Ready(id, s, m) = o[i] {
                if i < n {
                    assert(o1[i] == o[i]);
                    let k = choose|k: int| 0 <= k < c.len() && c[k] == (id, Ok::<(M, S), ReceiveFailure<E>>((m, s)));
                    assert(c2[k] == c[k]);
                } else {
                    assert(c2[c.len() as int] == (id, Ok::<(M, S), ReceiveFailure<E>>((m, s))));
                }
            }
        }
        assert forall|i: int| #![trigger o[i]] 0 <= i < o.len() implies (o[i] matches ReplyOutcome::Cancelled(id)
            ==> c2.contains((id, Err(ReceiveFailure::Cancelled)))) by {
            if let ReplyOutcome::Cancelled(id) = o[i] {
                if i < n {
                    assert(o1[i] == o[i]);
                    let k = choose|k: int| 0 <= k < c.len() && c[k] == (id, Err::<(M, S), ReceiveFailure<E>>(ReceiveFailure::Cancelled));
                    assert(c2[k] == c[k]);
                } else {
                    assert(c2[c.len() as int] == (id, Err::<(M, S), ReceiveFailure<E>>(ReceiveFailure::Cancelled)));
                }
            }
        }
    }
}

/// What one outcome that is not `NotReady` completes its client with.
pub open spec fn completion_of<Id, S, M, E>(x: ReplyOutcome<Id, S, M>) -> (Id, Result<(M, S), ReceiveFailure<E>>) {
    match x {
        ReplyOutcome::Ready(id, s, m) => (id, Ok((m, s))),
        ReplyOutcome::NotReady(id, _, _) => (id, Err(ReceiveFailure::Cancelled)),
        ReplyOutcome::Cancelled(id) => (id, Err(ReceiveFailure::Cancelled)),
    }
}

/// Polling the awaited replies keeps their order: the replies awaited again
/// are, in order, exactly those of the outcomes that are `NotReady`, and the
/// clients completed are, in order, exactly those of the other outcomes.
pub proof fn replies_keep_order<Id, S, M, E>(o: Seq<ReplyOutcome<Id, S, M>>)
    ensures
        reply_retries(o) == o.filter(|x: ReplyOutcome<Id, S, M>| x is NotReady)
            .map_values(|x: ReplyOutcome<Id, S, M>| (x->NotReady_0, x->NotReady_1, x->NotReady_2)),
        reply_completions::<Id, S, M, E>(o) == o.filter(|x: ReplyOutcome<Id, S, M>| !(x is NotReady))
            .map_values(|x: ReplyOutcome<Id, S, M>| completion_of::<Id, S, M, E>(x)),
    decreases o.len(),
{
    reveal(Seq::filter);
    if o.len() > 0 {
        let o1 = o.drop_last();
        replies_keep_order::<Id, S, M, E>(o1);
        let x = o.last();
        let fa = o1.filter(|x: ReplyOutcome<Id, S, M>| x is NotReady);
        let fb = o1.filter(|x: ReplyOutcome<Id, S, M>| !(x is NotReady));
        if x is NotReady {
            assert(o.filter(|x: ReplyOutcome<Id, S, M>| x is NotReady) == fa.push(x));
            assert(fa.push(x).map_values(|x: ReplyOutcome<Id, S, M>| (x->NotReady_0, x->NotReady_1, x->NotReady_2))
                =~= fa.map_values(|x: ReplyOutcome<Id, S, M>| (x->NotReady_0, x->NotReady_1, x->NotReady_2))
                    .push((x->NotReady_0, x->NotReady_1, x->NotReady_2)));
            assert(o.filter(|x: ReplyOutcome<Id, S, M>| !(x is NotReady)) == fb);
        } else {
            assert(o.filter(|x: ReplyOutcome<Id, S, M>| x is NotReady) == fa);
            assert(o.filter(|x: ReplyOutcome<Id, S, M>| !(x is NotReady)) == fb.push(x));
            assert(fb.push(x).map_values(|x: ReplyOutcome<Id, S, M>| completion_of::<Id, S, M, E>(x))
                =~= fb.map_values(|x: ReplyOutcome<Id, S, M>| completion_of::<Id, S, M, E>(x))
                    .push(completion_of::<Id, S, M, E>(x)));
        }
    }
}

/// A message being received from each client of a group: the receive
/// commands being sent (each client's sink travels with the receiver of its
/// reply), the replies awaited, and the clients that completed and have not
/// been handed out yet. A client whose command failed keeps the group from
/// ever being done, as its reply can never be taken.
#[verifier::reject_recursive_types(M)]
pub struct GroupReceive<Id, S, M, E> {
    pub group_command: Option<GroupCommand<Id, (S, oneshot::Receiver<M>), M, E>>,
    stranded: bool,
    receive_queue: Vec<(Id, S, oneshot::Receiver<M>)>,
    completed: Vec<(Id, Result<(M, S), ReceiveFailure<E>>)>,
}

impl<Id, S, M, E> GroupReceive<Id, S, M, E> {
    /// The receive commands being sent, if any are left.
    pub closed spec fn commands(&self) -> Option<GroupCommand<Id, (S, oneshot::Receiver<M>), M, E>> {
        self.group_command
    }

    /// Whether the receive command of some client failed.
    pub closed spec fn is_stranded(&self) -> bool {
        self.stranded
    }

    /// The replies awaited, each with its client and sink, in order.
    pub closed spec fn awaited(&self) -> Seq<(Id, S, oneshot::Receiver<M>)> {
        self.receive_queue@
    }

    /// The clients that completed and have not been handed out, in order.
    pub closed spec fn done(&self) -> Seq<(Id, Result<(M, S), ReceiveFailure<E>>)> {
        self.completed@
    }

    /// A group receive over `clients`: each client is to be sent a command
    /// to forward its next message into a fresh one-shot reply, whose
    /// receiver travels with the client's sink.
    pub fn new(clients: Vec<(Id, S)>) -> (g: GroupReceive<Id, S, M, E>)
        where M: Clone,
        ensures
            g.commands() matches Some(c) && {
                &&& c.sends().len() == clients@.len()
                &&& forall|i: int| 0 <= i < clients@.len() ==> {
                    &&& (#[trigger] c.sends()[i]).0.0 == clients@[i].0
                    &&& c.sends()[i].0.1.0 == clients@[i].1
                    &&& (c.sends()[i].1 matches Cmd::ReceiveInto(r) && r.is_armed())
                }
                &&& c.flushing().len() == 0
                &&& c.done().len() == 0
            },
            !g.is_stranded(),
            g.awaited().len() == 0,
            g.done().len() == 0,
    {
        let ghost c0 = clients@;
        let mut clients = clients;
        let mut paired: Vec<(Id, (S, oneshot::Receiver<M>))> = Vec::new();
        let mut cmds: Vec<Cmd<M>> = Vec::new();
        let ghost mut i: int = 0;
        while clients.len() > 0
            invariant
                0 <= i <= c0.len(),
                clients@ == c0.skip(i),
                paired@.len() == i,
                cmds@.len() == i,
                forall|k: int| 0 <= k < i ==> {
                    &&& (#[trigger] paired@[k]).0 == c0[k].0
                    &&& paired@[k].1.0 == c0[k].1
                },
                forall|k: int| 0 <= k < i ==> ((#[trigger] cmds@[k]) matches Cmd::ReceiveInto(r) && r.is_armed()),
            decreases clients@.len(),
        {
            let (id, s) = clients.remove(0);
            proof {
                assert(c0.skip(i).drop_first() =~= c0.skip(i + 1));
            }
            let (reply_tx, reply_rx) = oneshot_channel();
            paired.push((id, (s, reply_rx)));
            cmds.push(Cmd::ReceiveInto(RaceableOneshotSender::new(reply_tx)));
            proof {
                i = i + 1;
            }
        }
        let ghost pv = paired@;
        let ghost cv = cmds@;
        let group_command = GroupCommand::new(paired, CommandMode::Lookup(cmds));
        proof {
            assert(c0.skip(i).len() == 0);
            let sm = group_command.sends().map_values(|x: ((Id, (S, oneshot::Receiver<M>)), Cmd<M>)| x.1);
            assert(sm == cv);
            assert forall|k: int| 0 <= k < c0.len() implies {
                &&& (#[trigger] group_command.sends()[k]).0.0 == c0[k].0
                &&& group_command.sends()[k].0.1.0 == c0[k].1
                &&& (group_command.sends()[k].1 matches Cmd::ReceiveInto(r) && r.is_armed())
            } by {
                assert(group_command.sends()[k].0 == pv[k]);
                assert(sm[k] == group_command.sends()[k].1);
                assert(cv[k] == sm[k]);
            }
        }
        GroupReceive { group_command: Some(group_command), stranded: false, receive_queue: Vec::new(), completed: Vec::new() }
    }

    /// Takes back the receive commands, with what polling them gave, and says
    /// whether to poll them again. Clients whose command went through join
    /// the end of the awaited replies; those whose command failed have
    /// completed with the failure and strand the group; the commands are
    /// polled again after a batch. Once every command has completed they are
    /// dropped; while some are still going they are kept.
    pub fn command_polled(
        &mut self,
        commands: GroupCommand<Id, (S, oneshot::Receiver<M>), M, E>,
        event: GroupPoll<(Id, Result<(S, oneshot::Receiver<M>), E>)>,
    ) -> (again: bool)
        requires
            old(self).commands() is None,
        ensures
            match event {
                GroupPoll::Ready(v) => {
                    &&& again
                    &&& final(self).commands() == Some(commands)
                    &&& final(self).awaited() == old(self).awaited() + replies_to_await(v@)
                    &&& final(self).done() == old(self).done() + commanding_failures(v@)
                    &&& final(self).is_stranded() == (old(self).is_stranded() || some_command_failed(v@))
                },
                GroupPoll::Done => {
                    &&& !again
                    &&& final(self).commands() is None
                    &&& final(self).awaited() == old(self).awaited()
                    &&& final(self).done() == old(self).done()
                    &&& final(self).is_stranded() == old(self).is_stranded()
                },
                GroupPoll::NotReady => {
                    &&& !again
                    &&& final(self).commands() == Some(commands)
                    &&& final(self).awaited() == old(self).awaited()
                    &&& final(self).done() == old(self).done()
                    &&& final(self).is_stranded() == old(self).is_stranded()
                },
            },
    {
        match event {
            GroupPoll::Ready(commanded) => {
                self.enqueue_for_receive(commanded);
                self.group_command = Some(commands);
                true
            },
            GroupPoll::Done => false,
            GroupPoll::NotReady => {
                self.group_command = Some(commands);
                false
            },
        }
    }

    /// Clients whose command went through join the end of the awaited
    /// replies; those whose command failed have completed with the failure.
    fn enqueue_for_receive(&mut self, commanded: Vec<(Id, Result<(S, oneshot::Receiver<M>), E>)>)
        ensures
            final(self).commands() == old(self).commands(),
            final(self).awaited() == old(self).awaited() + replies_to_await(commanded@),
            final(self).done() == old(self).done() + commanding_failures(commanded@),
            final(self).is_stranded() == (old(self).is_stranded() || some_command_failed(commanded@)),
    {
        let ghost v = commanded@;
        let ghost a0 = self.receive_queue@;
        let ghost d0 = self.completed@;
        let ghost st0 = self.stranded;
        let mut commanded = commanded;
        let ghost mut i: int = 0;
        while commanded.len() > 0
            invariant
                0 <= i <= v.len(),
                commanded@ == v.skip(i),
                self.group_command == old(self).group_command,
                self.receive_queue@ == a0 + replies_to_await(v.take(i)),
                self.completed@ == d0 + commanding_failures(v.take(i)),
                self.stranded == (st0 || some_command_failed(v.take(i))),
            decreases commanded@.len(),
        {
            let (id, result) = commanded.remove(0);
            proof {
                assert(v.take(i + 1).drop_last() =~= v.take(i));
                assert(v.take(i + 1).last() == v[i]);
                assert(v.skip(i).drop_first() =~= v.skip(i + 1));
            }
            let ghost rs = replies_to_await(v.take(i));
            let ghost ds = commanding_failures(v.take(i));
            match result {
                Ok((s, rx)) => {
                    let ghost item = (id, s, rx);
                    self.receive_queue.push((id, s, rx));
                    assert(self.receive_queue@ =~= a0 + rs.push(item));
                    proof {
                        if some_command_failed(v.take(i + 1)) {
                            let k = choose|k: int| 0 <= k < v.take(i + 1).len() && (#[trigger] v.take(i + 1)[k]).1 is Err;
                            assert(v.take(i)[k] == v.take(i + 1)[k]);
                        }
                        if some_command_failed(v.take(i)) {
                            let k = choose|k: int| 0 <= k < v.take(i).len() && (#[trigger] v.take(i)[k]).1 is Err;
                            assert(v.take(i + 1)[k] == v.take(i)[k]);
                        }
                    }
                },
                Err(e) => {
                    let ghost item = (id, Err::<(M, S), ReceiveFailure<E>>(ReceiveFailure::Commanding(e)));
                    self.completed.push((id, Err(ReceiveFailure::Commanding(e))));
                    self.stranded = true;
                    assert(self.completed@ =~= d0 + ds.push(item));
                    assert(v.take(i + 1)[i] == v[i]);
                },
            }
            proof {
                i = i + 1;
            }
        }
        assert(v.take(i) =~= v);
    }

    /// Hands out the awaited replies, to poll them.
    pub fn take_awaited(&mut self) -> (awaited: Vec<(Id, S, oneshot::Receiver<M>)>)
        ensures
            awaited@ == old(self).awaited(),
            final(self).awaited().len() == 0,
            final(self).commands() == old(self).commands(),
            final(self).done() == old(self).done(),
            final(self).is_stranded() == old(self).is_stranded(),
    {
        let mut awaited: Vec<(Id, S, oneshot::Receiver<M>)> = Vec::new();
        std::mem::swap(&mut awaited, &mut self.receive_queue);
        awaited
    }

    /// Takes in what polling each awaited reply gave, in order: a client
    /// whose message came has completed with it and its sink, a reply not
    /// ready yet is awaited again, and a client whose reply was dropped has
    /// completed with that failure.
    pub fn after_replies(&mut self, outcomes: Vec<ReplyOutcome<Id, S, M>>)
        ensures
            final(self).commands() == old(self).commands(),
            final(self).is_stranded() == old(self).is_stranded(),
            final(self).awaited() == old(self).awaited() + reply_retries(outcomes@),
            final(self).done() == old(self).done() + reply_completions::<Id, S, M, E>(outcomes@),
            awaited_ids(final(self).awaited()).add(ids_ms(final(self).done()))
                == awaited_ids(old(self).awaited()).add(ids_ms(old(self).done())).add(reply_outcome_ids(outcomes@)),
            final(self).awaited() == old(self).awaited() + outcomes@.filter(|x: ReplyOutcome<Id, S, M>| x is NotReady)
                .map_values(|x: ReplyOutcome<Id, S, M>| (x->NotReady_0, x->NotReady_1, x->NotReady_2)),
    {
        proof {
            replies_keep_order::<Id, S, M, E>(outcomes@);
        }
        let ghost o = outcomes@;
        let ghost a0 = self.receive_queue@;
        let ghost d0 = self.completed@;
        proof {
            broadcast use vstd::multiset::group_multiset_axioms;
            replies_conserve_clients::<Id, S, M, E>(o);
            lemma_awaited_ids_concat(a0, reply_retries(o));
            lemma_ids_ms_concat(d0, reply_completions::<Id, S, M, E>(o));
            assert(awaited_ids(a0 + reply_retries(o)).add(ids_ms(d0 + reply_completions::<Id, S, M, E>(o)))
                =~= awaited_ids(a0).add(ids_ms(d0)).add(reply_outcome_ids(o)));
        }
        let mut outcomes = outcomes;
        let ghost mut i: int = 0;
        while outcomes.len() > 0
            invariant
                0 <= i <= o.len(),
                outcomes@ == o.skip(i),
                self.group_command == old(self).group_command,
                self.stranded == old(self).stranded,
                self.receive_queue@ == a0 + reply_retries(o.take(i)),
                self.completed@ == d0 + reply_completions::<Id, S, M, E>(o.take(i)),
            decreases outcomes@.len(),
        {
            let outcome = outcomes.remove(0);
            proof {
                assert(o.take(i + 1).drop_last() =~= o.take(i));
                assert(o.take(i + 1).last() == o[i]);
                assert(o.skip(i).drop_first() =~= o.skip(i + 1));
            }
            let ghost rs = reply_retries(o.take(i));
            let ghost ds = reply_completions::<Id, S, M, E>(o.take(i));
            match outcome {
                ReplyOutcome::Ready(id, s, m) => {
                    let ghost item = (id, Ok::<(M, S), ReceiveFailure<E>>((m, s)));
                    self.completed.push((id, Ok((m, s))));
                    assert(self.completed@ =~= d0 + ds.push(item));
                },
                ReplyOutcome::NotReady(id, s, rx) => {
                    let ghost item = (id, s, rx);
                    self.receive_queue.push((id, s, rx));
                    assert(self.receive_queue@ =~= a0 + rs.push(item));
                },
                ReplyOutcome::Cancelled(id) => {
                    let ghost item = (id, Err::<(M, S), ReceiveFailure<E>>(ReceiveFailure::Cancelled));
                    self.completed.push((id, Err(ReceiveFailure::Cancelled)));
                    assert(self.completed@ =~= d0 + ds.push(item));
                },
            }
            proof {
                i = i + 1;
            }
        }
        assert(o.take(i) =~= o);
    }

    /// The group's poll: hands out the clients that completed, if there are
    /// any; otherwise the group is done when no command is left, none failed
    /// and no reply is awaited, and not ready while one is.
    pub fn poll_result(&mut self) -> (p: GroupPoll<(Id, Result<(M, S), ReceiveFailure<E>>)>)
        ensures
            final(self).commands() == old(self).commands(),
            final(self).is_stranded() == old(self).is_stranded(),
            final(self).awaited() == old(self).awaited(),
            final(self).done().len() == 0,
            old(self).done().len() > 0 ==> (p matches GroupPoll::Ready(v) && v@ == old(self).done()),
            old(self).done().len() == 0 ==> if old(self).commands() is None && !old(self).is_stranded()
                && old(self).awaited().len() == 0 {
                p is Done
            } else {
                p is NotReady
            },
    {
        if self.completed.len() > 0 {
            let mut completed: Vec<(Id, Result<(M, S), ReceiveFailure<E>>)> = Vec::new();
            std::mem::swap(&mut completed, &mut self.completed);
            GroupPoll::Ready(completed)
        } else if self.group_command.is_none() && !self.stranded && self.receive_queue.len() == 0 {
            GroupPoll::Done
        } else {
            GroupPoll::NotReady
        }
    }
}

} // verus!
