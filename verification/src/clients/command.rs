//! Sending one command to each client of a group through its command sink.
//! The task that drives a group starts sending the waiting commands and
//! flushes the sinks that took one, and hands each outcome back here; here
//! the queues are kept and the clients that completed are handed out.

use vstd::prelude::*;
use vstd::multiset::Multiset;
use super::Cmd;

verus! {

/// Which command each client of a group is sent.
#[verifier::reject_recursive_types(M)]
pub enum CommandMode<M> {
    /// A copy of this command for every client.
    Constant(Cmd<M>),
    /// For each client, the command at its position.
    Lookup(Vec<Cmd<M>>),
}

/// `cmds` are the commands that `mode` gives a group of `n` clients.
pub open spec fn commands_for<M: Clone>(mode: CommandMode<M>, n: int, cmds: Seq<Cmd<M>>) -> bool {
    &&& cmds.len() == n
    &&& match mode {
        CommandMode::Constant(c) => forall|i: int| 0 <= i < n ==> cloned::<Cmd<M>>(c, #[trigger] cmds[i]),
        CommandMode::Lookup(v) => cmds == v@,
    }
}

/// What starting to send one client's command gave.
#[verifier::reject_recursive_types(M)]
pub enum StartSendOutcome<Id, S, M, E> {
    /// The sink took the command: it is to be flushed.
    Ready(Id, S),
    /// The sink was not ready: the command is to be sent again.
    NotReady((Id, S), Cmd<M>),
    /// The sink failed and was dropped.
    Failed(Id, E),
}

/// What flushing one client's sink gave.
pub enum FlushOutcome<Id, S, E> {
    /// The command went through.
    Ready(Id, S),
    /// The sink is still flushing.
    NotReady(Id, S),
    /// The sink failed and was dropped.
    Failed(Id, E),
}

/// What polling a group operation gives.
pub enum GroupPoll<X> {
    /// The clients that completed since the last poll, in the order they did.
    Ready(Vec<X>),
    /// Every client has completed and been handed out.
    Done,
    /// Some clients are still going.
    NotReady,
}

/// The commands to send again, in order.
pub open spec fn send_retries<Id, S, M, E>(o: Seq<StartSendOutcome<Id, S, M, E>>) -> Seq<((Id, S), Cmd<M>)>
    decreases o.len(),
{
    if o.len() == 0 {
        Seq::empty()
    } else {
        let rest = send_retries(o.drop_last());
        match o.last() {
            StartSendOutcome::NotReady(c, cmd) => rest.push((c, cmd)),
            _ => rest,
        }
    }
}

/// The sinks to flush, in order.
pub open spec fn send_flushes<Id, S, M, E>(o: Seq<StartSendOutcome<Id, S, M, E>>) -> Seq<(Id, S)>
    decreases o.len(),
{
    if o.len() == 0 {
        Seq::empty()
    } else {
        let rest = send_flushes(o.drop_last());
        match o.last() {
            StartSendOutcome::Ready(id, s) => rest.push((id, s)),
            _ => rest,
        }
    }
}

/// The clients whose sink failed on sending, with the error, in order.
pub open spec fn send_failures<Id, S, M, E>(o: Seq<StartSendOutcome<Id, S, M, E>>) -> Seq<(Id, Result<S, E>)>
    decreases o.len(),
{
    if o.len() == 0 {
        Seq::empty()
    } else {
        let rest = send_failures(o.drop_last());
        match o.last() {
            StartSendOutcome::Failed(id, e) => rest.push((id, Err(e))),
            _ => rest,
        }
    }
}

/// The sinks still flushing, in order.
pub open spec fn flush_retries<Id, S, E>(o: Seq<FlushOutcome<Id, S, E>>) -> Seq<(Id, S)>
    decreases o.len(),
{
    if o.len() == 0 {
        Seq::empty()
    } else {
        let rest = flush_retries(o.drop_last());
        match o.last() {
            FlushOutcome::NotReady(id, s) => rest.push((id, s)),
            _ => rest,
        }
    }
}

/// The clients whose flush ended, with their sink or its error, in order.
pub open spec fn flush_completions<Id, S, E>(o: Seq<FlushOutcome<Id, S, E>>) -> Seq<(Id, Result<S, E>)>
    decreases o.len(),
{
    if o.len() == 0 {
        Seq::empty()
    } else {
        let rest = flush_completions(o.drop_last());
        match o.last() {
            FlushOutcome::Ready(id, s) => rest.push((id, Ok(s))),
            FlushOutcome::Failed(id, e) => rest.push((id, Err(e))),
            FlushOutcome::NotReady(_, _) => rest,
        }
    }
}

/// The identifiers of the entries of `s`, counted with repetition.
pub open spec fn ids_ms<Id, X>(s: Seq<(Id, X)>) -> Multiset<Id>
    decreases s.len(),
{
    if s.len() == 0 {
        Multiset::empty()
    } else {
        ids_ms(s.drop_last()).insert(s.last().0)
    }
}

/// The identifiers of the clients of the commands `s`, counted with repetition.
pub open spec fn sends_ms<Id, S, M>(s: Seq<((Id, S), Cmd<M>)>) -> Multiset<Id>
    decreases s.len(),
{
    if s.len() == 0 {
        Multiset::empty()
    } else {
        sends_ms(s.drop_last()).insert(s.last().0.0)
    }
}

/// The identifiers of the clients that the outcomes of sending are about.
pub open spec fn send_outcome_ids<Id, S, M, E>(o: Seq<StartSendOutcome<Id, S, M, E>>) -> Multiset<Id>
    decreases o.len(),
{
    if o.len() == 0 {
        Multiset::empty()
    } else {
        let rest = send_outcome_ids(o.drop_last());
        match o.last() {
            StartSendOutcome::Ready(id, _) => rest.insert(id),
            StartSendOutcome::NotReady(c, _) => rest.insert(c.0),
            StartSendOutcome::Failed(id, _) => rest.insert(id),
        }
    }
}

/// The identifiers of the clients that the outcomes of flushing are about.
pub open spec fn flush_outcome_ids<Id, S, E>(o: Seq<FlushOutcome<Id, S, E>>) -> Multiset<Id>
    decreases o.len(),
{
    if o.len() == 0 {
        Multiset::empty()
    } else {
        let rest = flush_outcome_ids(o.drop_last());
        match o.last() {
            FlushOutcome::Ready(id, _) => rest.insert(id),
            FlushOutcome::NotReady(id, _) => rest.insert(id),
            FlushOutcome::Failed(id, _) => rest.insert(id),
        }
    }
}

pub(crate) proof fn lemma_ids_ms_concat<Id, X>(a: Seq<(Id, X)>, b: Seq<(Id, X)>)
    ensures
        ids_ms(a + b) == ids_ms(a).add(ids_ms(b)),
    decreases b.len(),
{
    broadcast use vstd::multiset::group_multiset_axioms;
    if b.len() == 0 {
        assert(a + b =~= a);
        assert(ids_ms(a).add(ids_ms(b)) =~= ids_ms(a));
    } else {
        lemma_ids_ms_concat(a, b.drop_last());
        assert((a + b).drop_last() =~= a + b.drop_last());
        assert((a + b).last() == b.last());
        assert(ids_ms(a + b) =~= ids_ms(a).add(ids_ms(b)));
    }
}

proof fn lemma_sends_ms_concat<Id, S, M>(a: Seq<((Id, S), Cmd<M>)>, b: Seq<((Id, S), Cmd<M>)>)
    ensures
        sends_ms(a + b) == sends_ms(a).add(sends_ms(b)),
    decreases b.len(),
{
    broadcast use vstd::multiset::group_multiset_axioms;
    if b.len() == 0 {
        assert(a + b =~= a);
        assert(sends_ms(a).add(sends_ms(b)) =~= sends_ms(a));
    } else {
        lemma_sends_ms_concat(a, b.drop_last());
        assert((a + b).drop_last() =~= a + b.drop_last());
        assert((a + b).last() == b.last());
        assert(sends_ms(a + b) =~= sends_ms(a).add(sends_ms(b)));
    }
}

proof fn lemma_send_outcomes<Id, S, M, E>(o: Seq<StartSendOutcome<Id, S, M, E>>)
    ensures
        sends_ms(send_retries(o)).add(ids_ms(send_flushes(o))).add(ids_ms(send_failures(o))) == send_outcome_ids(o),
    decreases o.len(),
{
    broadcast use vstd::multiset::group_multiset_axioms;
    if o.len() == 0 {
        assert(sends_ms(send_retries(o)).add(ids_ms(send_flushes(o))).add(ids_ms(send_failures(o))) =~= Multiset::empty());
    } else {
        let o1 = o.drop_last();
        lemma_send_outcomes(o1);
        let r = send_retries(o1);
        let f = send_flushes(o1);
        let d = send_failures(o1);
        match o.last() {
            StartSendOutcome::Ready(id, sink) => {
                assert(send_flushes(o) == f.push((id, sink)));
                assert(f.push((id, sink)).drop_last() =~= f);
                assert(ids_ms(send_flushes(o)) == ids_ms(f).insert(id));
            },
            StartSendOutcome::NotReady(c, cmd) => {
                assert(send_retries(o) == r.push((c, cmd)));
                assert(r.push((c, cmd)).drop_last() =~= r);
                assert(sends_ms(send_retries(o)) == sends_ms(r).insert(c.0));
            },
            StartSendOutcome::Failed(id, e) => {
                assert(send_failures(o) == d.push((id, Err(e))));
                assert(d.push((id, Err(e))).drop_last() =~= d);
                assert(ids_ms(send_failures(o)) == ids_ms(d).insert(id));
            },
        }
        assert(sends_ms(send_retries(o)).add(ids_ms(send_flushes(o))).add(ids_ms(send_failures(o))) =~= send_outcome_ids(o));
    }
}

proof fn lemma_flush_outcomes<Id, S, E>(o: Seq<FlushOutcome<Id, S, E>>)
    ensures
        ids_ms(flush_retries(o)).add(ids_ms(flush_completions(o))) == flush_outcome_ids(o),
    decreases o.len(),
{
    broadcast use vstd::multiset::group_multiset_axioms;
    if o.len() == 0 {
        assert(ids_ms(flush_retries(o)).add(ids_ms(flush_completions(o))) =~= Multiset::empty());
    } else {
        let o1 = o.drop_last();
        lemma_flush_outcomes(o1);
        let r = flush_retries(o1);
        let c = flush_completions(o1);
        match o.last() {
            FlushOutcome::Ready(id, sink) => {
                assert(flush_completions(o) == c.push((id, Ok(sink))));
                assert(c.push((id, Ok(sink))).drop_last() =~= c);
                assert(ids_ms(flush_completions(o)) == ids_ms(c).insert(id));
            },
            FlushOutcome::NotReady(id, sink) => {
                assert(flush_retries(o) == r.push((id, sink)));
                assert(r.push((id, sink)).drop_last() =~= r);
                assert(ids_ms(flush_retries(o)) == ids_ms(r).insert(id));
            },
            FlushOutcome::Failed(id, e) => {
                assert(flush_completions(o) == c.push((id, Err(e))));
                assert(c.push((id, Err(e))).drop_last() =~= c);
                assert(ids_ms(flush_completions(o)) == ids_ms(c).insert(id));
            },
        }
        assert(ids_ms(flush_retries(o)).add(ids_ms(flush_completions(o))) =~= flush_outcome_ids(o));
    }
}

/// A command being sent to each client of a group: the commands still to be
/// sent, the sinks being flushed, and the clients that completed and have
/// not been handed out yet, each with its sink or the sink's error.
#[verifier::reject_recursive_types(M)]
pub struct GroupCommand<Id, S, M, E> {
    send_queue: Vec<((Id, S), Cmd<M>)>,
    flushing_queue: Vec<(Id, S)>,
    completed: Vec<(Id, Result<S, E>)>,
}

impl<Id, S, M, E> GroupCommand<Id, S, M, E> {
    /// The commands still to be sent, each with its client, in order.
    pub closed spec fn sends(&self) -> Seq<((Id, S), Cmd<M>)> {
        self.send_queue@
    }

    /// The sinks being flushed, each with its client, in order.
    pub closed spec fn flushing(&self) -> Seq<(Id, S)> {
        self.flushing_queue@
    }

    /// The clients that completed and have not been handed out, in order.
    pub closed spec fn done(&self) -> Seq<(Id, Result<S, E>)> {
        self.completed@
    }

    /// The identifiers of the clients in the group, sending, flushing or
    /// completed, counted with repetition.
    pub open spec fn in_group(&self) -> Multiset<Id> {
        sends_ms(self.sends()).add(ids_ms(self.flushing())).add(ids_ms(self.done()))
    }

    /// Each client of `clients` paired with the command that `cmds` gives it.
    /// A lookup has one command per client, as a missing command has no
    /// meaning.
    pub fn new(clients: Vec<(Id, S)>, cmds: CommandMode<M>) -> (g: GroupCommand<Id, S, M, E>)
        where M: Clone,
        requires
            cmds matches CommandMode::Lookup(v) ==> v@.len() == clients@.len(),
        ensures
            g.sends().len() == clients@.len(),
            forall|i: int| 0 <= i < clients@.len() ==> (#[trigger] g.sends()[i]).0 == clients@[i],
            commands_for(cmds, clients@.len() as int, g.sends().map_values(|x: ((Id, S), Cmd<M>)| x.1)),
            g.flushing().len() == 0,
            g.done().len() == 0,
            g.in_group() == ids_ms(clients@),
    {
        let ghost c0 = clients@;
        let mut clients = clients;
        let mut send_queue: Vec<((Id, S), Cmd<M>)> = Vec::new();
        let ghost mut i: int = 0;
        match cmds {
            CommandMode::Constant(cmd) => {
                while clients.len() > 0
                    invariant
                        0 <= i <= c0.len(),
                        clients@ == c0.skip(i),
                        send_queue@.len() == i,
                        forall|k: int| 0 <= k < i ==> (#[trigger] send_queue@[k]).0 == c0[k]
                            && cloned::<Cmd<M>>(cmd, send_queue@[k].1),
                    decreases clients@.len(),
                {
                    let client = clients.remove(0);
                    proof {
                        assert(c0.skip(i).drop_first() =~= c0.skip(i + 1));
                    }
                    send_queue.push((client, cmd.clone()));
                    proof {
                        i = i + 1;
                    }
                }
            },
            CommandMode::Lookup(lookup) => {
                let ghost v0 = lookup@;
                let mut lookup = lookup;
                while clients.len() > 0
                    invariant
                        0 <= i <= c0.len(),
                        v0.len() == c0.len(),
                        clients@ == c0.skip(i),
                        lookup@ == v0.skip(i),
                        send_queue@.len() == i,
                        forall|k: int| 0 <= k < i ==> (#[trigger] send_queue@[k]).0 == c0[k] && send_queue@[k].1 == v0[k],
                    decreases clients@.len(),
                {
                    let client = clients.remove(0);
                    let cmd = lookup.remove(0);
                    proof {
                        assert(c0.skip(i).drop_first() =~= c0.skip(i + 1));
                        assert(v0.skip(i).drop_first() =~= v0.skip(i + 1));
                    }
                    send_queue.push((client, cmd));
                    proof {
                        i = i + 1;
                    }
                }
                assert(send_queue@.map_values(|x: ((Id, S), Cmd<M>)| x.1) =~= v0);
            },
        }
        let g = GroupCommand { send_queue: send_queue, flushing_queue: Vec::new(), completed: Vec::new() };
        proof {
            broadcast use vstd::multiset::group_multiset_axioms;
            assert(c0.skip(i).len() == 0);
            lemma_same_ids(g.sends(), c0);
            assert(g.in_group() =~= ids_ms(c0));
        }
        g
    }

    /// Hands out the commands still to be sent, to start sending them.
    pub fn take_sends(&mut self) -> (sends: Vec<((Id, S), Cmd<M>)>)
        ensures
            sends@ == old(self).sends(),
            final(self).sends().len() == 0,
            final(self).flushing() == old(self).flushing(),
            final(self).done() == old(self).done(),
            final(self).in_group().add(sends_ms(sends@)) == old(self).in_group(),
    {
        let mut sends: Vec<((Id, S), Cmd<M>)> = Vec::new();
        std::mem::swap(&mut sends, &mut self.send_queue);
        proof {
            broadcast use vstd::multiset::group_multiset_axioms;
            assert(self.in_group().add(sends_ms(sends@)) =~= old(self).in_group());
        }
        sends
    }

    /// Takes in what starting to send each command gave, in order: a sink
    /// that took its command is to be flushed, a command that its sink was
    /// not ready for is to be sent again, and a client whose sink failed has
    /// completed with the error.
    pub fn after_sends(&mut self, outcomes: Vec<StartSendOutcome<Id, S, M, E>>)
        ensures
            final(self).sends() == old(self).sends() + send_retries(outcomes@),
            final(self).flushing() == old(self).flushing() + send_flushes(outcomes@),
            final(self).done() == old(self).done() + send_failures(outcomes@),
            final(self).in_group() == old(self).in_group().add(send_outcome_ids(outcomes@)),
    {
        let ghost o = outcomes@;
        let ghost s0 = self.send_queue@;
        let ghost f0 = self.flushing_queue@;
        let ghost d0 = self.completed@;
        let mut outcomes = outcomes;
        let ghost mut i: int = 0;
        while outcomes.len() > 0
            invariant
                0 <= i <= o.len(),
                outcomes@ == o.skip(i),
                self.send_queue@ == s0 + send_retries(o.take(i)),
                self.flushing_queue@ == f0 + send_flushes(o.take(i)),
                self.completed@ == d0 + send_failures(o.take(i)),
            decreases outcomes@.len(),
        {
            let outcome = outcomes.remove(0);
            proof {
                assert(o.take(i + 1).drop_last() =~= o.take(i));
                assert(o.take(i + 1).last() == o[i]);
                assert(o.skip(i).drop_first() =~= o.skip(i + 1));
            }
            let ghost rs = send_retries(o.take(i));
            let ghost fs = send_flushes(o.take(i));
            let ghost ds = send_failures(o.take(i));
            match outcome {
                StartSendOutcome::Ready(id, s) => {
                    let ghost item = (id, s);
                    self.flushing_queue.push((id, s));
                    assert(self.flushing_queue@ =~= f0 + fs.push(item));
                },
                StartSendOutcome::NotReady(c, cmd) => {
                    let ghost item = (c, cmd);
                    self.send_queue.push((c, cmd));
                    assert(self.send_queue@ =~= s0 + rs.push(item));
                },
                StartSendOutcome::Failed(id, e) => {
                    let ghost item = (id, Err::<S, E>(e));
                    self.completed.push((id, Err(e)));
                    assert(self.completed@ =~= d0 + ds.push(item));
                },
            }
            proof {
                i = i + 1;
            }
        }
        assert(o.take(i) =~= o);
        proof {
            broadcast use vstd::multiset::group_multiset_axioms;
            lemma_sends_ms_concat(s0, send_retries(o));
            lemma_ids_ms_concat(f0, send_flushes(o));
            lemma_ids_ms_concat(d0, send_failures(o));
            lemma_send_outcomes(o);
            assert(self.in_group() =~= old(self).in_group().add(send_outcome_ids(o)));
        }
    }

    /// Hands out the sinks being flushed, to go on flushing them.
    pub fn take_flushing(&mut self) -> (flushing: Vec<(Id, S)>)
        ensures
            flushing@ == old(self).flushing(),
            final(self).flushing().len() == 0,
            final(self).sends() == old(self).sends(),
            final(self).done() == old(self).done(),
            final(self).in_group().add(ids_ms(flushing@)) == old(self).in_group(),
    {
        let mut flushing: Vec<(Id, S)> = Vec::new();
        std::mem::swap(&mut flushing, &mut self.flushing_queue);
        proof {
            broadcast use vstd::multiset::group_multiset_axioms;
            assert(self.in_group().add(ids_ms(flushing@)) =~= old(self).in_group());
        }
        flushing
    }

    /// Takes in what flushing each sink gave, in order: a flushed sink's
    /// client has completed with its sink, a sink still flushing is to be
    /// flushed again, and a client whose sink failed has completed with the
    /// error.
    pub fn after_flushes(&mut self, outcomes: Vec<FlushOutcome<Id, S, E>>)
        ensures
            final(self).sends() == old(self).sends(),
            final(self).flushing() == old(self).flushing() + flush_retries(outcomes@),
            final(self).done() == old(self).done() + flush_completions(outcomes@),
            final(self).in_group() == old(self).in_group().add(flush_outcome_ids(outcomes@)),
    {
        let ghost o = outcomes@;
        let ghost f0 = self.flushing_queue@;
        let ghost d0 = self.completed@;
        let mut outcomes = outcomes;
        let ghost mut i: int = 0;
        while outcomes.len() > 0
            invariant
                0 <= i <= o.len(),
                outcomes@ == o.skip(i),
                self.send_queue@ == old(self).send_queue@,
                self.flushing_queue@ == f0 + flush_retries(o.take(i)),
                self.completed@ == d0 + flush_completions(o.take(i)),
            decreases outcomes@.len(),
        {
            let outcome = outcomes.remove(0);
            proof {
                assert(o.take(i + 1).drop_last() =~= o.take(i));
                assert(o.take(i + 1).last() == o[i]);
                assert(o.skip(i).drop_first() =~= o.skip(i + 1));
            }
            let ghost fs = flush_retries(o.take(i));
            let ghost ds = flush_completions(o.take(i));
            match outcome {
                FlushOutcome::Ready(id, s) => {
                    let ghost item = (id, Ok::<S, E>(s));
                    self.completed.push((id, Ok(s)));
                    assert(self.completed@ =~= d0 + ds.push(item));
                },
                FlushOutcome::NotReady(id, s) => {
                    let ghost item = (id, s);
                    self.flushing_queue.push((id, s));
                    assert(self.flushing_queue@ =~= f0 + fs.push(item));
                },
                FlushOutcome::Failed(id, e) => {
                    let ghost item = (id, Err::<S, E>(e));
                    self.completed.push((id, Err(e)));
                    assert(self.completed@ =~= d0 + ds.push(item));
                },
            }
            proof {
                i = i + 1;
            }
        }
        assert(o.take(i) =~= o);
        proof {
            broadcast use vstd::multiset::group_multiset_axioms;
            lemma_ids_ms_concat(f0, flush_retries(o));
            lemma_ids_ms_concat(d0, flush_completions(o));
            lemma_flush_outcomes(o);
            assert(self.in_group() =~= old(self).in_group().add(flush_outcome_ids(o)));
        }
    }

    /// The group's poll: hands out the clients that completed, if there are
    /// any; otherwise the group is done when nothing is left to send or
    /// flush, and not ready while something is.
    pub fn poll_result(&mut self) -> (p: GroupPoll<(Id, Result<S, E>)>)
        ensures
            final(self).sends() == old(self).sends(),
            final(self).flushing() == old(self).flushing(),
            final(self).done().len() == 0,
            old(self).done().len() > 0 ==> (p matches GroupPoll::Ready(v) && v@ == old(self).done()
                && final(self).in_group().add(ids_ms(v@)) == old(self).in_group()),
            old(self).done().len() == 0 ==> final(self).in_group() == old(self).in_group(),
            old(self).done().len() == 0 ==> if old(self).sends().len() == 0 && old(self).flushing().len() == 0 {
                p is Done
            } else {
                p is NotReady
            },
    {
        if self.completed.len() > 0 {
            let mut completed: Vec<(Id, Result<S, E>)> = Vec::new();
            std::mem::swap(&mut completed, &mut self.completed);
            proof {
                broadcast use vstd::multiset::group_multiset_axioms;
                assert(self.in_group().add(ids_ms(completed@)) =~= old(self).in_group());
            }
            GroupPoll::Ready(completed)
        } else if self.send_queue.len() == 0 && self.flushing_queue.len() == 0 {
            GroupPoll::Done
        } else {
            GroupPoll::NotReady
        }
    }
}

proof fn lemma_same_ids<Id, S, M>(q: Seq<((Id, S), Cmd<M>)>, c: Seq<(Id, S)>)
    requires
        q.len() == c.len(),
        forall|i: int| 0 <= i < c.len() ==> (#[trigger] q[i]).0 == c[i],
    ensures
        sends_ms(q) == ids_ms(c),
    decreases c.len(),
{
    if c.len() > 0 {
        lemma_same_ids(q.drop_last(), c.drop_last());
        assert(q.last().0 == c.last());
    }
}

/// Every client of a group command is handed out exactly once. Along a run,
/// what the group holds (`in_group`), what the driving task has taken and
/// not handed back (`held`), and what was handed out in batches (`handed`)
/// make up the clients' identifiers: `new` starts with all of them in the
/// group, and each step keeps the sum when the task hands back, for what it
/// took, outcomes of the same clients. So when the group is done and the
/// task holds nothing, the batches handed out hold each client's identifier
/// exactly as often as the clients do.
pub proof fn each_client_completes_once<Id, S, M, E>(
    g: GroupCommand<Id, S, M, E>,
    held: Multiset<Id>,
    handed: Multiset<Id>,
    clients: Multiset<Id>,
)
    requires
        g.in_group().add(held).add(handed) == clients,
        g.sends().len() == 0,
        g.flushing().len() == 0,
        g.done().len() == 0,
        held.len() == 0,
    ensures
        handed == clients,
{
    broadcast use vstd::multiset::group_multiset_axioms;
    assert(g.sends() =~= Seq::<((Id, S), Cmd<M>)>::empty());
    assert(g.flushing() =~= Seq::<(Id, S)>::empty());
    assert(g.done() =~= Seq::<(Id, Result<S, E>)>::empty());
    assert(held =~= Multiset::empty());
    assert(g.in_group().add(held).add(handed) =~= handed);
}

/// The items of `batches`, batch after batch.
pub open spec fn concat_all<X>(batches: Seq<Seq<X>>) -> Seq<X>
    decreases batches.len(),
{
    if batches.len() == 0 {
        Seq::empty()
    } else {
        concat_all(batches.drop_last()) + batches.last()
    }
}

/// All the items of the batches that a group operation handed out, batch
/// after batch.
pub fn flatten<X>(batches: Vec<Vec<X>>) -> (items: Vec<X>)
    ensures
        items@ == concat_all(batches@.map_values(|b: Vec<X>| b@)),
{
    let ghost bv = batches@;
    let ghost bs = bv.map_values(|b: Vec<X>| b@);
    let mut batches = batches;
    let mut items: Vec<X> = Vec::new();
    let ghost mut i: int = 0;
    while batches.len() > 0
        invariant
            0 <= i <= bv.len(),
            bs == bv.map_values(|b: Vec<X>| b@),
            batches@ == bv.skip(i),
            items@ == concat_all(bs.take(i)),
        decreases batches@.len(),
    {
        let mut batch = batches.remove(0);
        proof {
            assert(batch == bv[i]);
            assert(bv.skip(i).drop_first() =~= bv.skip(i + 1));
            assert(bs.take(i + 1).drop_last() =~= bs.take(i));
            assert(bs.take(i + 1).last() == bs[i]);
        }
        items.append(&mut batch);
        proof {
            i = i + 1;
        }
    }
    assert(bs.take(i) =~= bs);
    items
}

} // verus!
