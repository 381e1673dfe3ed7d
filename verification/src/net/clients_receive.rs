//! Receives one message from each of a group of clients and gives back the
//! messages and the command channels of those that answered.

use vstd::prelude::*;
use crate::net::pending::{completed, ids_of, keyed, lemma_settle_keyed, settle, still_pending, PollOutcome};

verus! {

/// The identifier and message of each entry of `done`.
pub open spec fn msgs_of<I, M, C>(done: Seq<(I, (M, C))>) -> Seq<(I, M)> {
    done.map_values(|e: (I, (M, C))| (e.0, e.1.0))
}

/// `txs` is `before` followed by the channel of each entry of `done`, each
/// with a copy of the entry's identifier.
pub open spec fn txs_extend<I: Clone, M, C>(txs: Seq<(I, C)>, before: Seq<(I, C)>, done: Seq<(I, (M, C))>) -> bool {
    &&& txs.len() == before.len() + done.len()
    &&& txs.take(before.len() as int) == before
    &&& forall|k: int| 0 <= k < done.len() ==> {
        &&& (#[trigger] txs[before.len() + k]).1 == done[k].1.1
        &&& cloned::<I>(done[k].0, txs[before.len() + k].0)
    }
}

/// The receives still going, each with its client, and the messages and
/// command channels of the clients that answered, until they are handed out.
pub struct ClientsReceive<I, M, C, D> {
    pub reads: Vec<(I, D)>,
    entries_msgs: Option<Vec<(I, M)>>,
    entries_txs: Option<Vec<(I, C)>>,
}

impl<I: Clone, M, C, D> ClientsReceive<I, M, C, D> {
    /// The receives still going.
    pub closed spec fn pending(&self) -> Seq<(I, D)> {
        self.reads@
    }

    /// Whether the entries have not been handed out yet.
    pub closed spec fn has_entries(&self) -> bool {
        self.entries_msgs is Some && self.entries_txs is Some
    }

    /// The messages received so far, in the order they came.
    pub closed spec fn msgs_so_far(&self) -> Seq<(I, M)> {
        match self.entries_msgs {
            Some(v) => v@,
            None => Seq::empty(),
        }
    }

    /// The channels of the clients that answered so far, in the same order.
    pub closed spec fn txs_so_far(&self) -> Seq<(I, C)> {
        match self.entries_txs {
            Some(v) => v@,
            None => Seq::empty(),
        }
    }

    /// No client occurs twice among the clients whose message came and those
    /// whose receive is still going.
    pub open spec fn well_keyed(&self) -> bool {
        keyed(self.msgs_so_far(), self.pending())
    }

    /// A group receive over `reads`, none of them done yet.
    pub fn new(reads: Vec<(I, D)>) -> (s: ClientsReceive<I, M, C, D>)
        ensures
            s.pending() == reads@,
            ids_of(reads@).no_duplicates() ==> s.well_keyed(),
            s.has_entries(),
            s.msgs_so_far() == Seq::<(I, M)>::empty(),
            s.txs_so_far() == Seq::<(I, C)>::empty(),
    {
        let s = ClientsReceive { reads: reads, entries_msgs: Some(Vec::new()), entries_txs: Some(Vec::new()) };
        assert(ids_of(s.msgs_so_far()) =~= Seq::<I>::empty());
        s
    }

    /// Hands out the messages received so far and the channels of the
    /// clients that sent them.
    pub fn entries(&mut self) -> (e: (Vec<(I, M)>, Vec<(I, C)>))
        requires
            old(self).has_entries(),
        ensures
            e.0@ == old(self).msgs_so_far(),
            e.1@ == old(self).txs_so_far(),
            !final(self).has_entries(),
            final(self).pending() == old(self).pending(),
    {
        let mut msgs: Option<Vec<(I, M)>> = None;
        let mut txs: Option<Vec<(I, C)>> = None;
        std::mem::swap(&mut msgs, &mut self.entries_msgs);
        std::mem::swap(&mut txs, &mut self.entries_txs);
        let msgs = match msgs {
            Some(m) => m,
            None => Vec::new(),
        };
        let txs = match txs {
            Some(t) => t,
            None => Vec::new(),
        };
        (msgs, txs)
    }

    /// Takes in the outcome of polling each receive, in the order of
    /// `pending`: an answered receive gives a message and the channel back,
    /// which join the entries; a failed one is dropped with its client; the
    /// others stay. Once no receive is left, all the entries are handed out.
    pub fn settle(&mut self, outcomes: Vec<PollOutcome<(M, C)>>) -> (r: Option<(Vec<(I, M)>, Vec<(I, C)>)>)
        requires
            old(self).has_entries(),
            outcomes@.len() == old(self).pending().len(),
        ensures
            final(self).pending() == still_pending(old(self).pending(), outcomes@),
            final(self).pending().len() == 0 ==> (r matches Some(e)
                && e.0@ == old(self).msgs_so_far() + msgs_of(completed(old(self).pending(), outcomes@))
                && txs_extend(e.1@, old(self).txs_so_far(), completed(old(self).pending(), outcomes@))
                && !final(self).has_entries()),
            final(self).pending().len() > 0 ==> r is None && final(self).has_entries()
                && final(self).msgs_so_far() == old(self).msgs_so_far() + msgs_of(completed(old(self).pending(), outcomes@))
                && txs_extend(final(self).txs_so_far(), old(self).txs_so_far(), completed(old(self).pending(), outcomes@)),
            old(self).well_keyed() ==> keyed(
                old(self).msgs_so_far() + msgs_of(completed(old(self).pending(), outcomes@)),
                final(self).pending(),
            ),
    {
        proof {
            if old(self).well_keyed() {
                let m0 = old(self).msgs_so_far();
                let c = completed(old(self).pending(), outcomes@);
                lemma_settle_keyed(m0, old(self).pending(), outcomes@);
                assert(ids_of(m0 + msgs_of(c)) =~= ids_of(m0) + ids_of(c));
            }
        }
        let mut reads: Vec<(I, D)> = Vec::new();
        std::mem::swap(&mut reads, &mut self.reads);
        let (kept, done) = settle(reads, outcomes);
        self.reads = kept;
        let (mut msgs, mut txs) = self.entries();
        let ghost m0 = msgs@;
        let ghost t0 = txs@;
        let ghost d = done@;
        let mut done = done;
        let ghost mut i: int = 0;
        assert(txs@.take(t0.len() as int) =~= t0);
        while done.len() > 0
            invariant
                0 <= i <= d.len(),
                done@ == d.skip(i),
                msgs@ == m0 + msgs_of(d.take(i)),
                txs_extend(txs@, t0, d.take(i)),
            decreases done@.len(),
        {
            let (id, (m, c)) = done.remove(0);
            proof {
                assert(d.skip(i).drop_first() =~= d.skip(i + 1));
                assert(msgs_of(d.take(i + 1)) =~= msgs_of(d.take(i)).push((id, m)));
            }
            let id2 = id.clone();
            msgs.push((id, m));
            let ghost t_before = txs@;
            txs.push((id2, c));
            proof {
                let dd = d.take(i + 1);
                assert(txs@.take(t0.len() as int) =~= t0) by {
                    assert(t_before.take(t0.len() as int) =~= t0);
                }
                assert forall|k: int| 0 <= k < dd.len() implies {
                    &&& (#[trigger] txs@[t0.len() + k]).1 == dd[k].1.1
                    &&& cloned::<I>(dd[k].0, txs@[t0.len() + k].0)
                } by {
                    if k < i {
                        assert(txs@[t0.len() + k] == t_before[t0.len() + k]);
                        assert(dd[k] == d.take(i)[k]);
                    }
                }
            }
            proof {
                i = i + 1;
            }
        }
        proof {
            assert(d.take(i) =~= d);
        }
        if self.reads.len() == 0 {
            Some((msgs, txs))
        } else {
            self.entries_msgs = Some(msgs);
            self.entries_txs = Some(txs);
            None
        }
    }
}

} // verus!
