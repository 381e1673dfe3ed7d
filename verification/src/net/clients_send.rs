//! Sends one message to each of a group of clients and gives back the
//! command channels of those whose send went through.

use vstd::prelude::*;
use crate::net::pending::{completed, ids_of, keyed, lemma_settle_keyed, settle, still_pending, PollOutcome};

verus! {

/// The sends still going, each with its client, and the command channels of
/// the clients whose send went through, until they are handed out.
pub struct ClientsSend<I, C, D> {
    pub sends: Vec<(I, D)>,
    entries_txs: Option<Vec<(I, C)>>,
}

impl<I, C, D> ClientsSend<I, C, D> {
    /// The sends still going.
    pub closed spec fn pending(&self) -> Seq<(I, D)> {
        self.sends@
    }

    /// Whether the channels of the clients done have not been handed out yet.
    pub closed spec fn has_entries(&self) -> bool {
        self.entries_txs is Some
    }

    /// The channels of the clients whose send went through, in the order they did.
    pub closed spec fn entries_so_far(&self) -> Seq<(I, C)> {
        match self.entries_txs {
            Some(v) => v@,
            None => Seq::empty(),
        }
    }

    /// No client occurs twice among the clients done and those whose send
    /// is still going.
    pub open spec fn well_keyed(&self) -> bool {
        keyed(self.entries_so_far(), self.pending())
    }

    /// A group send over the sends `sends`, none of them done yet.
    pub fn new(sends: Vec<(I, D)>) -> (s: ClientsSend<I, C, D>)
        ensures
            s.pending() == sends@,
            ids_of(sends@).no_duplicates() ==> s.well_keyed(),
            s.has_entries(),
            s.entries_so_far() == Seq::<(I, C)>::empty(),
    {
        let s = ClientsSend { sends: sends, entries_txs: Some(Vec::new()) };
        assert(ids_of(s.entries_so_far()) =~= Seq::<I>::empty());
        s
    }

    /// Hands out the channels of the clients done so far.
    pub fn entries(&mut self) -> (e: Vec<(I, C)>)
        requires
            old(self).has_entries(),
        ensures
            e@ == old(self).entries_so_far(),
            !final(self).has_entries(),
            final(self).pending() == old(self).pending(),
    {
        let mut entries: Option<Vec<(I, C)>> = None;
        std::mem::swap(&mut entries, &mut self.entries_txs);
        match entries {
            Some(e) => e,
            None => Vec::new(),
        }
    }

    /// Takes in the outcome of polling each send, in the order of `pending`:
    /// a send that went through gives back its channel, which joins the
    /// entries; a failed send is dropped with its client; the others stay.
    /// Once no send is left, all the entries are handed out.
    pub fn settle(&mut self, outcomes: Vec<PollOutcome<C>>) -> (r: Option<Vec<(I, C)>>)
        requires
            old(self).has_entries(),
            outcomes@.len() == old(self).pending().len(),
        ensures
            final(self).pending() == still_pending(old(self).pending(), outcomes@),
            final(self).pending().len() == 0 ==> (r matches Some(e)
                && e@ == old(self).entries_so_far() + completed(old(self).pending(), outcomes@)
                && !final(self).has_entries()),
            final(self).pending().len() > 0 ==> r is None && final(self).has_entries()
                && final(self).entries_so_far() == old(self).entries_so_far() + completed(old(self).pending(), outcomes@),
            old(self).well_keyed() ==> keyed(old(self).entries_so_far() + completed(old(self).pending(), outcomes@), final(self).pending()),
    {
        proof {
            if old(self).well_keyed() {
                let e0 = old(self).entries_so_far();
                let c = completed(old(self).pending(), outcomes@);
                lemma_settle_keyed(e0, old(self).pending(), outcomes@);
                assert(ids_of(e0 + c) =~= ids_of(e0) + ids_of(c));
            }
        }
        let mut sends: Vec<(I, D)> = Vec::new();
        std::mem::swap(&mut sends, &mut self.sends);
        let (kept, mut done) = settle(sends, outcomes);
        self.sends = kept;
        let mut entries: Option<Vec<(I, C)>> = None;
        std::mem::swap(&mut entries, &mut self.entries_txs);
        let mut entries = match entries {
            Some(e) => e,
            None => Vec::new(),
        };
        entries.append(&mut done);
        if self.sends.len() == 0 {
            Some(entries)
        } else {
            self.entries_txs = Some(entries);
            None
        }
    }
}

} // verus!
