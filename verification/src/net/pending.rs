//! Bookkeeping shared by the futures that wait on one operation per client:
//! after each round of polls, the operations still pending and the results of
//! those that completed.

use vstd::prelude::*;

verus! {

/// What polling one client's operation gave.
pub enum PollOutcome<X> {
    /// The operation completed with this result.
    Ready(X),
    /// The operation is still going.
    NotReady,
    /// The operation failed.
    Failed,
}

impl<X> PollOutcome<X> {
    /// Whether the operation failed.
    pub fn is_failed(&self) -> (b: bool)
        ensures
            b == (*self is Failed),
    {
        match self {
            PollOutcome::Failed => true,
            _ => false,
        }
    }
}

/// The operations of `p` whose outcome in `o` (position by position) was
/// `NotReady`, in order.
pub open spec fn still_pending<I, D, X>(p: Seq<(I, D)>, o: Seq<PollOutcome<X>>) -> Seq<(I, D)>
    decreases p.len(),
{
    if p.len() == 0 {
        Seq::empty()
    } else {
        let rest = still_pending(p.drop_last(), o.drop_last());
        match o.last() {
            PollOutcome::NotReady => rest.push(p.last()),
            _ => rest,
        }
    }
}

/// The identifiers of the operations of `p` that completed, with their
/// results from `o` (position by position), in order.
pub open spec fn completed<I, D, X>(p: Seq<(I, D)>, o: Seq<PollOutcome<X>>) -> Seq<(I, X)>
    decreases p.len(),
{
    if p.len() == 0 {
        Seq::empty()
    } else {
        let rest = completed(p.drop_last(), o.drop_last());
        match o.last() {
            PollOutcome::Ready(x) => rest.push((p.last().0, x)),
            _ => rest,
        }
    }
}

/// The identifiers of the entries of `s`, in order.
pub open spec fn ids_of<I, X>(s: Seq<(I, X)>) -> Seq<I> {
    s.map_values(|e: (I, X)| e.0)
}

/// No identifier occurs twice among the entries done and the operations
/// still pending taken together.
pub open spec fn keyed<I, X, Y>(done: Seq<(I, X)>, pending: Seq<(I, Y)>) -> bool {
    &&& ids_of(done).no_duplicates()
    &&& ids_of(pending).no_duplicates()
    &&& forall|i: I| ids_of(done).contains(i) ==> !ids_of(pending).contains(i)
}

proof fn lemma_push_no_duplicates<I>(s: Seq<I>, a: I)
    requires
        s.no_duplicates(),
        !s.contains(a),
    ensures
        s.push(a).no_duplicates(),
{
    assert forall|i: int, j: int| 0 <= i < s.push(a).len() && 0 <= j < s.push(a).len() && i != j
        implies s.push(a)[i] != s.push(a)[j] by {
        if i == s.len() as int {
            assert(s.contains(s[j]));
        } else if j == s.len() as int {
            assert(s.contains(s[i]));
        }
    }
}

proof fn lemma_concat_no_duplicates<I>(a: Seq<I>, b: Seq<I>)
    requires
        a.no_duplicates(),
        b.no_duplicates(),
        forall|i: I| a.contains(i) ==> !b.contains(i),
    ensures
        (a + b).no_duplicates(),
{
    assert forall|i: int, j: int| 0 <= i < (a + b).len() && 0 <= j < (a + b).len() && i != j
        implies (a + b)[i] != (a + b)[j] by {
        if i < a.len() && j >= a.len() {
            assert(a.contains(a[i]));
            assert(b.contains(b[j - a.len()]));
        } else if j < a.len() && i >= a.len() {
            assert(a.contains(a[j]));
            assert(b.contains(b[i - a.len()]));
        }
    }
}

/// The operations that settling keeps and the results it gives are among
/// the operations pending; when no identifier occurs twice among those, none
/// occurs twice among either, and none occurs in both.
proof fn lemma_settle_ids<I, D, X>(p: Seq<(I, D)>, o: Seq<PollOutcome<X>>)
    requires
        p.len() == o.len(),
    ensures
        forall|i: I| ids_of(completed(p, o)).contains(i) ==> ids_of(p).contains(i),
        forall|i: I| ids_of(still_pending(p, o)).contains(i) ==> ids_of(p).contains(i),
        ids_of(p).no_duplicates() ==> {
            &&& ids_of(completed(p, o)).no_duplicates()
            &&& ids_of(still_pending(p, o)).no_duplicates()
            &&& forall|i: I| ids_of(completed(p, o)).contains(i) ==> !ids_of(still_pending(p, o)).contains(i)
        },
    decreases p.len(),
{
    if p.len() > 0 {
        let p1 = p.drop_last();
        let o1 = o.drop_last();
        lemma_settle_ids(p1, o1);
        let c1 = completed(p1, o1);
        let s1 = still_pending(p1, o1);
        let last = p.last().0;
        assert(ids_of(p) =~= ids_of(p1).push(last));
        assert(ids_of(p).contains(last)) by {
            assert(ids_of(p)[p.len() - 1] == last);
        }
        assert forall|i: I| ids_of(p1).contains(i) implies ids_of(p).contains(i) by {
            let k = choose|k: int| 0 <= k < ids_of(p1).len() && ids_of(p1)[k] == i;
            assert(ids_of(p)[k] == i);
        }
        if ids_of(p).no_duplicates() {
            assert(ids_of(p1).no_duplicates()) by {
                assert forall|a: int, b: int| 0 <= a < ids_of(p1).len() && 0 <= b < ids_of(p1).len() && a != b
                    implies ids_of(p1)[a] != ids_of(p1)[b] by {
                    assert(ids_of(p1)[a] == ids_of(p)[a]);
                    assert(ids_of(p1)[b] == ids_of(p)[b]);
                }
            }
            assert(!ids_of(p1).contains(last)) by {
                if ids_of(p1).contains(last) {
                    let k = choose|k: int| 0 <= k < ids_of(p1).len() && ids_of(p1)[k] == last;
                    assert(ids_of(p)[k] == ids_of(p)[p.len() - 1]);
                }
            }
        }
        match o.last() {
            PollOutcome::Ready(x) => {
                assert(ids_of(completed(p, o)) =~= ids_of(c1).push(last));
                assert(still_pending(p, o) == s1);
                assert forall|i: I| ids_of(completed(p, o)).contains(i) implies ids_of(p).contains(i) by {
                    if i != last {
                        let k = choose|k: int| 0 <= k < ids_of(completed(p, o)).len() && ids_of(completed(p, o))[k] == i;
                        assert(ids_of(c1)[k] == i);
                    }
                }
                if ids_of(p).no_duplicates() {
                    lemma_push_no_duplicates(ids_of(c1), last);
                    assert forall|i: I| ids_of(completed(p, o)).contains(i) implies !ids_of(s1).contains(i) by {
                        if i != last {
                            let k = choose|k: int| 0 <= k < ids_of(completed(p, o)).len() && ids_of(completed(p, o))[k] == i;
                            assert(ids_of(c1)[k] == i);
                        }
                    }
                }
            },
            PollOutcome::NotReady => {
                assert(ids_of(still_pending(p, o)) =~= ids_of(s1).push(last));
                assert(completed(p, o) == c1);
                assert forall|i: I| ids_of(still_pending(p, o)).contains(i) implies ids_of(p).contains(i) by {
                    if i != last {
                        let k = choose|k: int| 0 <= k < ids_of(still_pending(p, o)).len() && ids_of(still_pending(p, o))[k] == i;
                        assert(ids_of(s1)[k] == i);
                    }
                }
                if ids_of(p).no_duplicates() {
                    lemma_push_no_duplicates(ids_of(s1), last);
                    assert forall|i: I| ids_of(c1).contains(i) implies !ids_of(still_pending(p, o)).contains(i) by {
                        if ids_of(still_pending(p, o)).contains(i) && i != last {
                            let k = choose|k: int| 0 <= k < ids_of(still_pending(p, o)).len() && ids_of(still_pending(p, o))[k] == i;
                            assert(ids_of(s1)[k] == i);
                        }
                    }
                }
            },
            PollOutcome::Failed => {
                assert(completed(p, o) == c1);
                assert(still_pending(p, o) == s1);
            },
        }
    }
}

/// Settling keeps the identifiers apart: when no identifier occurs twice
/// among the entries done and the operations pending, none does after the
/// results of settling join the entries and the operations still going stay.
pub proof fn lemma_settle_keyed<I, D, X, Y>(done: Seq<(I, Y)>, p: Seq<(I, D)>, o: Seq<PollOutcome<X>>)
    requires
        p.len() == o.len(),
        keyed(done, p),
    ensures
        (ids_of(done) + ids_of(completed(p, o))).no_duplicates(),
        ids_of(still_pending(p, o)).no_duplicates(),
        forall|i: I| (ids_of(done) + ids_of(completed(p, o))).contains(i) ==> !ids_of(still_pending(p, o)).contains(i),
{
    lemma_settle_ids(p, o);
    let c = completed(p, o);
    let sp = still_pending(p, o);
    let all = ids_of(done) + ids_of(c);
    assert forall|i: I| ids_of(done).contains(i) implies !ids_of(c).contains(i) by {
        if ids_of(c).contains(i) {
            assert(ids_of(p).contains(i));
        }
    }
    lemma_concat_no_duplicates(ids_of(done), ids_of(c));
    assert forall|i: I| all.contains(i) implies !ids_of(sp).contains(i) by {
        let k = choose|k: int| 0 <= k < all.len() && all[k] == i;
        if k < ids_of(done).len() {
            assert(ids_of(done)[k] == i);
            assert(ids_of(done).contains(i));
            if ids_of(sp).contains(i) {
                assert(ids_of(p).contains(i));
            }
        } else {
            assert(ids_of(c)[k - ids_of(done).len()] == i);
            assert(ids_of(c).contains(i));
        }
    }
}

/// How many of the outcomes are `NotReady`.
pub open spec fn count_not_ready<X>(o: Seq<PollOutcome<X>>) -> nat
    decreases o.len(),
{
    if o.len() == 0 {
        0
    } else {
        count_not_ready(o.drop_last()) + if o.last() is NotReady { 1nat } else { 0nat }
    }
}

/// How many of the outcomes are `Ready`.
pub open spec fn count_ready<X>(o: Seq<PollOutcome<X>>) -> nat
    decreases o.len(),
{
    if o.len() == 0 {
        0
    } else {
        count_ready(o.drop_last()) + if o.last() is Ready { 1nat } else { 0nat }
    }
}

/// How many of the outcomes are `Failed`.
pub open spec fn count_failed<X>(o: Seq<PollOutcome<X>>) -> nat
    decreases o.len(),
{
    if o.len() == 0 {
        0
    } else {
        count_failed(o.drop_last()) + if o.last() is Failed { 1nat } else { 0nat }
    }
}

/// Settling partitions the pending operations by their outcomes: every
/// operation whose outcome is `NotReady` is kept, and only as many as there
/// are such outcomes; every operation that is `Ready` gives its result with
/// its identifier, and only as many results as there are such outcomes; the
/// operations kept, the results and the failures together are as many as
/// the operations pending.
pub proof fn settle_partitions<I, D, X>(p: Seq<(I, D)>, o: Seq<PollOutcome<X>>)
    requires
        p.len() == o.len(),
    ensures
        still_pending(p, o).len() == count_not_ready(o),
        completed(p, o).len() == count_ready(o),
        still_pending(p, o).len() + completed(p, o).len() + count_failed(o) == p.len(),
        forall|i: int| 0 <= i < p.len() && o[i] is NotReady ==> still_pending(p, o).contains(#[trigger] p[i]),
        forall|i: int| 0 <= i < p.len() && o[i] is Ready ==> completed(p, o).contains((#[trigger] p[i].0, o[i]->0)),
        forall|e: (I, D)| still_pending(p, o).contains(e) ==> p.contains(e),
    decreases p.len(),
{
    if p.len() > 0 {
        let p1 = p.drop_last();
        let o1 = o.drop_last();
        settle_partitions(p1, o1);
        let n = p.len() - 1;
        let s1 = still_pending(p1, o1);
        let c1 = completed(p1, o1);
        assert forall|i: int| 0 <= i < p.len() && o[i] is NotReady implies still_pending(p, o).contains(#[trigger] p[i]) by {
            if i < n {
                assert(p1[i] == p[i] && o1[i] == o[i]);
                let k = choose|k: int| 0 <= k < s1.len() && s1[k] == p1[i];
                assert(still_pending(p, o)[k] == p[i]);
            } else {
                assert(still_pending(p, o) == s1.push(p.last()));
                assert(still_pending(p, o)[s1.len() as int] == p[i]);
            }
        }
        assert forall|i: int| 0 <= i < p.len() && o[i] is Ready implies completed(p, o).contains((#[trigger] p[i].0, o[i]->0)) by {
            let x = o[i]->0;
            if i < n {
                assert(p1[i] == p[i] && o1[i] == o[i]);
                let k = choose|k: int| 0 <= k < c1.len() && c1[k] == (p1[i].0, x);
                assert(completed(p, o)[k] == (p[i].0, x));
            } else {
                assert(completed(p, o) == c1.push((p.last().0, x)));
                assert(completed(p, o)[c1.len() as int] == (p[i].0, x));
            }
        }
        assert forall|e: (I, D)| still_pending(p, o).contains(e) implies p.contains(e) by {
            let sp = still_pending(p, o);
            let k = choose|k: int| 0 <= k < sp.len() && sp[k] == e;
            if o.last() is NotReady {
                assert(sp == s1.push(p.last()));
                if k < s1.len() {
                    assert(sp[k] == s1[k]);
                    assert(s1.contains(e));
                    assert(p1.contains(e));
                    let j = choose|j: int| 0 <= j < p1.len() && p1[j] == e;
                    assert(p[j] == e);
                } else {
                    assert(p[n] == e);
                }
            } else {
                assert(sp == s1);
                assert(s1.contains(e));
                assert(p1.contains(e));
                let j = choose|j: int| 0 <= j < p1.len() && p1[j] == e;
                assert(p[j] == e);
            }
        }
    }
}

/// Each pending operation beside its outcome, position by position.
pub open spec fn paired<I, D, X>(p: Seq<(I, D)>, o: Seq<PollOutcome<X>>) -> Seq<((I, D), PollOutcome<X>)> {
    Seq::new(p.len(), |i: int| (p[i], o[i]))
}

/// Settling keeps the order: the operations kept are, in order, exactly those
/// whose outcome is `NotReady`, and the results are, in order, exactly those
/// of the operations whose outcome is `Ready`, each with its identifier.
pub proof fn settle_keeps_order<I, D, X>(p: Seq<(I, D)>, o: Seq<PollOutcome<X>>)
    requires
        p.len() == o.len(),
    ensures
        still_pending(p, o) == paired(p, o).filter(|e: ((I, D), PollOutcome<X>)| e.1 is NotReady)
            .map_values(|e: ((I, D), PollOutcome<X>)| e.0),
        completed(p, o) == paired(p, o).filter(|e: ((I, D), PollOutcome<X>)| e.1 is Ready)
            .map_values(|e: ((I, D), PollOutcome<X>)| (e.0.0, e.1->0)),
    decreases p.len(),
{
    reveal(Seq::filter);
    if p.len() > 0 {
        let p1 = p.drop_last();
        let o1 = o.drop_last();
        settle_keeps_order(p1, o1);
        let z = paired(p, o);
        let z1 = paired(p1, o1);
        assert(z.drop_last() =~= z1);
        assert(z.last() == (p.last(), o.last()));
        let fa = z1.filter(|e: ((I, D), PollOutcome<X>)| e.1 is NotReady);
        let fb = z1.filter(|e: ((I, D), PollOutcome<X>)| e.1 is Ready);
        if o.last() is NotReady {
            assert(z.filter(|e: ((I, D), PollOutcome<X>)| e.1 is NotReady) == fa.push(z.last()));
            assert(fa.push(z.last()).map_values(|e: ((I, D), PollOutcome<X>)| e.0)
                =~= fa.map_values(|e: ((I, D), PollOutcome<X>)| e.0).push(p.last()));
        } else {
            assert(z.filter(|e: ((I, D), PollOutcome<X>)| e.1 is NotReady) == fa);
        }
        if o.last() is Ready {
            assert(z.filter(|e: ((I, D), PollOutcome<X>)| e.1 is Ready) == fb.push(z.last()));
            assert(fb.push(z.last()).map_values(|e: ((I, D), PollOutcome<X>)| (e.0.0, e.1->0))
                =~= fb.map_values(|e: ((I, D), PollOutcome<X>)| (e.0.0, e.1->0)).push((p.last().0, o.last()->0)));
        } else {
            assert(z.filter(|e: ((I, D), PollOutcome<X>)| e.1 is Ready) == fb);
        }
    }
}

/// Splits `pending` by `outcomes`, position by position: the operations that
/// are still going, and the results of those that completed, each in order.
/// Failed operations are dropped.
pub fn settle<I, D, X>(pending: Vec<(I, D)>, outcomes: Vec<PollOutcome<X>>) -> (r: (Vec<(I, D)>, Vec<(I, X)>))
    requires
        pending@.len() == outcomes@.len(),
    ensures
        r.0@ == still_pending(pending@, outcomes@),
        r.1@ == completed(pending@, outcomes@),
        r.0@.len() == count_not_ready(outcomes@),
        r.1@.len() == count_ready(outcomes@),
        forall|i: int| 0 <= i < pending@.len() && outcomes@[i] is NotReady ==> r.0@.contains(#[trigger] pending@[i]),
        forall|i: int| 0 <= i < pending@.len() && outcomes@[i] is Ready
            ==> r.1@.contains((#[trigger] pending@[i].0, outcomes@[i]->0)),
        r.0@ == paired(pending@, outcomes@).filter(|e: ((I, D), PollOutcome<X>)| e.1 is NotReady)
            .map_values(|e: ((I, D), PollOutcome<X>)| e.0),
        r.1@ == paired(pending@, outcomes@).filter(|e: ((I, D), PollOutcome<X>)| e.1 is Ready)
            .map_values(|e: ((I, D), PollOutcome<X>)| (e.0.0, e.1->0)),
{
    proof {
        settle_partitions(pending@, outcomes@);
        settle_keeps_order(pending@, outcomes@);
    }
    let ghost p = pending@;
    let ghost o = outcomes@;
    let mut pending = pending;
    let mut outcomes = outcomes;
    let mut kept: Vec<(I, D)> = Vec::new();
    let mut done: Vec<(I, X)> = Vec::new();
    let ghost mut i: int = 0;
    while pending.len() > 0
        invariant
            p.len() == o.len(),
            0 <= i <= p.len(),
            pending@ == p.skip(i),
            outcomes@ == o.skip(i),
            kept@ == still_pending(p.take(i), o.take(i)),
            done@ == completed(p.take(i), o.take(i)),
        decreases pending@.len(),
    {
        let (id, d) = pending.remove(0);
        let outcome = outcomes.remove(0);
        proof {
            assert(p.take(i + 1).drop_last() =~= p.take(i));
            assert(o.take(i + 1).drop_last() =~= o.take(i));
            assert(p.take(i + 1).last() == p[i]);
            assert(o.take(i + 1).last() == o[i]);
            assert(p.skip(i).drop_first() =~= p.skip(i + 1));
            assert(o.skip(i).drop_first() =~= o.skip(i + 1));
        }
        match outcome {
            PollOutcome::Ready(x) => {
                done.push((id, x));
            },
            PollOutcome::NotReady => {
                kept.push((id, d));
            },
            PollOutcome::Failed => {},
        }
        proof {
            i = i + 1;
        }
    }
    proof {
        assert(p.take(i) =~= p);
        assert(o.take(i) =~= o);
    }
    (kept, done)
}

} // verus!
