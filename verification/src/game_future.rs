//! What the game future keeps of a round of group operations.

use vstd::prelude::*;

verus! {

/// The successes of `h`, in order, each with its name.
pub open spec fn oks<O, E>(h: Seq<(String, Result<O, E>)>) -> Seq<(String, O)>
    decreases h.len(),
{
    if h.len() == 0 {
        Seq::empty()
    } else {
        let rest = oks(h.drop_last());
        match h.last().1 {
            Ok(o) => rest.push((h.last().0, o)),
            Err(_) => rest,
        }
    }
}

/// Keeps the entries of `h` that succeeded, with their values, and drops
/// those that failed.
pub fn retain_oks<O, E>(h: Vec<(String, Result<O, E>)>) -> (r: Vec<(String, O)>)
    ensures
        r@ == oks(h@),
{
    let ghost s = h@;
    let mut h = h;
    let mut r: Vec<(String, O)> = Vec::new();
    let ghost mut i: int = 0;
    while h.len() > 0
        invariant
            0 <= i <= s.len(),
            h@ == s.skip(i),
            r@ == oks(s.take(i)),
        decreases h@.len(),
    {
        let (id, result) = h.remove(0);
        proof {
            assert(s.take(i + 1).drop_last() =~= s.take(i));
            assert(s.take(i + 1).last() == s[i]);
            assert(s.skip(i).drop_first() =~= s.skip(i + 1));
        }
        match result {
            Ok(o) => r.push((id, o)),
            Err(_) => {},
        }
        proof {
            i = i + 1;
        }
    }
    assert(s.take(i) =~= s);
    r
}

} // verus!
