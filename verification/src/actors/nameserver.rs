//! Hands out player names that no one else holds: a desired name, or that
//! name followed by `_` and the first Roman numeral that makes it unused.

use vstd::prelude::*;

verus! {

/// The additive Roman numeral of `n`, largest numerals first, without
/// subtractive pairs (4 is `IIII`, 9 is `VIIII`).
pub open spec fn roman_spec(n: nat) -> Seq<char>
    decreases n,
{
    if n == 0 {
        Seq::empty()
    } else if n >= 1000 {
        seq!['M'] + roman_spec((n - 1000) as nat)
    } else if n >= 500 {
        seq!['D'] + roman_spec((n - 500) as nat)
    } else if n >= 100 {
        seq!['C'] + roman_spec((n - 100) as nat)
    } else if n >= 50 {
        seq!['L'] + roman_spec((n - 50) as nat)
    } else if n >= 10 {
        seq!['X'] + roman_spec((n - 10) as nat)
    } else if n >= 5 {
        seq!['V'] + roman_spec((n - 5) as nat)
    } else {
        seq!['I'] + roman_spec((n - 1) as nat)
    }
}

/// The value of a Roman numeral letter (zero for any other character).
pub open spec fn numeral_value(c: char) -> int {
    if c == 'M' {
        1000
    } else if c == 'D' {
        500
    } else if c == 'C' {
        100
    } else if c == 'L' {
        50
    } else if c == 'X' {
        10
    } else if c == 'V' {
        5
    } else if c == 'I' {
        1
    } else {
        0
    }
}

/// The value of an additive Roman numeral: the sum of its letters' values.
pub open spec fn roman_value(s: Seq<char>) -> int
    decreases s.len(),
{
    if s.len() == 0 {
        0
    } else {
        numeral_value(s[0]) + roman_value(s.drop_first())
    }
}

/// Reading back the numeral that `roman_numerals` writes for `n` gives `n`.
pub proof fn roman_numerals_read_back(n: nat)
    ensures
        roman_value(roman_spec(n)) == n,
    decreases n,
{
    if n > 0 {
        let s = roman_spec(n);
        let m: nat = if n >= 1000 {
            (n - 1000) as nat
        } else if n >= 500 {
            (n - 500) as nat
        } else if n >= 100 {
            (n - 100) as nat
        } else if n >= 50 {
            (n - 50) as nat
        } else if n >= 10 {
            (n - 10) as nat
        } else if n >= 5 {
            (n - 5) as nat
        } else {
            (n - 1) as nat
        };
        roman_numerals_read_back(m);
        assert(s.drop_first() =~= roman_spec(m));
    }
}

/// Different numbers have different numerals.
pub proof fn roman_numerals_injective(m: nat, n: nat)
    ensures
        roman_spec(m) == roman_spec(n) ==> m == n,
{
    roman_numerals_read_back(m);
    roman_numerals_read_back(n);
}

/// A numeral in the greedy form: only Roman letters, in non-increasing
/// value, with no letter standing where a single larger letter would do:
/// `D`, `L` and `V` never twice, and no letter but `M` five times.
pub open spec fn is_greedy_numeral(s: Seq<char>) -> bool {
    &&& forall|i: int| 0 <= i < s.len() ==> numeral_value(#[trigger] s[i]) > 0
    &&& forall|i: int, j: int| 0 <= i < j < s.len() ==> numeral_value(#[trigger] s[i]) >= numeral_value(#[trigger] s[j])
    &&& forall|i: int, j: int| 0 <= i && j == i + 1 && j < s.len() && #[trigger] s[i] == #[trigger] s[j]
        ==> s[i] != 'D' && s[i] != 'L' && s[i] != 'V'
    &&& forall|i: int, j: int| 0 <= i && j == i + 4 && j < s.len() && #[trigger] s[i] == #[trigger] s[j]
        ==> s[i] == 'M'
}

proof fn lemma_roman_shape(n: nat)
    ensures
        is_greedy_numeral(roman_spec(n)),
        forall|k: int| 0 <= k < roman_spec(n).len() ==> numeral_value(#[trigger] roman_spec(n)[k]) * (k + 1) <= n,
    decreases n,
{
    let s = roman_spec(n);
    if n > 0 {
        let c: char = if n >= 1000 {
            'M'
        } else if n >= 500 {
            'D'
        } else if n >= 100 {
            'C'
        } else if n >= 50 {
            'L'
        } else if n >= 10 {
            'X'
        } else if n >= 5 {
            'V'
        } else {
            'I'
        };
        let v = numeral_value(c);
        let m: nat = (n - v) as nat;
        assert(s =~= seq![c] + roman_spec(m));
        lemma_roman_shape(m);
        let t = roman_spec(m);
        assert(s.len() == t.len() + 1);
        assert(s[0] == c);
        assert forall|k: int| 1 <= k < s.len() implies s[k] == t[k - 1] by {}
        // every letter after the first is worth at most what is left, and so
        // at most the first letter
        assert forall|k: int| 1 <= k < s.len() implies numeral_value(#[trigger] s[k]) <= m && numeral_value(s[k]) <= v by {
            let w = numeral_value(t[k - 1]);
            assert(w * k <= m);
            assert(w <= w * k) by (nonlinear_arith)
                requires
                    k >= 1,
                    w >= 0,
            ;
        }
        assert forall|k: int| 0 <= k < s.len() implies numeral_value(#[trigger] s[k]) * (k + 1) <= n by {
            if k > 0 {
                let w = numeral_value(t[k - 1]);
                assert(s[k] == t[k - 1]);
                assert(w * k <= m);
                assert(numeral_value(s[k]) <= v);
                assert(w * (k + 1) == w * k + w) by (nonlinear_arith);
            } else {
                let x = numeral_value(s[k]);
                assert(x * (k + 1) == x) by (nonlinear_arith)
                    requires
                        k == 0,
                ;
            }
        }
        assert forall|i: int| 0 <= i < s.len() implies numeral_value(#[trigger] s[i]) > 0 by {
            if i > 0 {
                assert(s[i] == t[i - 1]);
            }
        }
        assert forall|i: int, j: int| 0 <= i < j < s.len() implies numeral_value(#[trigger] s[i]) >= numeral_value(#[trigger] s[j]) by {
            if i > 0 {
                assert(s[i] == t[i - 1] && s[j] == t[j - 1]);
            } else {
                assert(numeral_value(s[j]) <= v);
            }
        }
        assert forall|i: int, j: int| 0 <= i && j == i + 1 && j < s.len() && #[trigger] s[i] == #[trigger] s[j]
            implies s[i] != 'D' && s[i] != 'L' && s[i] != 'V' by {
            if i > 0 {
                assert(s[i] == t[i - 1] && s[j] == t[j - 1]);
            } else {
                assert(numeral_value(t[0]) * 1 <= m);
            }
        }
        assert forall|i: int, j: int| 0 <= i && j == i + 4 && j < s.len() && #[trigger] s[i] == #[trigger] s[j]
            implies s[i] == 'M' by {
            if i > 0 {
                assert(s[i] == t[i - 1] && s[j] == t[j - 1]);
            } else {
                assert(numeral_value(t[3]) * 4 <= m);
            }
        }
    }
}

/// The numeral written for `n` is the greedy one: Roman letters only, in
/// non-increasing value, with `D`, `L` and `V` at most once and no letter but
/// `M` five times, so that no run of letters is worth a single larger one.
pub proof fn roman_numerals_greedy(n: nat)
    ensures
        is_greedy_numeral(roman_spec(n)),
{
    lemma_roman_shape(n);
}

/// The additive Roman numeral of `value`: `M` for each thousand, then `D`,
/// `C`, `L`, `X`, `V` and `I` greedily; the empty string for zero.
pub fn roman_numerals(value: u64) -> (numerals: String)
    ensures
        numerals@ == roman_spec(value as nat),
        is_greedy_numeral(numerals@),
{
    proof {
        roman_numerals_greedy(value as nat);
    }
    let mut value = value;
    let ghost start = value as nat;
    let mut numerals = String::new();
    while value > 0
        invariant
            numerals@ + roman_spec(value as nat) == roman_spec(start),
        decreases value,
    {
        let ghost before = numerals@;
        let ghost rest = roman_spec(value as nat);
        proof {
            reveal_strlit("M");
            reveal_strlit("D");
            reveal_strlit("C");
            reveal_strlit("L");
            reveal_strlit("X");
            reveal_strlit("V");
            reveal_strlit("I");
        }
        let (numeral, sub): (&str, u64) = if value >= 1000 {
            ("M", 1000)
        } else if value >= 500 {
            ("D", 500)
        } else if value >= 100 {
            ("C", 100)
        } else if value >= 50 {
            ("L", 50)
        } else if value >= 10 {
            ("X", 10)
        } else if value >= 5 {
            ("V", 5)
        } else {
            ("I", 1)
        };
        numerals.append(numeral);
        value = value - sub;
        assert(rest == numeral@ + roman_spec(value as nat));
        assert(numerals@ + roman_spec(value as nat) =~= before + rest);
    }
    assert(numerals@ + roman_spec(0) =~= numerals@);
    numerals
}

/// The `n`-th alternative to the name `d`: `d`, an underscore, and the numeral of `n`.
pub open spec fn candidate(d: Seq<char>, n: nat) -> Seq<char> {
    d + seq!['_'] + roman_spec(n)
}

/// `r` is the name handed out for `d` when the names in `names` are taken:
/// `d` itself if it is free, else the free alternative with the smallest number.
pub open spec fn unused_name_for(names: Set<Seq<char>>, d: Seq<char>, r: Seq<char>) -> bool {
    if !names.contains(d) {
        r == d
    } else {
        exists|k: nat|
            k >= 1 && r == candidate(d, k) && !names.contains(r) && forall|j: nat|
                1 <= j < k ==> names.contains(#[trigger] candidate(d, j))
    }
}

/// Different numbers give different alternatives to the same name.
pub proof fn candidate_injective(d: Seq<char>, m: nat, n: nat)
    ensures
        candidate(d, m) == candidate(d, n) ==> m == n,
{
    if candidate(d, m) == candidate(d, n) {
        let k = d.len() + 1;
        assert(candidate(d, m).subrange(k as int, candidate(d, m).len() as int) =~= roman_spec(m));
        assert(candidate(d, n).subrange(k as int, candidate(d, n).len() as int) =~= roman_spec(n));
        roman_numerals_injective(m, n);
    }
}

/// The name handed out is never one already taken, and it is determined by
/// the taken names and the desired name alone.
pub proof fn unused_name_is_unique(names: Set<Seq<char>>, d: Seq<char>, r1: Seq<char>, r2: Seq<char>)
    requires
        unused_name_for(names, d, r1),
        unused_name_for(names, d, r2),
    ensures
        !names.contains(r1),
        r1 == r2,
{
    if names.contains(d) {
        let k1 = choose|k: nat|
            k >= 1 && r1 == candidate(d, k) && !names.contains(r1) && forall|j: nat|
                1 <= j < k ==> names.contains(#[trigger] candidate(d, j));
        let k2 = choose|k: nat|
            k >= 1 && r2 == candidate(d, k) && !names.contains(r2) && forall|j: nat|
                1 <= j < k ==> names.contains(#[trigger] candidate(d, j));
        if k1 < k2 {
            assert(names.contains(candidate(d, k1)));
        } else if k2 < k1 {
            assert(names.contains(candidate(d, k2)));
        }
    }
}

/// Names handed out by successive requests to one name server are pairwise
/// distinct: each request takes a name that no earlier request took, as the
/// taken names only grow by the names handed out.
pub proof fn successive_names_distinct(names: Seq<Set<Seq<char>>>, desired: Seq<Seq<char>>, given: Seq<Seq<char>>)
    requires
        names.len() == given.len() + 1,
        desired.len() == given.len(),
        forall|i: int| 0 <= i < given.len() ==> unused_name_for(#[trigger] names[i], desired[i], given[i]),
        forall|i: int| 0 <= i < given.len() ==> #[trigger] names[i + 1] == names[i].insert(given[i]),
    ensures
        forall|i: int, j: int| 0 <= i < j < given.len() ==> given[i] != given[j],
{
    assert forall|i: int, j: int| 0 <= i < j < given.len() implies given[i] != given[j] by {
        lemma_taken_stays(names, given, i, j);
        unused_name_is_unique(names[j], desired[j], given[j], given[j]);
    }
}

/// A name handed out by request `i` is among the taken names at every later request `j`.
proof fn lemma_taken_stays(names: Seq<Set<Seq<char>>>, given: Seq<Seq<char>>, i: int, j: int)
    requires
        names.len() == given.len() + 1,
        forall|k: int| 0 <= k < given.len() ==> #[trigger] names[k + 1] == names[k].insert(given[k]),
        0 <= i < j <= given.len(),
    ensures
        names[j].contains(given[i]),
    decreases j - i,
{
    if j == i + 1 {
        assert(names[i + 1] == names[i].insert(given[i]));
    } else {
        lemma_taken_stays(names, given, i, j - 1);
        let k = j - 1;
        assert(names[k + 1] == names[k].insert(given[k]));
    }
}

/// Keeps the names handed out so far and hands out new ones.
pub struct Nameserver {
    names: Vec<String>,
}

impl Nameserver {
    /// The names handed out so far.
    pub closed spec fn names(&self) -> Set<Seq<char>> {
        self.names@.map_values(|s: String| s@).to_set()
    }

    /// Whether `name` has been handed out.
    fn contains(&self, name: &String) -> (b: bool)
        ensures
            b == self.names().contains(name@),
    {
        let mut i: usize = 0;
        while i < self.names.len()
            invariant
                i <= self.names@.len(),
                forall|k: int| 0 <= k < i ==> (#[trigger] self.names@[k])@ != name@,
            decreases self.names.len() - i,
        {
            if self.names[i] == *name {
                proof {
                    assert(self.names@.map_values(|s: String| s@)[i as int] == name@);
                }
                return true;
            }
            i = i + 1;
        }
        proof {
            let views = self.names@.map_values(|s: String| s@);
            if self.names().contains(name@) {
                assert(views.contains(name@));
                let k = choose|k: int| 0 <= k < views.len() && #[trigger] views[k] == name@;
                assert(self.names@[k]@ == name@);
            }
        }
        false
    }

    /// The name for `desired_name`, without taking it.
    fn find_unused_name(&self, desired_name: String) -> (unique_name: String)
        requires
            self.names().len() < u64::MAX,
        ensures
            unused_name_for(self.names(), desired_name@, unique_name@),
    {
        if !self.contains(&desired_name) {
            return desired_name;
        }
        let ghost names = self.names();
        let ghost d = desired_name@;
        let ghost mut seen: Set<Seq<char>> = Set::empty();
        proof {
            vstd::seq_lib::seq_to_set_is_finite(self.names@.map_values(|s: String| s@));
        }
        let mut n: u64 = 1;
        loop
            invariant
                names == self.names(),
                names.finite(),
                names.len() < u64::MAX,
                names.contains(d),
                d == desired_name@,
                n >= 1,
                seen.finite(),
                seen.len() == n - 1,
                seen.subset_of(names),
                forall|s: Seq<char>| #[trigger] seen.contains(s) ==> exists|j: nat| 1 <= j < n && s == candidate(d, j),
                forall|j: nat| 1 <= j < n ==> names.contains(#[trigger] candidate(d, j)),
            decreases names.len() + 1 - n,
        {
            proof {
                vstd::set_lib::lemma_len_subset(seen, names);
            }
            let numeral = roman_numerals(n);
            let mut potential_name = desired_name.clone();
            proof {
                reveal_strlit("_");
            }
            potential_name.append("_");
            potential_name.append(numeral.as_str());
            assert(potential_name@ =~= candidate(d, n as nat));
            if !self.contains(&potential_name) {
                return potential_name;
            }
            proof {
                let c = candidate(d, n as nat);
                assert(!seen.contains(c)) by {
                    if seen.contains(c) {
                        let j = choose|j: nat| 1 <= j < n && c == candidate(d, j);
                        candidate_injective(d, j, n as nat);
                    }
                }
                seen = seen.insert(c);
                vstd::set_lib::lemma_len_subset(seen, names);
            }
            n = n + 1;
        }
    }

    /// Hands out the name for `desired_name`: the desired name if it is free,
    /// else the first free `desired_name_N` with `N` a Roman numeral; the name
    /// handed out is taken from then on.
    pub fn uniqueify(&mut self, desired_name: String) -> (unique_name: String)
        requires
            old(self).names().len() < u64::MAX,
        ensures
            unused_name_for(old(self).names(), desired_name@, unique_name@),
            final(self).names() == old(self).names().insert(unique_name@),
    {
        let unique_name = self.find_unused_name(desired_name);
        let ghost old_names = self.names@;
        self.names.push(unique_name.clone());
        proof {
            assert(self.names@.map_values(|s: String| s@) =~= old_names.map_values(|s: String| s@).push(unique_name@));
            broadcast use vstd::seq_lib::group_seq_properties;
            assert(self.names() =~= old_names.map_values(|s: String| s@).to_set().insert(unique_name@));
        }
        unique_name
    }
}

impl Default for Nameserver {
    /// A name server that has handed out no name.
    fn default() -> (ns: Nameserver)
        ensures
            ns.names() == Set::<Seq<char>>::empty(),
    {
        let ns = Nameserver { names: Vec::new() };
        assert(ns.names() =~= Set::<Seq<char>>::empty());
        ns
    }
}

} // verus!
