use vstd::prelude::*;
use crate::text::text_eq;

verus! {

/// The names held by a list of configuration names, as character sequences.
pub open spec fn names_of(list: Seq<String>) -> Seq<Seq<char>> {
    list.map_values(|s: String| s@)
}

/// Where a rotation starts: the first position of `current` in `list`, or
/// the front of the list when `current` is not in it.
pub open spec fn start_of(list: Seq<Seq<char>>, current: Seq<char>) -> int {
    match list.index_of_first(current) {
        Some(i) => i,
        None => 0,
    }
}

/// The name one step away from `current`, treating `list` as a ring: the next
/// one, or with `reverse` the previous one.
pub open spec fn rotated(current: Seq<char>, list: Seq<Seq<char>>, reverse: bool) -> Seq<char> {
    let n = list.len() as int;
    let i = start_of(list, current);
    if reverse {
        list[(i + n - 1) % n]
    } else {
        list[(i + 1) % n]
    }
}

/// The configuration after (or, with `reverse`, before) `current` in `list`,
/// wrapping around at both ends. A `current` that is not in the list counts
/// as standing at the front.
pub fn rotate_current(current: &str, list: &[String], reverse: bool) -> (r: String)
    requires
        list@.len() > 0,
    ensures
        r@ == rotated(current@, names_of(list@), reverse),
{
    let n = list.len();
    let ghost names = names_of(list@);
    let mut i: usize = 0;
    let mut found = false;
    while i < n
        invariant_except_break
            !found,
        invariant
            n == list@.len(),
            names == names_of(list@),
            i <= n,
            forall|j: int| 0 <= j < i ==> names[j] != current@,
        ensures
            found ==> i < n && names[i as int] == current@,
            !found ==> i == n,
            forall|j: int| 0 <= j < i ==> names[j] != current@,
        decreases n - i,
    {
        if text_eq(list[i].as_str(), current) {
            found = true;
            break;
        }
        i = i + 1;
    }
    proof {
        names.index_of_first_ensures(current@);
    }
    let start = if found {
        i
    } else {
        0
    };
    assert(start == start_of(names, current@));
    let k = if reverse {
        if start == 0 {
            n - 1
        } else {
            start - 1
        }
    } else {
        if start + 1 == n {
            0
        } else {
            start + 1
        }
    };
    proof {
        let (s, m) = (start as int, n as int);
        if reverse {
            if s == 0 {
                assert((s + m - 1) % m == m - 1) by (nonlinear_arith)
                    requires s == 0, m > 0;
            } else {
                assert((s + m - 1) % m == s - 1) by (nonlinear_arith)
                    requires 0 < s < m;
            }
        } else {
            if s + 1 == m {
                vstd::arithmetic::div_mod::lemma_mod_self_0(m);
            } else {
                assert((s + 1) % m == s + 1) by (nonlinear_arith)
                    requires 0 <= s, s + 1 < m;
            }
        }
    }
    list[k].clone()
}

/// In a list without repeats, the rotation of the name at position `k`
/// starts from `k`.
pub proof fn lemma_start_of_listed(list: Seq<Seq<char>>, k: int)
    requires
        list.no_duplicates(),
        0 <= k < list.len(),
    ensures
        start_of(list, list[k]) == k,
{
    list.index_of_first_ensures(list[k]);
}

/// Rotating forward and then backward, or backward and then forward, returns
/// to the name one started from, for every name of a list without repeats.
pub proof fn lemma_rotation_inverts(list: Seq<Seq<char>>, x: Seq<char>)
    requires
        list.len() > 0,
        list.no_duplicates(),
        list.contains(x),
    ensures
        rotated(rotated(x, list, false), list, true) == x,
        rotated(rotated(x, list, true), list, false) == x,
{
    let n = list.len() as int;
    let k = choose|k: int| 0 <= k < n && list[k] == x;
    lemma_start_of_listed(list, k);
    let f = if k + 1 == n { 0 } else { k + 1 };
    let b = if k == 0 { n - 1 } else { k - 1 };
    if k + 1 == n {
        vstd::arithmetic::div_mod::lemma_mod_self_0(n);
    } else {
        assert((k + 1) % n == k + 1) by (nonlinear_arith)
            requires 0 <= k, k + 1 < n;
    }
    if k == 0 {
        assert((k + n - 1) % n == n - 1) by (nonlinear_arith)
            requires k == 0, n > 0;
    } else {
        assert((k + n - 1) % n == k - 1) by (nonlinear_arith)
            requires 0 < k < n;
    }
    lemma_start_of_listed(list, f);
    lemma_start_of_listed(list, b);
    if f == 0 {
        assert((f + n - 1) % n == n - 1) by (nonlinear_arith)
            requires f == 0, n > 0;
    } else {
        assert((f + n - 1) % n == f - 1) by (nonlinear_arith)
            requires 0 < f < n;
    }
    if b + 1 == n {
        vstd::arithmetic::div_mod::lemma_mod_self_0(n);
    } else {
        assert((b + 1) % n == b + 1) by (nonlinear_arith)
            requires 0 <= b, b + 1 < n;
    }
}

/// At the ends of a list without repeats the rotation wraps around: forward
/// from the last name gives the first, backward from the first gives the last.
pub proof fn lemma_rotation_wraps(list: Seq<Seq<char>>)
    requires
        list.len() > 0,
        list.no_duplicates(),
    ensures
        rotated(list.last(), list, false) == list[0],
        rotated(list[0], list, true) == list.last(),
{
    let n = list.len() as int;
    lemma_start_of_listed(list, n - 1);
    lemma_start_of_listed(list, 0);
    vstd::arithmetic::div_mod::lemma_mod_self_0(n);
    assert((n - 1) % n == n - 1) by (nonlinear_arith)
        requires n > 0;
}

/// A list of one name rotates onto that name in both directions.
pub proof fn lemma_rotation_single(a: Seq<char>)
    ensures
        rotated(a, seq![a], false) == a,
        rotated(a, seq![a], true) == a,
{
    let list = seq![a];
    list.index_of_first_ensures(a);
    assert(start_of(list, a) == 0);
    assert((0 + 1) % 1 == 0int);
    assert((0 + 1 - 1) % 1 == 0int);
}

/// A name that is not in the list rotates as if it stood at the front:
/// forward gives the second name (the only one, in a list of one), backward
/// gives the last.
pub proof fn lemma_rotation_unknown(list: Seq<Seq<char>>, x: Seq<char>)
    requires
        list.len() > 0,
        !list.contains(x),
    ensures
        rotated(x, list, false) == list[1int % (list.len() as int)],
        rotated(x, list, true) == list.last(),
{
    let n = list.len() as int;
    list.index_of_first_ensures(x);
    assert((0 + n - 1) % n == n - 1) by (nonlinear_arith)
        requires n > 0;
}

} // verus!
