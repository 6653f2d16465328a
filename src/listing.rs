use vstd::prelude::*;
use vstd::string::*;
use crate::rotation::names_of;
use crate::text::{lemma_lex_total, lex_le, text_eq, text_le};

verus! {

broadcast use vstd::seq_lib::group_to_multiset_ensures;

/// A line without the carriage return that ended it, if one did.
pub open spec fn strip_cr(line: Seq<char>) -> Seq<char> {
    if line.len() > 0 && line.last() == '\r' {
        line.drop_last()
    } else {
        line
    }
}

/// The lines of `s`: the pieces between line feeds, each without its line
/// ending (`\n` or `\r\n`); a final line ending adds no empty line.
pub open spec fn lines_of(s: Seq<char>) -> Seq<Seq<char>>
    decreases s.len(),
{
    if s.len() == 0 {
        seq![]
    } else {
        match s.index_of_first('\n') {
            Some(k) => {
                proof {
                    s.index_of_first_ensures('\n');
                }
                seq![strip_cr(s.take(k))] + lines_of(s.skip(k + 1))
            },
            None => seq![s],
        }
    }
}

/// The configuration named by a listing line `NAME:TYPE`, when its type is
/// `wireguard`. The name ends at the first colon.
pub open spec fn tunnel_of(line: Seq<char>) -> Option<Seq<char>> {
    match line.index_of_first(':') {
        Some(k) => if line.skip(k + 1) == "wireguard"@ {
            Some(line.take(k))
        } else {
            None
        },
        None => None,
    }
}

/// The tunnel configurations named by `lines`, in the order of the lines.
pub open spec fn tunnels_in(lines: Seq<Seq<char>>) -> Seq<Seq<char>>
    decreases lines.len(),
{
    if lines.len() == 0 {
        seq![]
    } else {
        let rest = tunnels_in(lines.drop_last());
        match tunnel_of(lines.last()) {
            Some(name) => rest.push(name),
            None => rest,
        }
    }
}

/// Every name comes no later than the one after it.
pub open spec fn sorted(names: Seq<Seq<char>>) -> bool {
    forall|i: int| 0 <= i < names.len() - 1 ==> lex_le(#[trigger] names[i], names[i + 1])
}

/// The configuration that a single listing line names, if it is a tunnel.
pub fn tunnel_of_line(line: &str) -> (r: Option<String>)
    ensures
        match r {
            Some(name) => tunnel_of(line@) == Some(name@),
            None => tunnel_of(line@) is None,
        },
{
    let n = line.unicode_len();
    let mut i: usize = 0;
    while i < n
        invariant
            n == line@.len(),
            i <= n,
            forall|j: int| 0 <= j < i ==> line@[j] != ':',
        ensures
            i < n ==> line@[i as int] == ':',
            forall|j: int| 0 <= j < i ==> line@[j] != ':',
        decreases n - i,
    {
        if line.get_char(i) == ':' {
            break;
        }
        i = i + 1;
    }
    proof {
        line@.index_of_first_ensures(':');
    }
    if i == n {
        return None;
    }
    assert(line@.index_of_first(':') == Some(i as int));
    let kind = line.substring_char(i + 1, n);
    assert(kind@ =~= line@.skip(i + 1));
    if text_eq(kind, "wireguard") {
        let name = line.substring_char(0, i);
        assert(name@ =~= line@.take(i as int));
        Some(name.to_owned())
    } else {
        None
    }
}

/// Unfolds `lines_of` at a line feed at position `i`, with no line feed
/// between `start` and it.
proof fn lemma_lines_step(s: Seq<char>, start: int, i: int)
    requires
        0 <= start <= i < s.len(),
        s[i] == '\n',
        forall|j: int| start <= j < i ==> s[j] != '\n',
    ensures
        lines_of(s.skip(start)) == seq![strip_cr(s.subrange(start, i))] + lines_of(
            s.skip(i + 1),
        ),
{
    let t = s.skip(start);
    t.index_of_first_ensures('\n');
    assert(t[i - start] == '\n');
    assert(t.index_of_first('\n') == Some(i - start));
    assert(t.take(i - start) =~= s.subrange(start, i));
    assert(t.skip(i - start + 1) =~= s.skip(i + 1));
}

/// Unfolds `lines_of` on a last line that no line feed ends.
proof fn lemma_lines_last(s: Seq<char>, start: int)
    requires
        0 <= start <= s.len(),
        forall|j: int| start <= j < s.len() ==> s[j] != '\n',
    ensures
        start < s.len() ==> lines_of(s.skip(start)) == seq![s.skip(start)],
        start == s.len() ==> lines_of(s.skip(start)) == Seq::<Seq<char>>::empty(),
{
    let t = s.skip(start);
    t.index_of_first_ensures('\n');
    if start < s.len() {
        assert(!t.contains('\n')) by {
            if t.contains('\n') {
                let j = choose|j: int| 0 <= j < t.len() && t[j] == '\n';
                assert(s[start + j] == '\n');
            }
        }
    } else {
        assert(t.len() == 0);
    }
}

/// A line without the carriage return that ended it, if one did.
fn without_cr(line: &str) -> (r: &str)
    ensures
        r@ == strip_cr(line@),
{
    let n = line.unicode_len();
    if n > 0 && line.get_char(n - 1) == '\r' {
        let r = line.substring_char(0, n - 1);
        assert(r@ =~= line@.drop_last());
        r
    } else {
        line
    }
}

/// The lines of `text`, as `lines_of` describes them.
pub fn split_lines(text: &str) -> (r: Vec<String>)
    ensures
        names_of(r@) == lines_of(text@),
{
    let ghost s = text@;
    let n = text.unicode_len();
    let mut out: Vec<String> = Vec::new();
    let mut start: usize = 0;
    let mut i: usize = 0;
    assert(s.skip(0) =~= s);
    assert(names_of(out@) =~= Seq::<Seq<char>>::empty());
    while i < n
        invariant
            s == text@,
            n == s.len(),
            start <= i <= n,
            lines_of(s) == names_of(out@) + lines_of(s.skip(start as int)),
            forall|j: int| start <= j < i ==> s[j] != '\n',
        decreases n - i,
    {
        if text.get_char(i) == '\n' {
            let line = without_cr(text.substring_char(start, i));
            proof {
                lemma_lines_step(s, start as int, i as int);
            }
            let ghost before = names_of(out@);
            out.push(line.to_owned());
            assert(names_of(out@) =~= before.push(line@));
            assert(lines_of(s) =~= names_of(out@) + lines_of(s.skip(i + 1)));
            start = i + 1;
        }
        i = i + 1;
    }
    proof {
        lemma_lines_last(s, start as int);
    }
    if start < n {
        let line = text.substring_char(start, n);
        assert(line@ =~= s.skip(start as int));
        let ghost before = names_of(out@);
        out.push(line.to_owned());
        assert(names_of(out@) =~= before.push(line@));
        assert(lines_of(s) =~= names_of(out@));
    } else {
        assert(lines_of(s) =~= names_of(out@));
    }
    out
}

/// The tunnel configurations that a connection listing names, in the order of
/// its lines.
pub fn tunnels_listed(listing: &str) -> (r: Vec<String>)
    ensures
        names_of(r@) == tunnels_in(lines_of(listing@)),
{
    let lines = split_lines(listing);
    let ghost all = names_of(lines@);
    let mut out: Vec<String> = Vec::new();
    let mut i: usize = 0;
    assert(all.take(0) =~= Seq::<Seq<char>>::empty());
    assert(names_of(out@) =~= Seq::<Seq<char>>::empty());
    while i < lines.len()
        invariant
            all == names_of(lines@),
            all == lines_of(listing@),
            i <= all.len(),
            names_of(out@) == tunnels_in(all.take(i as int)),
        decreases all.len() - i,
    {
        assert(all.take(i + 1).drop_last() =~= all.take(i as int));
        if let Some(name) = tunnel_of_line(lines[i].as_str()) {
            let ghost before = names_of(out@);
            let ghost v = name@;
            out.push(name);
            assert(names_of(out@) =~= before.push(v));
        }
        i = i + 1;
    }
    assert(all.take(all.len() as int) =~= all);
    out
}

/// Inserting an element adds it to the multiset, wherever it goes.
proof fn lemma_insert_multiset(names: Seq<Seq<char>>, k: int, x: Seq<char>)
    requires
        0 <= k <= names.len(),
    ensures
        names.insert(k, x).to_multiset() =~= names.to_multiset().insert(x),
{
    broadcast use vstd::multiset::group_multiset_axioms;

    let t = names.insert(k, x);
    assert(t.remove(k) =~= names);
    assert(t[k] == x);
}

/// The names of `v` in lexicographic order.
pub fn sort_names(v: Vec<String>) -> (r: Vec<String>)
    ensures
        sorted(names_of(r@)),
        names_of(r@).to_multiset() == names_of(v@).to_multiset(),
{
    let mut out: Vec<String> = Vec::new();
    let mut i: usize = 0;
    assert(names_of(v@).take(0) =~= names_of(out@));
    while i < v.len()
        invariant
            i <= v@.len(),
            sorted(names_of(out@)),
            names_of(out@).to_multiset() == names_of(v@).take(i as int).to_multiset(),
        decreases v@.len() - i,
    {
        let x = v[i].clone();
        let mut k: usize = 0;
        while k < out.len() && text_le(out[k].as_str(), x.as_str())
            invariant
                k <= out@.len(),
                forall|j: int| 0 <= j < k ==> lex_le(#[trigger] out@[j]@, x@),
            decreases out@.len() - k,
        {
            k = k + 1;
        }
        let ghost before = names_of(out@);
        proof {
            if k < out@.len() {
                lemma_lex_total(out@[k as int]@, x@);
            }
        }
        out.insert(k, x);
        proof {
            let after = names_of(out@);
            assert(after =~= before.insert(k as int, x@));
            before.insert_ensures(k as int, x@);
            assert forall|j: int| 0 <= j < after.len() - 1 implies lex_le(
                #[trigger] after[j],
                after[j + 1],
            ) by {
                if j + 1 < k {
                    assert(lex_le(before[j], before[j + 1]));
                } else if j + 1 == k {
                } else if j == k {
                } else {
                    assert(lex_le(before[j - 1], before[j]));
                }
            }
            lemma_insert_multiset(before, k as int, x@);
            assert(names_of(v@).take(i + 1) =~= names_of(v@).take(i as int).push(x@));
        }
        i = i + 1;
    }
    assert(names_of(v@).take(v@.len() as int) =~= names_of(v@));
    out
}

/// The tunnel configurations that a connection listing names, in
/// lexicographic order.
pub fn tunnel_names(listing: &str) -> (r: Vec<String>)
    ensures
        sorted(names_of(r@)),
        names_of(r@).to_multiset() == tunnels_in(lines_of(listing@)).to_multiset(),
{
    sort_names(tunnels_listed(listing))
}

} // verus!
