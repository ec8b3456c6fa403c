//! Line-oriented text: splitting as `str::lines` does, joining, and
//! replacing every occurrence of a pattern as `str::replace` does.

use vstd::prelude::*;
use crate::text::{join, join_chars, matches_at};

verus! {

/// A line without the `\r` of a `\r\n` ending.
pub open spec fn strip_cr(l: Seq<char>) -> Seq<char> {
    if l.len() > 0 && l.last() == '\r' {
        l.drop_last()
    } else {
        l
    }
}

/// The lines of `s[i..]`, given the line being read.
pub open spec fn lines_from(s: Seq<char>, i: int, cur: Seq<char>) -> Seq<Seq<char>>
    decreases s.len() - i,
{
    if i >= s.len() || i < 0 {
        if cur.len() > 0 {
            seq![cur]
        } else {
            Seq::empty()
        }
    } else if s[i] == '\n' {
        seq![strip_cr(cur)] + lines_from(s, i + 1, Seq::empty())
    } else {
        lines_from(s, i + 1, cur.push(s[i]))
    }
}

/// The lines of `s` as `str::lines` yields them: split at `\n` (a `\r`
/// before it is dropped); a final line ending adds no empty line.
pub open spec fn lines(s: Seq<char>) -> Seq<Seq<char>> {
    lines_from(s, 0, Seq::empty())
}

/// The lines of `s`.
pub fn split_lines(s: &Vec<char>) -> (r: Vec<Vec<char>>)
    ensures
        r@.map_values(|w: Vec<char>| w@) == lines(s@),
{
    let mut out: Vec<Vec<char>> = Vec::new();
    let mut cur: Vec<char> = Vec::new();
    let mut i: usize = 0;
    while i < s.len()
        invariant
            i <= s.len(),
            out@.map_values(|w: Vec<char>| w@) + lines_from(s@, i as int, cur@) == lines(s@),
        decreases s.len() - i,
    {
        let ghost before = out@.map_values(|w: Vec<char>| w@);
        let ghost old_cur = cur@;
        if s[i] == '\n' {
            let mut w = cur;
            let n = w.len();
            if n > 0 && w[n - 1] == '\r' {
                w.pop();
                assert(w@ =~= old_cur.drop_last());
            }
            cur = Vec::new();
            out.push(w);
            assert(out@.map_values(|w: Vec<char>| w@) =~= before.push(strip_cr(old_cur)));
            assert(cur@ =~= Seq::<char>::empty());
            assert(before + lines_from(s@, i as int, old_cur) =~= out@.map_values(
                |w: Vec<char>| w@,
            ) + lines_from(s@, i + 1, cur@));
        } else {
            cur.push(s[i]);
            assert(lines_from(s@, i as int, old_cur) == lines_from(s@, i + 1, old_cur.push(s@[i as int])));
            assert(out@.map_values(|w: Vec<char>| w@) == before);
        }
        i = i + 1;
    }
    if cur.len() > 0 {
        let ghost before = out@.map_values(|w: Vec<char>| w@);
        out.push(cur);
        assert(out@.map_values(|w: Vec<char>| w@) =~= before.push(cur@));
    }
    assert(out@.map_values(|w: Vec<char>| w@) =~= lines(s@));
    out
}

/// Joins lines with `\n` between them.
pub fn join_lines(parts: &Vec<Vec<char>>) -> (r: Vec<char>)
    ensures
        r@ == join(parts@.map_values(|w: Vec<char>| w@), seq!['\n']),
{
    let sep = vec!['\n'];
    assert(sep@ =~= seq!['\n']);
    let r = join_chars(parts, parts.len(), &sep);
    assert(parts@.map_values(|w: Vec<char>| w@).take(parts.len() as int) =~= parts@.map_values(
        |w: Vec<char>| w@,
    ));
    r
}

/// No line break in `s`.
pub open spec fn no_newline(s: Seq<char>) -> bool {
    forall|j: int| 0 <= j < s.len() ==> s[j] != '\n'
}

/// Each of `ls` followed by a line break.
pub open spec fn terminated(ls: Seq<Seq<char>>) -> Seq<char>
    decreases ls.len(),
{
    if ls.len() == 0 {
        Seq::empty()
    } else {
        ls[0] + seq!['\n'] + terminated(ls.skip(1))
    }
}

proof fn lemma_terminated_push(ls: Seq<Seq<char>>, x: Seq<char>)
    ensures
        terminated(ls.push(x)) == terminated(ls) + x + seq!['\n'],
    decreases ls.len(),
{
    if ls.len() == 0 {
        assert(ls.push(x).skip(1) =~= Seq::<Seq<char>>::empty());
        assert(terminated(ls.push(x).skip(1)) == Seq::<char>::empty());
        assert(ls.push(x)[0] == x);
        assert(terminated(ls.push(x)) =~= terminated(ls) + x + seq!['\n']);
    } else {
        lemma_terminated_push(ls.skip(1), x);
        assert(ls.push(x).skip(1) =~= ls.skip(1).push(x));
        assert(terminated(ls.push(x)) =~= terminated(ls) + x + seq!['\n']);
    }
}

/// Joining lines with `\n` and ending with one more puts a break after
/// every line.
proof fn lemma_join_terminated(ls: Seq<Seq<char>>)
    requires
        ls.len() > 0,
    ensures
        join(ls, seq!['\n']) + seq!['\n'] == terminated(ls),
    decreases ls.len(),
{
    if ls.len() == 1 {
        assert(ls.skip(1) =~= Seq::<Seq<char>>::empty());
        assert(terminated(ls.skip(1)) == Seq::<char>::empty());
        assert(terminated(ls) =~= ls[0] + seq!['\n']);
    } else {
        lemma_join_terminated(ls.drop_last());
        lemma_terminated_push(ls.drop_last(), ls.last());
        assert(ls.drop_last().push(ls.last()) =~= ls);
        assert(join(ls, seq!['\n']) + seq!['\n'] =~= join(ls.drop_last(), seq!['\n']) + seq!['\n'] + ls.last()
            + seq!['\n']);
    }
}

/// Reading a line `l` that ends at a break.
proof fn lemma_lines_through(s: Seq<char>, i: int, cur: Seq<char>, l: Seq<char>)
    requires
        0 <= i,
        i + l.len() < s.len(),
        no_newline(l),
        s.subrange(i, i + l.len()) == l,
        s[i + l.len()] == '\n',
    ensures
        lines_from(s, i, cur) == seq![strip_cr(cur + l)] + lines_from(s, i + l.len() + 1, Seq::empty()),
    decreases l.len(),
{
    if l.len() == 0 {
        assert(cur + l =~= cur);
    } else {
        assert(s[i] == s.subrange(i, i + l.len())[0]);
        assert(s.subrange(i + 1, i + 1 + l.skip(1).len()) =~= l.skip(1));
        lemma_lines_through(s, i + 1, cur.push(l[0]), l.skip(1));
        assert(cur.push(l[0]) + l.skip(1) =~= cur + l);
    }
}

proof fn lemma_lines_of_terminated(s: Seq<char>, i: int, ls: Seq<Seq<char>>)
    requires
        0 <= i <= s.len(),
        s.skip(i) == terminated(ls),
        forall|k: int| 0 <= k < ls.len() ==> no_newline(#[trigger] ls[k]),
    ensures
        lines_from(s, i, Seq::empty()) == ls.map_values(|l: Seq<char>| strip_cr(l)),
    decreases ls.len(),
{
    if ls.len() == 0 {
        assert(s.skip(i).len() == 0);
        assert(ls.map_values(|l: Seq<char>| strip_cr(l)) =~= Seq::<Seq<char>>::empty());
    } else {
        let l = ls[0];
        let rest = terminated(ls.skip(1));
        assert(s.skip(i) == l + seq!['\n'] + rest);
        assert(s.subrange(i, i + l.len()) =~= l) by {
            assert forall|j: int| 0 <= j < l.len() implies s[i + j] == l[j] by {
                assert(s.skip(i)[j] == s[i + j]);
                assert((l + seq!['\n'] + rest)[j] == l[j]);
            }
        }
        assert(s[i + l.len()] == '\n') by {
            assert(s.skip(i)[l.len() as int] == s[i + l.len()]);
            assert((l + seq!['\n'] + rest)[l.len() as int] == '\n');
        }
        lemma_lines_through(s, i, Seq::empty(), l);
        assert(s.skip(i + l.len() + 1) =~= rest) by {
            assert forall|j: int| 0 <= j < rest.len() implies s.skip(i + l.len() + 1)[j] == rest[j] by {
                assert(s.skip(i)[l.len() + 1 + j] == s[i + l.len() + 1 + j]);
                assert((l + seq!['\n'] + rest)[l.len() + 1 + j] == rest[j]);
            }
        }
        assert forall|k: int| 0 <= k < ls.skip(1).len() implies no_newline(#[trigger] ls.skip(1)[k]) by {
            assert(ls.skip(1)[k] == ls[k + 1]);
        }
        lemma_lines_of_terminated(s, i + l.len() + 1, ls.skip(1));
        assert(Seq::<char>::empty() + l =~= l);
        assert(ls.map_values(|l: Seq<char>| strip_cr(l)) =~= seq![strip_cr(l)] + ls.skip(1).map_values(
            |l: Seq<char>| strip_cr(l),
        ));
    }
}

/// Lines without breaks, joined with `\n` and ended with one, split back
/// into the same lines, less a `\r` that ended one.
pub proof fn lemma_lines_of_joined(ls: Seq<Seq<char>>)
    requires
        ls.len() > 0,
        forall|k: int| 0 <= k < ls.len() ==> no_newline(#[trigger] ls[k]),
    ensures
        lines(join(ls, seq!['\n']) + seq!['\n']) == ls.map_values(|l: Seq<char>| strip_cr(l)),
{
    lemma_join_terminated(ls);
    let s = join(ls, seq!['\n']) + seq!['\n'];
    assert(s.skip(0) =~= s);
    lemma_lines_of_terminated(s, 0, ls);
}

/// No line that `lines_from` yields holds a break.
pub proof fn lemma_lines_have_no_newline(s: Seq<char>, i: int, cur: Seq<char>)
    requires
        no_newline(cur),
    ensures
        forall|k: int|
            0 <= k < lines_from(s, i, cur).len() ==> no_newline(#[trigger] lines_from(s, i, cur)[k]),
    decreases s.len() - i,
{
    if i >= s.len() || i < 0 {
        if cur.len() > 0 {
            assert(lines_from(s, i, cur) == seq![cur]);
            assert forall|k: int| 0 <= k < lines_from(s, i, cur).len() implies no_newline(
                #[trigger] lines_from(s, i, cur)[k],
            ) by {
                assert(k == 0);
                assert(seq![cur][0] == cur);
            }
        } else {
            assert(lines_from(s, i, cur).len() == 0);
        }
    } else if s[i] == '\n' {
        lemma_lines_have_no_newline(s, i + 1, Seq::empty());
        let head = strip_cr(cur);
        assert(no_newline(head));
        let res = lines_from(s, i, cur);
        let tail = lines_from(s, i + 1, Seq::empty());
        assert(res == seq![head] + tail);
        assert forall|k: int| 0 <= k < res.len() implies no_newline(#[trigger] res[k]) by {
            if k == 0 {
                assert(res[0] == head);
            } else {
                assert(res[k] == tail[k - 1]);
            }
        }
    } else {
        assert(no_newline(cur.push(s[i])));
        lemma_lines_have_no_newline(s, i + 1, cur.push(s[i]));
        assert(lines_from(s, i, cur) == lines_from(s, i + 1, cur.push(s[i])));
    }
}

/// `s` with every occurrence of `pat` replaced by `rep`, scanning left to
/// right without overlaps, as `str::replace` does; an empty pattern matches
/// before every character and at the end.
pub open spec fn replaced(s: Seq<char>, pat: Seq<char>, rep: Seq<char>) -> Seq<char>
    decreases s.len(),
{
    if pat.len() == 0 {
        if s.len() == 0 {
            rep
        } else {
            rep + seq![s[0]] + replaced(s.drop_first(), pat, rep)
        }
    } else if s.len() < pat.len() {
        s
    } else if s.take(pat.len() as int) == pat {
        rep + replaced(s.skip(pat.len() as int), pat, rep)
    } else {
        seq![s[0]] + replaced(s.drop_first(), pat, rep)
    }
}

fn append_all(out: &mut Vec<char>, xs: &Vec<char>)
    ensures
        final(out)@ == old(out)@ + xs@,
{
    let mut k: usize = 0;
    while k < xs.len()
        invariant
            k <= xs.len(),
            out@ == old(out)@ + xs@.take(k as int),
        decreases xs.len() - k,
    {
        out.push(xs[k]);
        assert(xs@.take(k + 1) =~= xs@.take(k as int).push(xs@[k as int]));
        k = k + 1;
    }
    assert(xs@.take(xs.len() as int) =~= xs@);
}

/// Replaces every occurrence of `pat` in `s` by `rep`.
pub fn replace_all(s: &Vec<char>, pat: &Vec<char>, rep: &Vec<char>) -> (r: Vec<char>)
    ensures
        r@ == replaced(s@, pat@, rep@),
{
    let mut out: Vec<char> = Vec::new();
    let mut i: usize = 0;
    assert(s@.skip(0) =~= s@);
    while i < s.len()
        invariant
            i <= s.len(),
            out@ + replaced(s@.skip(i as int), pat@, rep@) == replaced(s@, pat@, rep@),
        decreases s.len() - i,
    {
        let ghost rest = s@.skip(i as int);
        let ghost before = out@;
        assert(rest[0] == s@[i as int]);
        assert(rest.drop_first() =~= s@.skip(i + 1));
        if pat.len() == 0 {
            append_all(&mut out, rep);
            out.push(s[i]);
            assert(out@ =~= before + rep@ + seq![s@[i as int]]);
            i = i + 1;
        } else if pat.len() > s.len() - i {
            append_all(&mut out, &slice_rest(s, i));
            assert(replaced(rest, pat@, rep@) == rest);
            assert(s@.skip(s.len() as int) =~= Seq::<char>::empty());
            assert(replaced(Seq::<char>::empty(), pat@, rep@) =~= Seq::<char>::empty());
            i = s.len();
        } else if matches_at(s, pat, i) {
            assert(rest.take(pat@.len() as int) =~= s@.subrange(i as int, i + pat@.len()));
            assert(rest.skip(pat@.len() as int) =~= s@.skip(i + pat@.len()));
            append_all(&mut out, rep);
            i = i + pat.len();
        } else {
            assert(rest.take(pat@.len() as int) =~= s@.subrange(i as int, i + pat@.len()));
            out.push(s[i]);
            assert(out@ =~= before + seq![s@[i as int]]);
            i = i + 1;
        }
    }
    proof {
        let e = s@.skip(i as int);
        assert(e =~= Seq::<char>::empty());
        if pat@.len() > 0 {
            assert(replaced(e, pat@, rep@) == e);
        }
    }
    if pat.len() == 0 {
        let ghost before = out@;
        append_all(&mut out, rep);
        assert(replaced(Seq::<char>::empty(), pat@, rep@) == rep@);
    } else {
        assert(out@ =~= out@ + Seq::<char>::empty());
    }
    out
}

fn slice_rest(s: &Vec<char>, i: usize) -> (r: Vec<char>)
    requires
        i <= s.len(),
    ensures
        r@ == s@.skip(i as int),
{
    let mut out: Vec<char> = Vec::new();
    let mut k: usize = i;
    while k < s.len()
        invariant
            i <= k <= s.len(),
            out@ == s@.subrange(i as int, k as int),
        decreases s.len() - k,
    {
        out.push(s[k]);
        assert(s@.subrange(i as int, k + 1) =~= s@.subrange(i as int, k as int).push(s@[k as int]));
        k = k + 1;
    }
    assert(s@.subrange(i as int, s.len() as int) =~= s@.skip(i as int));
    out
}

} // verus!
