//! Character-level text operations used by the listing logic: building strings,
//! comparing them, replacing every occurrence of a pattern and splitting on a
//! separator, each stated over the character sequences the strings view as.
use vstd::prelude::*;

verus! {

/// `String::push`: appends one character to the string.
#[verifier::external_body]
fn push_char(s: &mut String, c: char)
    ensures
        final(s)@ == old(s)@.push(c),
{
    s.push(c);
}

/// The characters of a string slice, in order.
pub fn chars_of(s: &str) -> (res: Vec<char>)
    ensures
        res@ == s@,
{
    let mut res: Vec<char> = Vec::new();
    for c in it: s.chars()
        invariant
            res@ == it.seq().take(it.index() as int),
            it.seq() == s@,
    {
        res.push(c);
    }
    res
}

/// The string made of the given characters, in order.
pub fn string_of(cs: &Vec<char>) -> (res: String)
    ensures
        res@ == cs@,
{
    let mut res = String::new();
    let mut i: usize = 0;
    while i < cs.len()
        invariant
            i <= cs.len(),
            res@ == cs@.take(i as int),
        decreases cs.len() - i,
    {
        push_char(&mut res, cs[i]);
        assert(cs@.take(i as int).push(cs@[i as int]) =~= cs@.take(i + 1));
        i = i + 1;
    }
    assert(cs@.take(cs.len() as int) =~= cs@);
    res
}

/// Whether two string slices hold the same characters.
pub fn same_text(a: &str, b: &str) -> (res: bool)
    ensures
        res == (a@ == b@),
{
    let x = a.to_string();
    let y = b.to_string();
    x == y
}

/// Whether `pat` occurs in `s` starting at position `i`.
fn occurs_at(s: &Vec<char>, i: usize, pat: &Vec<char>) -> (res: bool)
    requires
        i + pat@.len() <= s@.len(),
    ensures
        res == (s@.subrange(i as int, i + pat@.len()) == pat@),
{
    let mut j: usize = 0;
    while j < pat.len()
        invariant
            i + pat@.len() <= s@.len(),
            j <= pat@.len(),
            forall|k: int| 0 <= k < j ==> s@[i + k] == pat@[k],
        decreases pat.len() - j,
    {
        assert(i + j < s.len());
        if s[i + j] != pat[j] {
            assert(s@.subrange(i as int, i + pat@.len())[j as int] != pat@[j as int]);
            return false;
        }
        j = j + 1;
    }
    assert(s@.subrange(i as int, i + pat@.len()) =~= pat@);
    true
}

/// `s` from position `i` on, with every occurrence of `from` replaced by `to`,
/// occurrences taken left to right without overlap (as `str::replace` takes them).
pub open spec fn replaced_from(s: Seq<char>, from: Seq<char>, to: Seq<char>, i: int) -> Seq<char>
    decreases s.len() - i,
{
    if from.len() == 0 || i < 0 || i + from.len() > s.len() {
        s.subrange(i, s.len() as int)
    } else if s.subrange(i, i + from.len()) == from {
        to + replaced_from(s, from, to, i + from.len())
    } else {
        seq![s[i]] + replaced_from(s, from, to, i + 1)
    }
}

/// `s` with every occurrence of the non-empty pattern `from` replaced by `to`.
pub open spec fn replaced(s: Seq<char>, from: Seq<char>, to: Seq<char>) -> Seq<char> {
    replaced_from(s, from, to, 0)
}

/// Replaces every occurrence of the non-empty pattern `from` in `s` by `to`,
/// scanning left to right.
pub fn replace_all(s: &Vec<char>, from: &Vec<char>, to: &Vec<char>) -> (res: Vec<char>)
    requires
        from@.len() > 0,
    ensures
        res@ == replaced(s@, from@, to@),
{
    let n = s.len();
    let flen = from.len();
    let mut out: Vec<char> = Vec::new();
    let mut i: usize = 0;
    while flen <= n - i
        invariant
            n == s@.len(),
            flen == from@.len(),
            flen > 0,
            i <= n,
            replaced(s@, from@, to@) == out@ + replaced_from(s@, from@, to@, i as int),
        decreases n - i,
    {
        let ghost before = out@;
        if occurs_at(s, i, from) {
            let mut k: usize = 0;
            while k < to.len()
                invariant
                    k <= to@.len(),
                    out@ == before + to@.take(k as int),
                decreases to.len() - k,
            {
                out.push(to[k]);
                assert(before + to@.take(k + 1) =~= (before + to@.take(k as int)).push(to@[k as int]));
                k = k + 1;
            }
            assert(to@.take(to@.len() as int) =~= to@);
            assert(before + (to@ + replaced_from(s@, from@, to@, i + flen)) =~= out@
                + replaced_from(s@, from@, to@, i + flen));
            i = i + flen;
        } else {
            out.push(s[i]);
            assert(before + (seq![s@[i as int]] + replaced_from(s@, from@, to@, i + 1)) =~= out@
                + replaced_from(s@, from@, to@, i + 1));
            i = i + 1;
        }
    }
    let ghost before = out@;
    let mut j: usize = i;
    while j < n
        invariant
            n == s@.len(),
            i <= j <= n,
            out@ == before + s@.subrange(i as int, j as int),
        decreases n - j,
    {
        out.push(s[j]);
        assert(before + s@.subrange(i as int, j + 1) =~= (before + s@.subrange(i as int, j as int)).push(s@[j as int]));
        j = j + 1;
    }
    out
}

/// The pieces of `s` between occurrences of `sep`, as `str::split` yields them:
/// `k` separators give `k + 1` pieces, empty ones included.
pub open spec fn split_pieces(s: Seq<char>, sep: char) -> Seq<Seq<char>>
    decreases s.len(),
{
    if s.len() == 0 {
        seq![Seq::empty()]
    } else {
        let init = split_pieces(s.drop_last(), sep);
        if s.last() == sep {
            init.push(Seq::empty())
        } else {
            init.update(init.len() - 1, init.last().push(s.last()))
        }
    }
}

/// The non-empty pieces of `s` between occurrences of `sep`, in order.
pub open spec fn nonempty_pieces(s: Seq<char>, sep: char) -> Seq<Seq<char>> {
    split_pieces(s, sep).filter(|p: Seq<char>| p.len() > 0)
}

/// There is always at least one piece.
proof fn lemma_split_pieces_len(s: Seq<char>, sep: char)
    ensures
        split_pieces(s, sep).len() >= 1,
    decreases s.len(),
{
    if s.len() > 0 {
        lemma_split_pieces_len(s.drop_last(), sep);
    }
}

/// Replacing a one-character pattern by nothing leaves no occurrence of it.
pub proof fn law_removed_char_is_gone(s: Seq<char>, c: char)
    ensures
        !replaced(s, seq![c], Seq::empty()).contains(c),
{
    lemma_removed_char_is_gone_from(s, c, 0);
}

proof fn lemma_removed_char_is_gone_from(s: Seq<char>, c: char, i: int)
    requires
        0 <= i <= s.len(),
    ensures
        !replaced_from(s, seq![c], Seq::empty(), i).contains(c),
    decreases s.len() - i,
{
    let pat = seq![c];
    if i + 1 > s.len() {
        assert(s.subrange(i, s.len() as int) =~= Seq::<char>::empty());
    } else if s.subrange(i, i + 1) == pat {
        lemma_removed_char_is_gone_from(s, c, i + 1);
        assert(Seq::<char>::empty() + replaced_from(s, pat, Seq::empty(), i + 1) =~= replaced_from(
            s,
            pat,
            Seq::empty(),
            i + 1,
        ));
    } else {
        lemma_removed_char_is_gone_from(s, c, i + 1);
        assert(s.subrange(i, i + 1)[0] == s[i]);
        assert(s[i] != c) by {
            if s[i] == c {
                assert(s.subrange(i, i + 1) =~= pat);
            }
        }
        let rest = replaced_from(s, pat, Seq::empty(), i + 1);
        let r = seq![s[i]] + rest;
        assert forall|k: int| 0 <= k < r.len() implies r[k] != c by {
            if k > 0 {
                assert(r[k] == rest[k - 1]);
            }
        }
    }
}

/// The pieces joined back together, with `sep` between each two.
pub open spec fn joined(pieces: Seq<Seq<char>>, sep: char) -> Seq<char>
    decreases pieces.len(),
{
    if pieces.len() == 0 {
        Seq::empty()
    } else if pieces.len() == 1 {
        pieces[0]
    } else {
        joined(pieces.drop_last(), sep).push(sep) + pieces.last()
    }
}

/// Splitting loses nothing: joining the pieces with the separator gives back the
/// text, and no piece holds the separator.
pub proof fn law_split_pieces_rejoin(s: Seq<char>, sep: char)
    ensures
        joined(split_pieces(s, sep), sep) == s,
        forall|i: int|
            0 <= i < split_pieces(s, sep).len() ==> !(#[trigger] split_pieces(s, sep)[i]).contains(
                sep,
            ),
    decreases s.len(),
{
    if s.len() == 0 {
        assert(joined(split_pieces(s, sep), sep) =~= s);
    } else {
        let init = split_pieces(s.drop_last(), sep);
        let c = s.last();
        law_split_pieces_rejoin(s.drop_last(), sep);
        lemma_split_pieces_len(s.drop_last(), sep);
        let ps = split_pieces(s, sep);
        if c == sep {
            assert(ps.drop_last() =~= init);
            assert(joined(ps, sep) =~= s);
            assert forall|i: int| 0 <= i < ps.len() implies !(#[trigger] ps[i]).contains(sep) by {
                if i < init.len() {
                    assert(ps[i] == init[i]);
                } else {
                    assert(ps[i] =~= Seq::<char>::empty());
                }
            }
        } else {
            let n = init.len();
            if n == 1 {
                assert(joined(ps, sep) =~= s);
            } else {
                assert(ps.drop_last() =~= init.drop_last());
                let a = joined(init.drop_last(), sep).push(sep);
                assert(joined(init, sep) == a + init.last());
                assert(ps.last() == init.last().push(c));
                assert(joined(ps, sep) == a + init.last().push(c));
                assert(a + init.last().push(c) =~= (a + init.last()).push(c));
                assert(s.drop_last().push(c) =~= s);
            }
            assert forall|i: int| 0 <= i < ps.len() implies !(#[trigger] ps[i]).contains(sep) by {
                if i < n - 1 {
                    assert(ps[i] == init[i]);
                } else {
                    let last = init[n - 1];
                    assert(!last.contains(sep));
                    assert forall|k: int| 0 <= k < ps[i].len() implies ps[i][k] != sep by {
                        if k < last.len() {
                            assert(ps[i][k] == last[k]);
                        }
                    }
                }
            }
        }
    }
}

/// The non-empty pieces are the lines of the text: none is empty and none holds
/// the separator.
pub proof fn law_nonempty_pieces_are_lines(s: Seq<char>, sep: char)
    ensures
        forall|i: int|
            0 <= i < nonempty_pieces(s, sep).len() ==> (#[trigger] nonempty_pieces(s, sep)[i]).len()
                > 0 && !nonempty_pieces(s, sep)[i].contains(sep),
{
    let ps = split_pieces(s, sep);
    let pos = |p: Seq<char>| p.len() > 0;
    law_split_pieces_rejoin(s, sep);
    lemma_filter_subset(ps, pos);
    assert forall|i: int| 0 <= i < nonempty_pieces(s, sep).len() implies (#[trigger] nonempty_pieces(
        s,
        sep,
    )[i]).len() > 0 && !nonempty_pieces(s, sep)[i].contains(sep) by {
        ps.lemma_filter_pred(pos, i);
        let j = choose|j: int| 0 <= j < ps.len() && ps[j] == ps.filter(pos)[i];
        assert(!ps[j].contains(sep));
    }
}

/// Every element kept by a filter comes from the filtered sequence.
proof fn lemma_filter_subset<A>(s: Seq<A>, pred: spec_fn(A) -> bool)
    ensures
        forall|i: int|
            0 <= i < s.filter(pred).len() ==> exists|j: int|
                0 <= j < s.len() && s[j] == #[trigger] s.filter(pred)[i],
    decreases s.len(),
{
    reveal(Seq::filter);
    if s.len() > 0 {
        let init = s.drop_last();
        lemma_filter_subset(init, pred);
        let f = s.filter(pred);
        assert forall|i: int| 0 <= i < f.len() implies exists|j: int|
            0 <= j < s.len() && s[j] == #[trigger] f[i] by {
            if i < init.filter(pred).len() {
                assert(f[i] == init.filter(pred)[i]);
                let j = choose|j: int| 0 <= j < init.len() && init[j] == init.filter(pred)[i];
                assert(s[j] == init[j]);
            } else {
                assert(s[s.len() - 1] == f[i]);
            }
        }
    }
}

/// The views of a sequence of strings.
pub open spec fn strings_view(v: Seq<String>) -> Seq<Seq<char>> {
    v.map_values(|x: String| x@)
}

/// Splits `s` at every `sep` and keeps the non-empty pieces, in order.
pub fn split_nonempty(s: &str, sep: char) -> (res: Vec<String>)
    ensures
        strings_view(res@) == nonempty_pieces(s@, sep),
{
    let cs = chars_of(s);
    let n = cs.len();
    let mut out: Vec<String> = Vec::new();
    let mut cur: Vec<char> = Vec::new();
    let mut i: usize = 0;
    let ghost pos = |p: Seq<char>| p.len() > 0;
    proof {
        assert(cs@.take(0) =~= Seq::<char>::empty());
        assert(split_pieces(Seq::<char>::empty(), sep).drop_last() =~= Seq::<Seq<char>>::empty());
        assert(strings_view(out@) =~= Seq::<Seq<char>>::empty());
    }
    while i < n
        invariant
            n == cs@.len(),
            cs@ == s@,
            i <= n,
            pos == (|p: Seq<char>| p.len() > 0),
            strings_view(out@) == split_pieces(cs@.take(i as int), sep).drop_last().filter(pos),
            cur@ == split_pieces(cs@.take(i as int), sep).last(),
        decreases n - i,
    {
        let c = cs[i];
        let ghost prev = cs@.take(i as int);
        let ghost next = cs@.take(i + 1);
        let ghost old_pieces = split_pieces(prev, sep);
        let ghost old_out = out@;
        proof {
            assert(next.drop_last() =~= prev);
            assert(next.last() == c);
            lemma_split_pieces_len(prev, sep);
        }
        if c == sep {
            if cur.len() > 0 {
                let piece = string_of(&cur);
                out.push(piece);
                assert(strings_view(out@) =~= strings_view(old_out).push(cur@));
            }
            proof {
                let new_pieces = split_pieces(next, sep);
                assert(new_pieces == old_pieces.push(Seq::empty()));
                assert(new_pieces.drop_last() =~= old_pieces);
                reveal(Seq::filter);
                let d = old_pieces;
                assert(d.drop_last() =~= old_pieces.drop_last());
                assert(d.filter(pos) == if pos(d.last()) {
                    d.drop_last().filter(pos).push(d.last())
                } else {
                    d.drop_last().filter(pos)
                });
            }
            cur = Vec::new();
            proof {
                assert(cur@ =~= split_pieces(next, sep).last());
            }
        } else {
            cur.push(c);
            proof {
                let new_pieces = split_pieces(next, sep);
                assert(new_pieces == old_pieces.update(old_pieces.len() - 1, old_pieces.last().push(c)));
                assert(new_pieces.drop_last() =~= old_pieces.drop_last());
            }
        }
        i = i + 1;
    }
    let ghost old_out = out@;
    let ghost all = split_pieces(cs@, sep);
    proof {
        assert(cs@.take(n as int) =~= cs@);
        lemma_split_pieces_len(cs@, sep);
        reveal(Seq::filter);
        assert(all.filter(pos) == if pos(all.last()) {
            all.drop_last().filter(pos).push(all.last())
        } else {
            all.drop_last().filter(pos)
        });
    }
    if cur.len() > 0 {
        let piece = string_of(&cur);
        out.push(piece);
        assert(strings_view(out@) =~= strings_view(old_out).push(cur@));
    }
    out
}

} // verus!
