//! Text as a sequence of characters versus text as a sequence of lines.
//!
//! A document stores its content as lines, none of which contains a newline
//! character; the flat text is the lines joined by `'\n'`. Splitting and
//! joining are exact inverses, which is what makes a save followed by a
//! reload return the original content.

use vstd::prelude::*;

verus! {

/// The lines of a document: at least one line, and no line contains `'\n'`.
pub open spec fn wf_lines(ls: Seq<Seq<char>>) -> bool {
    &&& ls.len() >= 1
    &&& forall|i: int| 0 <= i < ls.len() ==> !(#[trigger] ls[i]).contains('\n')
}

/// Split a flat text at each `'\n'`. The empty text is one empty line, and a
/// trailing `'\n'` produces a final empty line.
pub open spec fn split_lines(s: Seq<char>) -> Seq<Seq<char>>
    decreases s.len(),
{
    if s.len() == 0 {
        seq![Seq::<char>::empty()]
    } else if s[0] == '\n' {
        seq![Seq::<char>::empty()] + split_lines(s.skip(1))
    } else {
        let rest = split_lines(s.skip(1));
        seq![seq![s[0]] + rest[0]] + rest.skip(1)
    }
}

/// Join lines with `'\n'` between consecutive lines.
pub open spec fn join_lines(ls: Seq<Seq<char>>) -> Seq<char>
    decreases ls.len(),
{
    if ls.len() == 0 {
        Seq::<char>::empty()
    } else if ls.len() == 1 {
        ls[0]
    } else {
        ls[0].push('\n') + join_lines(ls.skip(1))
    }
}

pub proof fn lemma_split_lines_wf(s: Seq<char>)
    ensures
        wf_lines(split_lines(s)),
    decreases s.len(),
{
    if s.len() == 0 {
    } else {
        lemma_split_lines_wf(s.skip(1));
        if s[0] == '\n' {
        } else {
            let rest = split_lines(s.skip(1));
            assert(!rest[0].contains('\n'));
            if s[0] != '\n' {
                assert(forall|j: int|
                    0 <= j < (seq![s[0]] + rest[0]).len() ==> (seq![s[0]] + rest[0])[j] != '\n');
                assert(!(seq![s[0]] + rest[0]).contains('\n'));
            }
        }
    }
}

/// Splitting and then joining returns the original text.
pub proof fn lemma_join_split(s: Seq<char>)
    ensures
        join_lines(split_lines(s)) == s,
    decreases s.len(),
{
    if s.len() == 0 {
        assert(join_lines(split_lines(s)) =~= s);
    } else {
        lemma_join_split(s.skip(1));
        let rest = split_lines(s.skip(1));
        lemma_split_lines_wf(s.skip(1));
        if s[0] == '\n' {
            let all = seq![Seq::<char>::empty()] + rest;
            assert(all.skip(1) =~= rest);
            assert(join_lines(all) == Seq::<char>::empty().push('\n') + join_lines(rest));
            assert(join_lines(all) =~= s);
        } else {
            let all = seq![seq![s[0]] + rest[0]] + rest.skip(1);
            if rest.len() == 1 {
                assert(all.len() == 1);
                assert(join_lines(all) == seq![s[0]] + rest[0]);
                assert(join_lines(rest) == rest[0]);
                assert(join_lines(all) =~= s);
            } else {
                assert(all.len() >= 2);
                assert(all[0] == seq![s[0]] + rest[0]);
                assert(all.skip(1) =~= rest.skip(1));
                assert(join_lines(all) == (seq![s[0]] + rest[0]).push('\n') + join_lines(
                    rest.skip(1),
                ));
                assert(join_lines(rest) == rest[0].push('\n') + join_lines(rest.skip(1)));
                assert(join_lines(all) =~= seq![s[0]] + join_lines(rest));
                assert(join_lines(all) =~= s);
            }
        }
    }
}

/// How `split_lines` grows when one character is appended: a newline opens a
/// fresh empty line; any other character extends the final line.
pub proof fn lemma_split_lines_push(s: Seq<char>, c: char)
    ensures
        split_lines(s).len() >= 1,
        c == '\n' ==> split_lines(s.push(c)) == split_lines(s).push(Seq::<char>::empty()),
        c != '\n' ==> split_lines(s.push(c)) == split_lines(s).update(
            split_lines(s).len() - 1,
            split_lines(s).last().push(c),
        ),
    decreases s.len(),
{
    reveal_with_fuel(split_lines, 3);
    if s.len() == 0 {
        if c == '\n' {
            assert(s.push(c)[0] == '\n');
            assert(s.push(c).skip(1) =~= Seq::<char>::empty());
            assert(split_lines(s.push(c)) =~= split_lines(s).push(Seq::<char>::empty()));
        } else {
            assert(s.push(c)[0] == c);
            assert(s.push(c).skip(1) =~= Seq::<char>::empty());
            let rest = split_lines(Seq::<char>::empty());
            assert(split_lines(s.push(c)) == seq![seq![c] + rest[0]] + rest.skip(1));
            assert(rest.skip(1) =~= Seq::<Seq<char>>::empty());
            assert(seq![c] + rest[0] =~= split_lines(s).last().push(c));
            assert(split_lines(s.push(c)) =~= split_lines(s).update(
                split_lines(s).len() - 1,
                split_lines(s).last().push(c),
            ));
        }
    } else {
        lemma_split_lines_push(s.skip(1), c);
        assert(s.push(c)[0] == s[0]);
        assert(s.push(c).skip(1) =~= s.skip(1).push(c));
        let rest = split_lines(s.skip(1));
        let rest2 = split_lines(s.skip(1).push(c));
        if s[0] == '\n' {
            assert(split_lines(s) == seq![Seq::<char>::empty()] + rest);
            assert(split_lines(s.push(c)) == seq![Seq::<char>::empty()] + rest2);
            if c == '\n' {
                assert(split_lines(s.push(c)) =~= split_lines(s).push(Seq::<char>::empty()));
            } else {
                assert(split_lines(s).last() == rest.last());
                assert(split_lines(s.push(c)) =~= split_lines(s).update(
                    split_lines(s).len() - 1,
                    split_lines(s).last().push(c),
                ));
            }
        } else {
            assert(split_lines(s) == seq![seq![s[0]] + rest[0]] + rest.skip(1));
            assert(split_lines(s.push(c)) == seq![seq![s[0]] + rest2[0]] + rest2.skip(1));
            if c == '\n' {
                assert(rest2 == rest.push(Seq::<char>::empty()));
                assert(rest2[0] == rest[0]);
                assert(rest2.skip(1) =~= rest.skip(1).push(Seq::<char>::empty()));
                assert(split_lines(s.push(c)) =~= split_lines(s).push(Seq::<char>::empty()));
            } else {
                assert(rest2 == rest.update(rest.len() - 1, rest.last().push(c)));
                if rest.len() == 1 {
                    assert(rest2[0] == rest[0].push(c));
                    assert(rest2.skip(1) =~= rest.skip(1));
                    assert(split_lines(s).last() == seq![s[0]] + rest[0]);
                    assert(seq![s[0]] + rest2[0] =~= (seq![s[0]] + rest[0]).push(c));
                    assert(split_lines(s.push(c)) =~= split_lines(s).update(
                        split_lines(s).len() - 1,
                        split_lines(s).last().push(c),
                    ));
                } else {
                    assert(rest2[0] == rest[0]);
                    assert(rest2.skip(1) =~= rest.skip(1).update(
                        rest.len() - 2,
                        rest.last().push(c),
                    ));
                    assert(split_lines(s).last() == rest.last());
                    assert(split_lines(s.push(c)) =~= split_lines(s).update(
                        split_lines(s).len() - 1,
                        split_lines(s).last().push(c),
                    ));
                }
            }
        }
    }
}

/// How `join_lines` grows when one line is appended.
pub proof fn lemma_join_lines_push(ls: Seq<Seq<char>>, l: Seq<char>)
    ensures
        ls.len() == 0 ==> join_lines(ls.push(l)) == l,
        ls.len() >= 1 ==> join_lines(ls.push(l)) == join_lines(ls).push('\n') + l,
    decreases ls.len(),
{
    if ls.len() == 0 {
        assert(ls.push(l)[0] == l);
    } else if ls.len() == 1 {
        assert(ls.push(l).skip(1) =~= seq![l]);
        assert(join_lines(ls.push(l)) == ls[0].push('\n') + join_lines(seq![l]));
        assert(join_lines(seq![l]) == l);
        assert(join_lines(ls) == ls[0]);
    } else {
        lemma_join_lines_push(ls.skip(1), l);
        assert(ls.push(l).skip(1) =~= ls.skip(1).push(l));
        assert(join_lines(ls.push(l)) == ls[0].push('\n') + join_lines(ls.skip(1).push(l)));
        assert(join_lines(ls.skip(1).push(l)) == join_lines(ls.skip(1)).push('\n') + l);
        assert(ls[0].push('\n') + (join_lines(ls.skip(1)).push('\n') + l) =~= (ls[0].push('\n')
            + join_lines(ls.skip(1))).push('\n') + l);
    }
}

/// The view of a vector of lines as a sequence of character sequences.
pub open spec fn lines_view(lines: Seq<Vec<char>>) -> Seq<Seq<char>> {
    lines.map_values(|l: Vec<char>| l@)
}

/// Copy the characters of `v` in positions `[from, to)`.
pub fn copy_range(v: &Vec<char>, from: usize, to: usize) -> (r: Vec<char>)
    requires
        from <= to <= v@.len(),
    ensures
        r@ == v@.subrange(from as int, to as int),
{
    let mut r: Vec<char> = Vec::new();
    let mut i: usize = from;
    while i < to
        invariant
            from <= i <= to <= v@.len(),
            r@ == v@.subrange(from as int, i as int),
        decreases to - i,
    {
        r.push(v[i]);
        assert(r@ =~= v@.subrange(from as int, i + 1 as int));
        i = i + 1;
    }
    r
}

/// Append the characters of `tail` to `v`.
pub fn append_chars(v: &mut Vec<char>, tail: &Vec<char>)
    ensures
        final(v)@ == old(v)@ + tail@,
{
    let mut i: usize = 0;
    while i < tail.len()
        invariant
            i <= tail@.len(),
            v@ == old(v)@ + tail@.subrange(0, i as int),
        decreases tail@.len() - i,
    {
        v.push(tail[i]);
        assert(v@ =~= old(v)@ + tail@.subrange(0, i + 1 as int));
        i = i + 1;
    }
    assert(v@ =~= old(v)@ + tail@);
}

/// Split a flat text into its lines.
pub fn split_text(t: &Vec<char>) -> (lines: Vec<Vec<char>>)
    ensures
        lines_view(lines@) == split_lines(t@),
        lines@.len() >= 1,
{
    let mut lines: Vec<Vec<char>> = Vec::new();
    let mut cur: Vec<char> = Vec::new();
    let mut i: usize = 0;
    proof {
        assert(t@.subrange(0, 0) =~= Seq::<char>::empty());
        assert(split_lines(t@.subrange(0, 0)) =~= lines_view(lines@).push(cur@));
    }
    while i < t.len()
        invariant
            i <= t@.len(),
            split_lines(t@.subrange(0, i as int)) == lines_view(lines@).push(cur@),
        decreases t@.len() - i,
    {
        let ghost prefix = t@.subrange(0, i as int);
        proof {
            lemma_split_lines_push(prefix, t@[i as int]);
            assert(t@.subrange(0, i + 1 as int) =~= prefix.push(t@[i as int]));
        }
        let c = t[i];
        if c == '\n' {
            lines.push(cur);
            cur = Vec::new();
            proof {
                assert(split_lines(prefix.push(c)) == split_lines(prefix).push(
                    Seq::<char>::empty(),
                ));
                assert(split_lines(t@.subrange(0, i + 1 as int)) =~= lines_view(lines@).push(cur@));
            }
        } else {
            cur.push(c);
            proof {
                let sp = split_lines(prefix);
                assert(sp.last() == cur@.drop_last());
                assert(cur@.drop_last().push(t@[i as int]) =~= cur@);
                assert(split_lines(t@.subrange(0, i + 1 as int)) =~= lines_view(lines@).push(cur@));
            }
        }
        i = i + 1;
    }
    proof {
        assert(t@.subrange(0, t@.len() as int) =~= t@);
    }
    lines.push(cur);
    proof {
        assert(lines_view(lines@) =~= split_lines(t@));
    }
    lines
}

/// Join lines into a flat text.
pub fn join_text(lines: &Vec<Vec<char>>) -> (t: Vec<char>)
    requires
        lines@.len() >= 1,
    ensures
        t@ == join_lines(lines_view(lines@)),
{
    let mut t: Vec<char> = Vec::new();
    let mut k: usize = 0;
    proof {
        assert(lines_view(lines@).subrange(0, 0) =~= Seq::<Seq<char>>::empty());
    }
    while k < lines.len()
        invariant
            k <= lines@.len(),
            t@ == join_lines(lines_view(lines@).subrange(0, k as int)),
        decreases lines@.len() - k,
    {
        let ghost lv = lines_view(lines@);
        proof {
            lemma_join_lines_push(lv.subrange(0, k as int), lv[k as int]);
            assert(lv.subrange(0, k + 1 as int) =~= lv.subrange(0, k as int).push(lv[k as int]));
        }
        if k > 0 {
            t.push('\n');
        }
        append_chars(&mut t, &lines[k]);
        proof {
            if k == 0 {
                assert(t@ =~= lv[0]);
            } else {
                assert(t@ =~= join_lines(lv.subrange(0, k as int)).push('\n') + lv[k as int]);
            }
        }
        k = k + 1;
    }
    proof {
        assert(lines_view(lines@).subrange(0, lines@.len() as int) =~= lines_view(lines@));
    }
    t
}

} // verus!
