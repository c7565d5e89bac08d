//! Dedenting as `indoc!()` does it: the first line, on the line of the opening quote, is left as
//! it is and does not count in the indentation that the later lines lose.

use vstd::prelude::*;
use crate::doc::{
    split_lines, lines, count_spaces, min_indent, indent, line_out, join_lines, dedent,
};
use crate::parse::tag::{is_space, skip_spaces};

verus! {

proof fn lemma_split_lines_nonempty(s: Seq<char>)
    ensures
        split_lines(s).len() >= 1,
    decreases s.len(),
{
    if s.len() > 0 {
        lemma_split_lines_nonempty(s.drop_last());
    }
}

/// A line without a line break is one line.
proof fn lemma_split_one(f: Seq<char>)
    requires
        forall|i: int| 0 <= i < f.len() ==> f[i] != '\n',
    ensures
        split_lines(f) == seq![f],
    decreases f.len(),
{
    if f.len() > 0 {
        lemma_split_one(f.drop_last());
        assert(f.drop_last().push(f.last()) =~= f);
        assert(seq![f.drop_last()].update(0, f.drop_last().push(f.last())) =~= seq![f]);
    } else {
        assert(f =~= Seq::<char>::empty());
    }
}

/// The lines on either side of a line break are the lines of each side.
proof fn lemma_split_concat(a: Seq<char>, b: Seq<char>)
    ensures
        split_lines(a + seq!['\n'] + b) == split_lines(a) + split_lines(b),
    decreases b.len(),
{
    let x = a + seq!['\n'] + b;
    if b.len() == 0 {
        assert(x.drop_last() =~= a);
        assert(split_lines(a).push(Seq::<char>::empty()) =~= split_lines(a) + seq![
            Seq::<char>::empty(),
        ]);
    } else {
        lemma_split_concat(a, b.drop_last());
        lemma_split_lines_nonempty(b.drop_last());
        assert(x.drop_last() =~= a + seq!['\n'] + b.drop_last());
        assert(x.last() == b.last());
        let la = split_lines(a);
        let lb = split_lines(b.drop_last());
        if b.last() == '\n' {
            assert((la + lb).push(Seq::<char>::empty()) =~= la + lb.push(Seq::<char>::empty()));
        } else {
            let l = la + lb;
            assert(l.update(l.len() - 1, l.last().push(b.last())) =~= la + lb.update(
                lb.len() - 1,
                lb.last().push(b.last()),
            ));
        }
    }
}

/// The smallest indentation does not look at the first line.
proof fn lemma_min_indent_tail(ls: Seq<Seq<char>>, ls2: Seq<Seq<char>>, k: int)
    requires
        k <= ls.len(),
        ls.len() == ls2.len(),
        forall|i: int| 1 <= i < ls.len() ==> ls[i] == ls2[i],
    ensures
        min_indent(ls, k) == min_indent(ls2, k),
    decreases k,
{
    if k > 1 {
        lemma_min_indent_tail(ls, ls2, k - 1);
    }
}

proof fn lemma_join_tail(ls: Seq<Seq<char>>, ls2: Seq<Seq<char>>, k: int, m: int)
    requires
        2 <= k <= ls.len(),
        ls.len() == ls2.len(),
        ls2[0].len() == 0,
        forall|i: int| 1 <= i < ls.len() ==> ls[i] == ls2[i],
    ensures
        join_lines(ls, k, m, false) == ls[0] + seq!['\n'] + join_lines(ls2, k, m, true),
    decreases k,
{
    if k == 2 {
        assert(join_lines(ls, 0, m, false) == Seq::<char>::empty());
        assert(join_lines(ls2, 0, m, true) == Seq::<char>::empty());
        assert(join_lines(ls, 1, m, false) == Seq::<char>::empty() + line_out(ls, 0, m, false));
        assert(join_lines(ls2, 1, m, true) == Seq::<char>::empty() + line_out(ls2, 0, m, true));
        assert(line_out(ls2, 0, m, true) =~= Seq::<char>::empty());
        assert(line_out(ls, 0, m, false) =~= ls[0]);
        assert(line_out(ls, 1, m, false) =~= seq!['\n'] + line_out(ls2, 1, m, true));
        assert(join_lines(ls2, 2, m, true) =~= line_out(ls2, 1, m, true));
        assert(join_lines(ls, 2, m, false) =~= ls[0] + seq!['\n'] + line_out(ls2, 1, m, true));
    } else {
        lemma_join_tail(ls, ls2, k - 1, m);
        assert(line_out(ls, k - 1, m, false) == line_out(ls2, k - 1, m, true));
        assert(ls[0] + seq!['\n'] + join_lines(ls2, k - 1, m, true) + line_out(ls2, k - 1, m, true)
            =~= ls[0] + seq!['\n'] + (join_lines(ls2, k - 1, m, true) + line_out(
            ls2,
            k - 1,
            m,
            true,
        )));
    }
}

/// The first line of a text that starts on the line of the opening quote is kept as it is,
/// and it does not count in the indentation that the later lines lose: those are dedented as if
/// the text started on the next line.
pub proof fn law_first_line_kept(f: Seq<char>, t: Seq<char>)
    requires
        f.len() > 0,
        forall|i: int| 0 <= i < f.len() ==> f[i] != '\n',
        t.len() > 0,
    ensures
        dedent(f + seq!['\n'] + t) == f + seq!['\n'] + dedent(seq!['\n'] + t),
{
    let s = f + seq!['\n'] + t;
    let s2 = Seq::<char>::empty() + seq!['\n'] + t;
    assert(s2 =~= seq!['\n'] + t);
    let t1 = if t.last() == '\n' { t.drop_last() } else { t };
    assert(s.last() == t.last());
    assert(s2.last() == t.last());
    if t.last() == '\n' {
        assert(s.drop_last() =~= f + seq!['\n'] + t1);
        assert(s2.drop_last() =~= Seq::<char>::empty() + seq!['\n'] + t1);
    } else {
        assert(s =~= f + seq!['\n'] + t1);
        assert(s2 =~= Seq::<char>::empty() + seq!['\n'] + t1);
    }
    lemma_split_concat(f, t1);
    lemma_split_concat(Seq::<char>::empty(), t1);
    lemma_split_one(f);
    lemma_split_one(Seq::<char>::empty());
    lemma_split_lines_nonempty(t1);
    let ls = lines(s);
    let ls2 = lines(s2);
    let lt = split_lines(t1);
    assert(ls == seq![f] + lt);
    assert(ls2 == seq![Seq::<char>::empty()] + lt);
    assert forall|i: int| 1 <= i < ls.len() implies ls[i] == ls2[i] by {
        assert(ls[i] == lt[i - 1]);
        assert(ls2[i] == lt[i - 1]);
    }
    lemma_min_indent_tail(ls, ls2, ls.len() as int);
    assert(indent(ls) == indent(ls2));
    assert(s[0] == f[0]);
    assert(s2[0] == '\n');
    lemma_join_tail(ls, ls2, ls.len() as int, indent(ls));
    assert(ls[0] == f);
    let tail = if t.last() == '\n' {
        seq!['\n']
    } else {
        Seq::<char>::empty()
    };
    assert(f + seq!['\n'] + join_lines(ls2, ls2.len() as int, indent(ls2), true) + tail =~= f
        + seq!['\n'] + (join_lines(ls2, ls2.len() as int, indent(ls2), true) + tail));
}

/// `k` spaces.
pub open spec fn spaces(k: nat) -> Seq<char> {
    Seq::new(k, |i: int| ' ')
}

/// `t` with `k` more spaces at the start of each of its lines.
pub open spec fn indent_text(t: Seq<char>, k: nat) -> Seq<char>
    decreases t.len(),
{
    if t.len() == 0 {
        spaces(k)
    } else if t.last() == '\n' {
        indent_text(t.drop_last(), k) + seq!['\n'] + spaces(k)
    } else {
        indent_text(t.drop_last(), k).push(t.last())
    }
}

proof fn lemma_indent_lines(t: Seq<char>, k: nat)
    ensures
        split_lines(indent_text(t, k)) == split_lines(t).map_values(|l: Seq<char>| spaces(k) + l),
        t.len() > 0 && t.last() != '\n' ==> indent_text(t, k).len() > 0 && indent_text(t, k).last()
            == t.last(),
    decreases t.len(),
{
    let f = |l: Seq<char>| spaces(k) + l;
    if t.len() == 0 {
        lemma_split_one(spaces(k));
        assert(seq![spaces(k)] =~= seq![Seq::<char>::empty()].map_values(f)) by {
            assert(spaces(k) + Seq::<char>::empty() =~= spaces(k));
        }
    } else {
        lemma_indent_lines(t.drop_last(), k);
        lemma_split_lines_nonempty(t.drop_last());
        let a = indent_text(t.drop_last(), k);
        let la = split_lines(t.drop_last());
        if t.last() == '\n' {
            lemma_split_concat(a, spaces(k));
            lemma_split_one(spaces(k));
            assert(la.push(Seq::<char>::empty()).map_values(f) =~= la.map_values(f) + seq![
                spaces(k),
            ]) by {
                assert(spaces(k) + Seq::<char>::empty() =~= spaces(k));
            }
        } else {
            let x = a.push(t.last());
            assert(x.drop_last() =~= a);
            let lm = la.map_values(f);
            let lb = la.update(la.len() - 1, la.last().push(t.last()));
            assert(lm.update(lm.len() - 1, lm.last().push(t.last())) =~= lb.map_values(f)) by {
                assert(spaces(k) + la.last().push(t.last()) =~= (spaces(k) + la.last()).push(
                    t.last(),
                ));
            }
        }
    }
}

proof fn lemma_skip_prefix(l: Seq<char>, k: nat, i: int)
    requires
        0 <= i <= k,
    ensures
        skip_spaces(spaces(k) + l, i, (k + l.len()) as int) == k + skip_spaces(l, 0, l.len() as int),
    decreases k + l.len() - i,
{
    let x = spaces(k) + l;
    if i < k {
        assert(x[i] == ' ');
        lemma_skip_prefix(l, k, i + 1);
    } else {
        lemma_skip_tail(l, k, 0);
    }
}

proof fn lemma_skip_tail(l: Seq<char>, k: nat, j: int)
    requires
        0 <= j <= l.len(),
    ensures
        skip_spaces(spaces(k) + l, k + j, (k + l.len()) as int) == k + skip_spaces(l, j, l.len() as int),
    decreases l.len() - j,
{
    if j < l.len() {
        assert((spaces(k) + l)[k + j] == l[j]);
        lemma_skip_tail(l, k, j + 1);
    }
}

/// Indenting a line by `k` adds `k` to its indentation; a line of spaces stays one.
proof fn lemma_count_spaces_indented(l: Seq<char>, k: nat)
    ensures
        count_spaces(spaces(k) + l) == (match count_spaces(l) {
            Some(c) => Some(c + k),
            None => None,
        }),
{
    lemma_skip_prefix(l, k, 0);
    crate::parse::tag::lemma_skip_spaces(l, 0, l.len() as int);
}

pub open spec fn plus(o: Option<int>, k: nat) -> Option<int> {
    match o {
        Some(c) => Some(c + k),
        None => None,
    }
}

proof fn lemma_min_indent_indented(ls: Seq<Seq<char>>, k: nat, j: int)
    requires
        j <= ls.len(),
    ensures
        min_indent(ls.map_values(|l: Seq<char>| spaces(k) + l), j) == plus(min_indent(ls, j), k),
    decreases j,
{
    if j > 1 {
        lemma_min_indent_indented(ls, k, j - 1);
        lemma_count_spaces_indented(ls[j - 1], k);
    }
}

proof fn lemma_join_indented(ls: Seq<Seq<char>>, ls2: Seq<Seq<char>>, k: nat, m: int, j: int)
    requires
        0 <= m,
        0 <= j <= ls.len(),
        ls.len() == ls2.len(),
        ls[0].len() == 0 && ls2[0].len() == 0,
        forall|i: int| 1 <= i < ls.len() ==> #[trigger] ls2[i] == spaces(k) + ls[i],
    ensures
        join_lines(ls2, j, m + k, true) == join_lines(ls, j, m, true),
    decreases j,
{
    if j > 0 {
        lemma_join_indented(ls, ls2, k, m, j - 1);
        let i = j - 1;
        if i == 0 {
            assert(line_out(ls2, 0, m + k, true) =~= line_out(ls, 0, m, true));
        } else {
            let l = ls[i];
            assert(ls2[i] == spaces(k) + l);
            if l.len() > m {
                assert((spaces(k) + l).skip(m + k) =~= l.skip(m));
            }
        }
    }
}

/// Indenting every line of a text that starts on the line after the opening quote by the same
/// number of spaces changes nothing in the result: only the indentation relative to the least
/// indented line that holds more than spaces is kept.
pub proof fn law_common_indentation_removed(t: Seq<char>, k: nat)
    requires
        exists|i: int| 0 <= i < t.len() && t[i] != '\n' && !is_space(#[trigger] t[i]),
        t.last() != '\n',
    ensures
        dedent(seq!['\n'] + indent_text(t, k)) == dedent(seq!['\n'] + t),
{
    let w = choose|i: int| 0 <= i < t.len() && t[i] != '\n' && !is_space(#[trigger] t[i]);
    lemma_indent_lines(t, k);
    let u = indent_text(t, k);
    let s = seq!['\n'] + t;
    let s2 = seq!['\n'] + u;
    assert(s =~= Seq::<char>::empty() + seq!['\n'] + t);
    assert(s2 =~= Seq::<char>::empty() + seq!['\n'] + u);
    lemma_split_concat(Seq::<char>::empty(), t);
    lemma_split_concat(Seq::<char>::empty(), u);
    lemma_split_one(Seq::<char>::empty());
    lemma_split_lines_nonempty(t);
    assert(s.last() == t.last());
    assert(s2.last() == u.last());
    let lt = split_lines(t);
    let ls = lines(s);
    let ls2 = lines(s2);
    let g = |l: Seq<char>| spaces(k) + l;
    assert(ls == seq![Seq::<char>::empty()] + lt);
    assert(ls2 == seq![Seq::<char>::empty()] + lt.map_values(g));
    let lsm = ls.map_values(g);
    assert forall|i: int| 1 <= i < ls.len() implies #[trigger] ls2[i] == spaces(k) + ls[i] by {
        assert(ls2[i] == lt.map_values(g)[i - 1]);
    }
    assert forall|i: int| 1 <= i < ls.len() implies #[trigger] lsm[i] == ls2[i] by {}
    lemma_min_indent_indented(ls, k, ls.len() as int);
    lemma_min_indent_tail(lsm, ls2, ls.len() as int);
    assert(min_indent(ls, ls.len() as int) is Some) by {
        lemma_nonblank_line(t, w);
        let li = choose|i: int| 0 <= i < lt.len() && #[trigger] count_spaces(lt[i]) is Some;
        assert(ls[li + 1] == lt[li]);
        lemma_min_indent_some(ls, li + 1, ls.len() as int);
    }
    let m = indent(ls);
    assert(m >= 0) by {
        lemma_min_indent_nonneg(ls, ls.len() as int);
    }
    assert(indent(ls2) == m + k);
    lemma_join_indented(ls, ls2, k, m, ls.len() as int);
}

proof fn lemma_min_indent_nonneg(ls: Seq<Seq<char>>, j: int)
    requires
        j <= ls.len(),
    ensures
        min_indent(ls, j) matches Some(c) ==> c >= 0,
    decreases j,
{
    if j > 1 {
        lemma_min_indent_nonneg(ls, j - 1);
        crate::parse::tag::lemma_skip_spaces(ls[j - 1], 0, ls[j - 1].len() as int);
    }
}

proof fn lemma_min_indent_some(ls: Seq<Seq<char>>, i: int, j: int)
    requires
        1 <= i < j <= ls.len(),
        count_spaces(ls[i]) is Some,
    ensures
        min_indent(ls, j) is Some,
    decreases j,
{
    if j - 1 > i {
        lemma_min_indent_some(ls, i, j - 1);
    }
}

/// A character that is neither a space nor a line break makes its line hold more than spaces.
proof fn lemma_nonblank_line(t: Seq<char>, w: int)
    requires
        0 <= w < t.len(),
        t[w] != '\n',
        !is_space(t[w]),
    ensures
        exists|i: int| 0 <= i < split_lines(t).len() && #[trigger] count_spaces(split_lines(t)[i]) is Some,
    decreases t.len(),
{
    lemma_split_lines_nonempty(t);
    if w == t.len() - 1 {
        lemma_split_lines_nonempty(t.drop_last());
        let ls = split_lines(t.drop_last());
        let line = ls.last().push(t.last());
        crate::parse::tag::lemma_skip_spaces(line, 0, line.len() as int);
        let c = skip_spaces(line, 0, line.len() as int);
        assert(c < line.len()) by {
            if c == line.len() {
                assert(is_space(line[line.len() - 1]));
            }
        }
        assert(split_lines(t)[ls.len() - 1] == line);
        assert(count_spaces(split_lines(t)[ls.len() - 1]) is Some);
    } else {
        lemma_nonblank_line(t.drop_last(), w);
        let ls = split_lines(t.drop_last());
        let i = choose|i: int| 0 <= i < ls.len() && #[trigger] count_spaces(ls[i]) is Some;
        if t.last() == '\n' {
            assert(split_lines(t)[i] == ls[i]);
            assert(count_spaces(split_lines(t)[i]) is Some);
        } else if i < ls.len() - 1 {
            assert(split_lines(t)[i] == ls[i]);
            assert(count_spaces(split_lines(t)[i]) is Some);
        } else {
            let line = ls.last().push(t.last());
            assert(split_lines(t)[i] == line);
            crate::parse::tag::lemma_skip_spaces(ls[i], 0, ls[i].len() as int);
            crate::parse::tag::lemma_skip_spaces(line, 0, line.len() as int);
            lemma_skip_extend(ls[i], t.last(), 0);
            assert(count_spaces(split_lines(t)[i]) is Some);
        }
    }
}

proof fn lemma_skip_extend(l: Seq<char>, c: char, a: int)
    requires
        0 <= a <= l.len(),
        skip_spaces(l, a, l.len() as int) < l.len(),
    ensures
        skip_spaces(l.push(c), a, (l.len() + 1) as int) == skip_spaces(l, a, l.len() as int),
    decreases l.len() - a,
{
    assert(l.push(c)[a] == l[a]);
    if is_space(l[a]) {
        lemma_skip_extend(l, c, a + 1);
    }
}

} // verus!
