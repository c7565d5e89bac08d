//! Dedenting, as `indoc!()` does it: the work that the `...doc!` macros add to `cformat!`.
//!
//! The first line is kept as it is, and dropped when it is empty (the text starts on the line
//! after the opening quote). The indentation that every later line that holds more than spaces
//! shares (spaces and tabs) is removed from every later line; a line of spaces shorter than that
//! becomes empty. A final line break is kept.

use vstd::prelude::*;
use crate::ansi::colorize;
use crate::parse::tag::skip_spaces;
use crate::parse::types::{Error, describes};
use crate::text::{chars_of, push_range};

verus! {

/// The pieces of `s` between its line breaks (one more piece than line breaks).
pub open spec fn split_lines(s: Seq<char>) -> Seq<Seq<char>>
    decreases s.len(),
{
    if s.len() == 0 {
        seq![Seq::empty()]
    } else if s.last() == '\n' {
        split_lines(s.drop_last()).push(Seq::empty())
    } else {
        let ls = split_lines(s.drop_last());
        ls.update(ls.len() - 1, ls.last().push(s.last()))
    }
}

/// The lines of `s`, as `str::lines` cuts them: a final line break ends the last line rather
/// than starting an empty one.
pub open spec fn lines(s: Seq<char>) -> Seq<Seq<char>> {
    if s.len() == 0 {
        Seq::empty()
    } else if s.last() == '\n' {
        split_lines(s.drop_last())
    } else {
        split_lines(s)
    }
}

/// The indentation of a line, or `None` if it holds only spaces.
pub open spec fn count_spaces(line: Seq<char>) -> Option<int> {
    let k = skip_spaces(line, 0, line.len() as int);
    if k < line.len() {
        Some(k)
    } else {
        None
    }
}

pub open spec fn min_option(a: Option<int>, b: Option<int>) -> Option<int> {
    match (a, b) {
        (Some(x), Some(y)) => Some(if x <= y { x } else { y }),
        (Some(x), None) => Some(x),
        (None, y) => y,
    }
}

/// The smallest indentation of the lines from the second to the `k`-th that hold more than
/// spaces.
pub open spec fn min_indent(ls: Seq<Seq<char>>, k: int) -> Option<int>
    decreases k,
{
    if k <= 1 {
        None
    } else {
        min_option(min_indent(ls, k - 1), count_spaces(ls[k - 1]))
    }
}

/// The indentation to remove.
pub open spec fn indent(ls: Seq<Seq<char>>) -> int {
    match min_indent(ls, ls.len() as int) {
        Some(m) => m,
        None => 0,
    }
}

/// What line `i` contributes: the line break before it (none before the first line, and none
/// before the second if the first is dropped), then the line itself, less `m` characters of
/// indentation after the first line.
pub open spec fn line_out(ls: Seq<Seq<char>>, i: int, m: int, drop_first: bool) -> Seq<char> {
    (if i > 1 || (i == 1 && !drop_first) {
        seq!['\n']
    } else {
        Seq::empty()
    }) + (if i == 0 {
        ls[0]
    } else if ls[i].len() > m {
        ls[i].skip(m)
    } else {
        Seq::empty()
    })
}

/// The contributions of the first `k` lines.
pub open spec fn join_lines(ls: Seq<Seq<char>>, k: int, m: int, drop_first: bool) -> Seq<char>
    decreases k,
{
    if k <= 0 {
        Seq::empty()
    } else {
        join_lines(ls, k - 1, m, drop_first) + line_out(ls, k - 1, m, drop_first)
    }
}

/// `s` dedented.
pub open spec fn dedent(s: Seq<char>) -> Seq<char> {
    let ls = lines(s);
    join_lines(ls, ls.len() as int, indent(ls), s.len() > 0 && s[0] == '\n') + (if s.len() > 0
        && s.last() == '\n' {
        seq!['\n']
    } else {
        Seq::empty()
    })
}

pub open spec fn line_views(ls: Seq<Vec<char>>) -> Seq<Seq<char>> {
    ls.map_values(|l: Vec<char>| l@)
}

/// The pieces of the first `end` characters of `s` between line breaks.
fn split_chars(s: &Vec<char>, end: usize) -> (ls: Vec<Vec<char>>)
    requires
        end <= s@.len(),
    ensures
        line_views(ls@) == split_lines(s@.take(end as int)),
{
    let mut ls: Vec<Vec<char>> = Vec::new();
    let mut cur: Vec<char> = Vec::new();
    let mut i: usize = 0;
    assert(s@.take(0) =~= Seq::<char>::empty());
    assert(line_views(ls@).push(cur@) =~= seq![Seq::<char>::empty()]);
    while i < end
        invariant
            i <= end <= s@.len(),
            line_views(ls@).push(cur@) == split_lines(s@.take(i as int)),
        decreases end - i,
    {
        let c = s[i];
        let ghost before = line_views(ls@).push(cur@);
        assert(s@.take(i + 1).drop_last() =~= s@.take(i as int));
        assert(s@.take(i + 1).last() == c);
        if c == '\n' {
            ls.push(cur);
            cur = Vec::new();
            assert(line_views(ls@).push(cur@) =~= before.push(Seq::<char>::empty()));
        } else {
            cur.push(c);
            assert(line_views(ls@).push(cur@) =~= before.update(
                before.len() - 1,
                before.last().push(c),
            ));
        }
        i = i + 1;
    }
    let ghost lv = line_views(ls@);
    ls.push(cur);
    assert(line_views(ls@) =~= lv.push(cur@));
    ls
}

fn lines_of(s: &Vec<char>) -> (ls: Vec<Vec<char>>)
    ensures
        line_views(ls@) == lines(s@),
{
    let n = s.len();
    if n == 0 {
        let ls: Vec<Vec<char>> = Vec::new();
        assert(line_views(ls@) =~= Seq::<Seq<char>>::empty());
        ls
    } else if s[n - 1] == '\n' {
        let ls = split_chars(s, n - 1);
        assert(s@.take(n - 1) =~= s@.drop_last());
        ls
    } else {
        let ls = split_chars(s, n);
        assert(s@.take(n as int) =~= s@);
        ls
    }
}

fn line_indent(line: &Vec<char>) -> (k: Option<usize>)
    ensures
        match k {
            Some(k) => count_spaces(line@) == Some(k as int),
            None => count_spaces(line@) is None,
        },
{
    let (a, _) = crate::parse::tag::trim_range(line, 0, line.len());
    if a < line.len() {
        Some(a)
    } else {
        None
    }
}

/// Dedents `s` (see [`dedent`]).
pub fn dedent_chars(s: &Vec<char>) -> (out: String)
    ensures
        out@ == dedent(s@),
{
    let ls = lines_of(s);
    let ghost lv = line_views(ls@);
    let n = ls.len();
    let mut mi: Option<usize> = None;
    let mut k: usize = 1;
    while k < n
        invariant
            1 <= k,
            n == ls@.len(),
            lv == line_views(ls@),
            k <= n || k == 1,
            match mi {
                Some(m) => min_indent(lv, k as int) == Some(m as int),
                None => min_indent(lv, k as int) is None,
            },
        decreases n - k,
    {
        let ci = line_indent(&ls[k]);
        assert(lv[k as int] == ls@[k as int]@);
        mi = match (mi, ci) {
            (Some(a), Some(b)) => Some(if a <= b { a } else { b }),
            (Some(a), None) => Some(a),
            (None, b) => b,
        };
        k = k + 1;
    }
    let m: usize = match mi {
        Some(m) => m,
        None => 0,
    };
    proof {
        assert(lv.len() == n);
        if n == 0 {
            assert(min_indent(lv, 1) is None);
        }
    }
    assert(m == indent(lv));
    let drop_first = s.len() > 0 && s[0] == '\n';
    let mut out = String::new();
    let mut i: usize = 0;
    while i < n
        invariant
            i <= n,
            n == ls@.len(),
            lv == line_views(ls@),
            out@ == join_lines(lv, i as int, m as int, drop_first),
        decreases n - i,
    {
        let ghost before = out@;
        if i > 1 || (i == 1 && !drop_first) {
            out.push('\n');
        }
        let line = &ls[i];
        assert(lv[i as int] == line@);
        if i == 0 {
            push_range(&mut out, line, 0, line.len());
            assert(line@.subrange(0, line@.len() as int) =~= line@);
        } else if line.len() > m {
            push_range(&mut out, line, m, line.len());
            assert(line@.subrange(m as int, line@.len() as int) =~= line@.skip(m as int));
        }
        assert(out@ =~= before + line_out(lv, i as int, m as int, drop_first));
        i = i + 1;
    }
    if s.len() > 0 && s[s.len() - 1] == '\n' {
        out.push('\n');
    }
    assert(out@ =~= dedent(s@));
    out
}

/// The same as [`cformat`](crate::ansi::cformat), then dedented like `indoc!()`: the work of
/// `cformatdoc!()` on its format string.
pub fn cformatdoc(format: &str) -> (r: Result<String, Error>)
    ensures
        match r {
            Ok(out) => colorize(format@, false) matches Ok(c) && out@ == dedent(c),
            Err(e) => colorize(format@, false) matches Err(x) && describes(e, format@, x),
        },
{
    let colored = crate::ansi::cformat(format)?;
    let chars = chars_of(colored.as_str());
    Ok(dedent_chars(&chars))
}

} // verus!
