//! The tag grammar: a format string is cut into text, tags and placeholders.
//!
//! - `<<` and `>>` stand for `<` and `>`; a single `>` outside a tag is an error.
//! - `<entries>` opens a tag, `</entries>` closes the innermost open tag (it must set the same
//!   things), and `</>` closes the innermost open tag whatever it is. `entries` are separated by
//!   commas; a comma inside parentheses belongs to its entry (`rgb(1,2,3)`).
//! - In a format string, `{{` stands for itself and `{...}` is a placeholder, copied as it is
//!   (so `{:<5}` is no tag). A raw string has no placeholders.

pub mod prefix;
pub mod shift;
pub mod tag;
pub mod types;

use vstd::prelude::*;
use crate::color_context::{Attrs, AttrsView, attrs_wf, overlay, overlay_attrs, default_attrs};
use crate::text::{index_of, find_char, copy_range};
use self::tag::{skip_spaces, drop_spaces, item_attrs, trim_range, parse_item_attrs};
use self::types::ErrorKind;

verus! {

/// A piece of the input: text to copy (the characters from the first index to the second), a
/// tag that opens, or a tag that closes (at an index, with what it names unless it is `</>`).
pub enum Lexeme {
    Text(usize, usize),
    Open(Attrs),
    Close(usize, Option<Attrs>),
}

/// The mathematical value of a [`Lexeme`].
pub enum LexemeView {
    Text(int, int),
    Open(AttrsView),
    Close(int, Option<AttrsView>),
}

impl View for Lexeme {
    type V = LexemeView;

    open spec fn view(&self) -> LexemeView {
        match self {
            Lexeme::Text(a, b) => LexemeView::Text(*a as int, *b as int),
            Lexeme::Open(t) => LexemeView::Open(t@),
            Lexeme::Close(p, t) => LexemeView::Close(
                *p as int,
                match t {
                    Some(t) => Some(t@),
                    None => None,
                },
            ),
        }
    }
}

pub open spec fn lexeme_views(l: Seq<Lexeme>) -> Seq<LexemeView> {
    l.map_values(|x: Lexeme| x@)
}

/// The text of a lexeme lies in an input of `n` characters, and the colors of its tags are well
/// formed.
pub open spec fn lexeme_wf(l: LexemeView, n: int) -> bool {
    match l {
        LexemeView::Text(a, b) => 0 <= a <= b <= n,
        LexemeView::Open(t) => attrs_wf(t),
        LexemeView::Close(_, Some(t)) => attrs_wf(t),
        _ => true,
    }
}

/// The end of the tag entry that starts at `p` (the range ends at `b`): the next comma that no
/// parenthesis encloses, or `b`.
pub open spec fn item_end(s: Seq<char>, p: int, b: int, in_parens: bool) -> int
    decreases b - p,
{
    if p >= b {
        b
    } else if in_parens {
        item_end(s, p + 1, b, s[p] != ')')
    } else if s[p] == ',' {
        p
    } else {
        item_end(s, p + 1, b, s[p] == '(')
    }
}

pub proof fn lemma_item_end(s: Seq<char>, p: int, b: int, in_parens: bool)
    ensures
        p <= b ==> p <= item_end(s, p, b, in_parens) <= b,
    decreases b - p,
{
    if p < b {
        if in_parens {
            lemma_item_end(s, p + 1, b, s[p] != ')');
        } else if s[p] != ',' {
            lemma_item_end(s, p + 1, b, s[p] == '(');
        }
    }
}

/// The tag entry from `a` to `e`, spaces around it dropped: an empty entry fails at `a`, an
/// unknown one at its first character.
pub open spec fn parse_item(s: Seq<char>, a: int, e: int) -> Result<AttrsView, (int, ErrorKind)> {
    let a2 = skip_spaces(s, a, e);
    let e2 = drop_spaces(s, a2, e);
    if a2 >= e2 {
        Err((a, ErrorKind::EmptyTag))
    } else {
        match item_attrs(s.subrange(a2, e2)) {
            Some(t) => Ok(t),
            None => Err((a2, ErrorKind::UnknownTag)),
        }
    }
}

/// The entries from `a` to `b`, laid one after the other over `acc` (a later entry wins).
pub open spec fn items_from(s: Seq<char>, a: int, b: int, acc: AttrsView) -> Result<
    AttrsView,
    (int, ErrorKind),
>
    decreases b - a,
{
    let e = item_end(s, a, b, false);
    match parse_item(s, a, e) {
        Err(x) => Err(x),
        Ok(t) => if e >= b {
            Ok(overlay(acc, t))
        } else {
            proof {
                lemma_item_end(s, a, b, false);
            }
            items_from(s, e + 1, b, overlay(acc, t))
        },
    }
}

/// What the entries of a tag from `a` to `b` set.
pub open spec fn parse_items(s: Seq<char>, a: int, b: int) -> Result<AttrsView, (int, ErrorKind)> {
    items_from(s, a, b, default_attrs())
}

/// The tag that starts with `<` at `i` and ends with `>` at `j`.
pub open spec fn tag_lexeme(s: Seq<char>, i: int, j: int) -> Result<LexemeView, (int, ErrorKind)> {
    if i + 1 < j && s[i + 1] == '/' {
        if i + 2 == j {
            Ok(LexemeView::Close(i, None))
        } else {
            match parse_items(s, i + 2, j) {
                Ok(t) => Ok(LexemeView::Close(i, Some(t))),
                Err(x) => Err(x),
            }
        }
    } else {
        match parse_items(s, i + 1, j) {
            Ok(t) => Ok(LexemeView::Open(t)),
            Err(x) => Err(x),
        }
    }
}

/// The piece of `s` that starts at `i`, and where the next one starts.
pub open spec fn lex_step(s: Seq<char>, i: int, raw: bool) -> Result<
    (LexemeView, int),
    (int, ErrorKind),
> {
    let n = s.len() as int;
    if s[i] == '<' {
        if i + 1 < n && s[i + 1] == '<' {
            Ok((LexemeView::Text(i, i + 1), i + 2))
        } else {
            let j = index_of(s, '>', i + 1, n);
            if j >= n {
                Err((i, ErrorKind::UnclosedTag))
            } else {
                match tag_lexeme(s, i, j) {
                    Ok(l) => Ok((l, j + 1)),
                    Err(x) => Err(x),
                }
            }
        }
    } else if s[i] == '>' {
        if i + 1 < n && s[i + 1] == '>' {
            Ok((LexemeView::Text(i, i + 1), i + 2))
        } else {
            Err((i, ErrorKind::UnescapedGreaterThan))
        }
    } else if !raw && s[i] == '{' {
        if i + 1 < n && s[i + 1] == '{' {
            Ok((LexemeView::Text(i, i + 2), i + 2))
        } else {
            let j = index_of(s, '}', i + 1, n);
            if j >= n {
                Err((i, ErrorKind::UnclosedPlaceholder))
            } else {
                Ok((LexemeView::Text(i, j + 1), j + 1))
            }
        }
    } else {
        Ok((LexemeView::Text(i, i + 1), i + 1))
    }
}

pub proof fn lemma_index_of_bounds(t: Seq<char>, c: char, from: int, to: int)
    ensures
        from <= to ==> from <= index_of(t, c, from, to) <= to,
    decreases to - from,
{
    if from < to && t[from] != c {
        lemma_index_of_bounds(t, c, from + 1, to);
    }
}

pub proof fn lemma_lex_step_advances(s: Seq<char>, i: int, raw: bool)
    requires
        i < s.len(),
    ensures
        lex_step(s, i, raw) matches Ok((_, next)) ==> i < next <= s.len(),
{
    lemma_index_of_bounds(s, '>', i + 1, s.len() as int);
    lemma_index_of_bounds(s, '}', i + 1, s.len() as int);
}

/// The pieces of `s` from index `i` on, or the first error.
pub open spec fn lex_from(s: Seq<char>, i: int, raw: bool) -> Result<Seq<LexemeView>, (int, ErrorKind)>
    decreases s.len() - i,
{
    if i >= s.len() {
        Ok(Seq::empty())
    } else {
        match lex_step(s, i, raw) {
            Err(x) => Err(x),
            Ok((l, next)) => {
                proof {
                    lemma_lex_step_advances(s, i, raw);
                }
                match lex_from(s, next, raw) {
                    Ok(rest) => Ok(seq![l] + rest),
                    Err(x) => Err(x),
                }
            },
        }
    }
}

/// The pieces of `s` (a format string, or a raw string if `raw`), or the first error.
pub open spec fn lex(s: Seq<char>, raw: bool) -> Result<Seq<LexemeView>, (int, ErrorKind)> {
    lex_from(s, 0, raw)
}

/// `prefix` followed by the pieces of `rest`, or the error of `rest`.
pub open spec fn prepend(prefix: Seq<LexemeView>, rest: Result<Seq<LexemeView>, (int, ErrorKind)>) -> Result<
    Seq<LexemeView>,
    (int, ErrorKind),
> {
    match rest {
        Ok(r) => Ok(prefix + r),
        Err(x) => Err(x),
    }
}

fn find_item_end(s: &Vec<char>, a: usize, b: usize) -> (e: usize)
    requires
        a <= b <= s@.len(),
    ensures
        e == item_end(s@, a as int, b as int, false),
        a <= e <= b,
{
    proof {
        lemma_item_end(s@, a as int, b as int, false);
    }
    let mut p = a;
    let mut in_parens = false;
    while p < b
        invariant
            a <= p <= b <= s@.len(),
            item_end(s@, a as int, b as int, false) == item_end(
                s@,
                p as int,
                b as int,
                in_parens,
            ),
        decreases b - p,
    {
        let c = s[p];
        if in_parens {
            in_parens = c != ')';
        } else if c == ',' {
            return p;
        } else {
            in_parens = c == '(';
        }
        p = p + 1;
    }
    b
}

fn lex_item(s: &Vec<char>, a: usize, e: usize) -> (r: Result<Attrs, (usize, ErrorKind)>)
    requires
        a <= e <= s@.len(),
    ensures
        match r {
            Ok(t) => parse_item(s@, a as int, e as int) == Ok::<AttrsView, (int, ErrorKind)>(t@)
                && attrs_wf(t@),
            Err(x) => parse_item(s@, a as int, e as int) == Err::<AttrsView, (int, ErrorKind)>(
                (x.0 as int, x.1),
            ),
        },
{
    let (a2, e2) = trim_range(s, a, e);
    if a2 >= e2 {
        return Err((a, ErrorKind::EmptyTag));
    }
    let t = copy_range(s, a2, e2);
    match parse_item_attrs(&t) {
        Some(x) => Ok(x),
        None => Err((a2, ErrorKind::UnknownTag)),
    }
}

fn lex_items(s: &Vec<char>, a: usize, b: usize) -> (r: Result<Attrs, (usize, ErrorKind)>)
    requires
        a <= b <= s@.len(),
    ensures
        match r {
            Ok(t) => parse_items(s@, a as int, b as int) == Ok::<AttrsView, (int, ErrorKind)>(t@)
                && attrs_wf(t@),
            Err(x) => parse_items(s@, a as int, b as int) == Err::<AttrsView, (int, ErrorKind)>(
                (x.0 as int, x.1),
            ),
        },
{
    let mut acc = Attrs::none();
    let mut p = a;
    loop
        invariant
            a <= p <= b <= s@.len(),
            parse_items(s@, a as int, b as int) == items_from(s@, p as int, b as int, acc@),
            attrs_wf(acc@),
        decreases b - p,
    {
        let e = find_item_end(s, p, b);
        match lex_item(s, p, e) {
            Err(x) => {
                return Err(x);
            },
            Ok(t) => {
                acc = overlay_attrs(&acc, &t);
                if e >= b {
                    return Ok(acc);
                }
                p = e + 1;
            },
        }
    }
}

fn lex_tag(s: &Vec<char>, i: usize, j: usize) -> (r: Result<Lexeme, (usize, ErrorKind)>)
    requires
        i < j <= s@.len(),
    ensures
        match r {
            Ok(l) => tag_lexeme(s@, i as int, j as int) == Ok::<LexemeView, (int, ErrorKind)>(l@)
                && lexeme_wf(l@, s@.len() as int),
            Err(x) => tag_lexeme(s@, i as int, j as int) == Err::<LexemeView, (int, ErrorKind)>(
                (x.0 as int, x.1),
            ),
        },
{
    if i + 1 < j && s[i + 1] == '/' {
        if i + 2 == j {
            Ok(Lexeme::Close(i, None))
        } else {
            match lex_items(s, i + 2, j) {
                Ok(t) => Ok(Lexeme::Close(i, Some(t))),
                Err(x) => Err(x),
            }
        }
    } else {
        match lex_items(s, i + 1, j) {
            Ok(t) => Ok(Lexeme::Open(t)),
            Err(x) => Err(x),
        }
    }
}

fn lex_one(s: &Vec<char>, i: usize, raw: bool) -> (r: Result<(Lexeme, usize), (usize, ErrorKind)>)
    requires
        i < s@.len(),
    ensures
        match r {
            Ok((l, next)) => lex_step(s@, i as int, raw) == Ok::<(LexemeView, int), (int, ErrorKind)>(
                (l@, next as int),
            ) && lexeme_wf(l@, s@.len() as int),
            Err(x) => lex_step(s@, i as int, raw) == Err::<(LexemeView, int), (int, ErrorKind)>(
                (x.0 as int, x.1),
            ),
        },
{
    let n = s.len();
    let c = s[i];
    if c == '<' {
        if i + 1 < n && s[i + 1] == '<' {
            Ok((Lexeme::Text(i, i + 1), i + 2))
        } else {
            let j = find_char(s, '>', i + 1, n);
            if j >= n {
                Err((i, ErrorKind::UnclosedTag))
            } else {
                match lex_tag(s, i, j) {
                    Ok(l) => Ok((l, j + 1)),
                    Err(x) => Err(x),
                }
            }
        }
    } else if c == '>' {
        if i + 1 < n && s[i + 1] == '>' {
            Ok((Lexeme::Text(i, i + 1), i + 2))
        } else {
            Err((i, ErrorKind::UnescapedGreaterThan))
        }
    } else if !raw && c == '{' {
        if i + 1 < n && s[i + 1] == '{' {
            Ok((Lexeme::Text(i, i + 2), i + 2))
        } else {
            let j = find_char(s, '}', i + 1, n);
            if j >= n {
                Err((i, ErrorKind::UnclosedPlaceholder))
            } else {
                Ok((Lexeme::Text(i, j + 1), j + 1))
            }
        }
    } else {
        Ok((Lexeme::Text(i, i + 1), i + 1))
    }
}

/// Cuts `s` into its pieces (see [`lex`]).
pub fn lex_chars(s: &Vec<char>, raw: bool) -> (r: Result<Vec<Lexeme>, (usize, ErrorKind)>)
    ensures
        match r {
            Ok(l) => lex(s@, raw) == Ok::<Seq<LexemeView>, (int, ErrorKind)>(lexeme_views(l@))
                && forall|k: int| 0 <= k < l@.len() ==> lexeme_wf(#[trigger] l@[k]@, s@.len() as int),
            Err(x) => lex(s@, raw) == Err::<Seq<LexemeView>, (int, ErrorKind)>((x.0 as int, x.1)),
        },
{
    let mut out: Vec<Lexeme> = Vec::new();
    let mut i: usize = 0;
    assert(lexeme_views(out@) =~= Seq::<LexemeView>::empty());
    while i < s.len()
        invariant
            i <= s@.len(),
            lex(s@, raw) == prepend(lexeme_views(out@), lex_from(s@, i as int, raw)),
            forall|k: int| 0 <= k < out@.len() ==> lexeme_wf(#[trigger] out@[k]@, s@.len() as int),
        decreases s@.len() - i,
    {
        match lex_one(s, i, raw) {
            Err(x) => {
                return Err(x);
            },
            Ok((l, next)) => {
                proof {
                    lemma_lex_step_advances(s@, i as int, raw);
                }
                let ghost before = lexeme_views(out@);
                let ghost lv = l@;
                out.push(l);
                proof {
                    assert(lexeme_views(out@) =~= before + seq![lv]);
                    match lex_from(s@, next as int, raw) {
                        Ok(rest) => {
                            assert(before + (seq![lv] + rest) =~= (before + seq![lv]) + rest);
                        },
                        Err(_) => {},
                    }
                }
                i = next;
            },
        }
    }
    assert(lexeme_views(out@) + Seq::<LexemeView>::empty() =~= lexeme_views(out@));
    Ok(out)
}

} // verus!
