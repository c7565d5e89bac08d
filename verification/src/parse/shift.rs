//! Lexing only depends on what follows: the same characters lex the same way wherever they
//! stand, with every position moved along.

use vstd::prelude::*;
use crate::color_context::AttrsView;
use crate::text::index_of;
use super::tag::{skip_spaces, drop_spaces, lemma_skip_spaces, lemma_drop_spaces};
use super::types::ErrorKind;
use super::{
    LexemeView, item_end, lemma_item_end, parse_item, items_from, tag_lexeme, lex_step, lex_from,
    lemma_lex_step_advances, lemma_index_of_bounds,
};

verus! {

/// `s2` from `i2` on holds exactly what `s` holds from `i` on.
pub open spec fn same_tail(s: Seq<char>, i: int, s2: Seq<char>, i2: int) -> bool {
    &&& 0 <= i <= s.len()
    &&& 0 <= i2 <= s2.len()
    &&& s.len() - i == s2.len() - i2
    &&& forall|k: int| i <= k < s.len() ==> s[k] == #[trigger] s2[k + (i2 - i)]
}

/// The piece `x` with its positions moved by `d`.
pub open spec fn shift_lexeme(x: LexemeView, d: int) -> LexemeView {
    match x {
        LexemeView::Text(a, b) => LexemeView::Text(a + d, b + d),
        LexemeView::Open(t) => LexemeView::Open(t),
        LexemeView::Close(p, t) => LexemeView::Close(p + d, t),
    }
}

/// The pieces `l` with their positions moved by `d`.
pub open spec fn shift_pieces(l: Seq<LexemeView>, d: int) -> Seq<LexemeView> {
    Seq::new(l.len(), |k: int| shift_lexeme(l[k], d))
}

/// An error with its position moved by `d`.
pub open spec fn shift_error(e: (int, ErrorKind), d: int) -> (int, ErrorKind) {
    (e.0 + d, e.1)
}

pub open spec fn shift_attrs_result(r: Result<AttrsView, (int, ErrorKind)>, d: int) -> Result<
    AttrsView,
    (int, ErrorKind),
> {
    match r {
        Ok(t) => Ok(t),
        Err(e) => Err(shift_error(e, d)),
    }
}

pub open spec fn shift_lexeme_result(r: Result<LexemeView, (int, ErrorKind)>, d: int) -> Result<
    LexemeView,
    (int, ErrorKind),
> {
    match r {
        Ok(x) => Ok(shift_lexeme(x, d)),
        Err(e) => Err(shift_error(e, d)),
    }
}

pub open spec fn shift_step(r: Result<(LexemeView, int), (int, ErrorKind)>, d: int) -> Result<
    (LexemeView, int),
    (int, ErrorKind),
> {
    match r {
        Ok((x, next)) => Ok((shift_lexeme(x, d), next + d)),
        Err(e) => Err(shift_error(e, d)),
    }
}

pub open spec fn shift_lex(r: Result<Seq<LexemeView>, (int, ErrorKind)>, d: int) -> Result<
    Seq<LexemeView>,
    (int, ErrorKind),
> {
    match r {
        Ok(l) => Ok(shift_pieces(l, d)),
        Err(e) => Err(shift_error(e, d)),
    }
}

proof fn lemma_shift_skip_spaces(s: Seq<char>, i: int, s2: Seq<char>, i2: int, a: int, b: int)
    requires
        same_tail(s, i, s2, i2),
        i <= a,
        b <= s.len(),
    ensures
        skip_spaces(s2, a + (i2 - i), b + (i2 - i)) == skip_spaces(s, a, b) + (i2 - i),
    decreases b - a,
{
    if a < b {
        assert(s[a] == s2[a + (i2 - i)]);
        lemma_shift_skip_spaces(s, i, s2, i2, a + 1, b);
    }
}

proof fn lemma_shift_drop_spaces(s: Seq<char>, i: int, s2: Seq<char>, i2: int, a: int, b: int)
    requires
        same_tail(s, i, s2, i2),
        i <= a,
        b <= s.len(),
    ensures
        drop_spaces(s2, a + (i2 - i), b + (i2 - i)) == drop_spaces(s, a, b) + (i2 - i),
    decreases b - a,
{
    if a < b {
        assert(s[b - 1] == s2[(b - 1) + (i2 - i)]);
        lemma_shift_drop_spaces(s, i, s2, i2, a, b - 1);
    }
}

proof fn lemma_shift_item_end(
    s: Seq<char>,
    i: int,
    s2: Seq<char>,
    i2: int,
    p: int,
    b: int,
    in_parens: bool,
)
    requires
        same_tail(s, i, s2, i2),
        i <= p,
        b <= s.len(),
    ensures
        item_end(s2, p + (i2 - i), b + (i2 - i), in_parens) == item_end(s, p, b, in_parens) + (i2
            - i),
    decreases b - p,
{
    if p < b {
        assert(s[p] == s2[p + (i2 - i)]);
        lemma_shift_item_end(s, i, s2, i2, p + 1, b, s[p] != ')');
        lemma_shift_item_end(s, i, s2, i2, p + 1, b, s[p] == '(');
    }
}

proof fn lemma_shift_parse_item(s: Seq<char>, i: int, s2: Seq<char>, i2: int, a: int, e: int)
    requires
        same_tail(s, i, s2, i2),
        i <= a <= e <= s.len(),
    ensures
        parse_item(s2, a + (i2 - i), e + (i2 - i)) == shift_attrs_result(
            parse_item(s, a, e),
            i2 - i,
        ),
{
    let d = i2 - i;
    lemma_shift_skip_spaces(s, i, s2, i2, a, e);
    lemma_skip_spaces(s, a, e);
    let a2 = skip_spaces(s, a, e);
    lemma_shift_drop_spaces(s, i, s2, i2, a2, e);
    lemma_drop_spaces(s, a2, e);
    let e2 = drop_spaces(s, a2, e);
    assert(s.subrange(a2, e2) =~= s2.subrange(a2 + d, e2 + d)) by {
        assert forall|k: int| 0 <= k < e2 - a2 implies s.subrange(a2, e2)[k] == s2.subrange(
            a2 + d,
            e2 + d,
        )[k] by {
            assert(s[a2 + k] == s2[(a2 + k) + d]);
        }
    }
}

proof fn lemma_shift_items(
    s: Seq<char>,
    i: int,
    s2: Seq<char>,
    i2: int,
    a: int,
    b: int,
    acc: AttrsView,
)
    requires
        same_tail(s, i, s2, i2),
        i <= a <= b <= s.len(),
    ensures
        items_from(s2, a + (i2 - i), b + (i2 - i), acc) == shift_attrs_result(
            items_from(s, a, b, acc),
            i2 - i,
        ),
    decreases b - a,
{
    let d = i2 - i;
    lemma_shift_item_end(s, i, s2, i2, a, b, false);
    lemma_item_end(s, a, b, false);
    let e = item_end(s, a, b, false);
    lemma_shift_parse_item(s, i, s2, i2, a, e);
    if let Ok(t) = parse_item(s, a, e) {
        if e < b {
            lemma_shift_items(s, i, s2, i2, e + 1, b, crate::color_context::overlay(acc, t));
            assert(e + 1 + d == (e + d) + 1);
        }
    }
}

proof fn lemma_shift_tag(s: Seq<char>, i: int, s2: Seq<char>, i2: int, p: int, j: int)
    requires
        same_tail(s, i, s2, i2),
        i <= p < j <= s.len(),
    ensures
        tag_lexeme(s2, p + (i2 - i), j + (i2 - i)) == shift_lexeme_result(
            tag_lexeme(s, p, j),
            i2 - i,
        ),
{
    let d = i2 - i;
    if p + 1 < j {
        assert(s[p + 1] == s2[(p + 1) + d]);
    }
    if p + 2 <= j {
        lemma_shift_items(s, i, s2, i2, p + 2, j, crate::color_context::default_attrs());
        assert(p + 2 + d == (p + d) + 2);
    }
    lemma_shift_items(s, i, s2, i2, p + 1, j, crate::color_context::default_attrs());
    assert(p + 1 + d == (p + d) + 1);
}

proof fn lemma_shift_index_of(s: Seq<char>, i: int, s2: Seq<char>, i2: int, c: char, from: int)
    requires
        same_tail(s, i, s2, i2),
        i <= from,
    ensures
        index_of(s2, c, from + (i2 - i), s2.len() as int) == index_of(s, c, from, s.len() as int)
            + (i2 - i),
    decreases s.len() - from,
{
    if from < s.len() {
        assert(s[from] == s2[from + (i2 - i)]);
        lemma_shift_index_of(s, i, s2, i2, c, from + 1);
    }
}

/// One piece lexes the same way at `j` in `s` and at the matching place in `s2`.
pub proof fn lemma_shift_step(s: Seq<char>, i: int, s2: Seq<char>, i2: int, j: int, raw: bool)
    requires
        same_tail(s, i, s2, i2),
        i <= j < s.len(),
    ensures
        lex_step(s2, j + (i2 - i), raw) == shift_step(lex_step(s, j, raw), i2 - i),
{
    let d = i2 - i;
    let n = s.len() as int;
    assert(s[j] == s2[j + d]);
    if j + 1 < n {
        assert(s[j + 1] == s2[(j + 1) + d]);
    }
    lemma_index_of_bounds(s, '>', j + 1, n);
    lemma_index_of_bounds(s, '}', j + 1, n);
    lemma_shift_index_of(s, i, s2, i2, '>', j + 1);
    lemma_shift_index_of(s, i, s2, i2, '}', j + 1);
    assert(j + 1 + d == (j + d) + 1);
    let k = index_of(s, '>', j + 1, n);
    if k < n {
        lemma_shift_tag(s, i, s2, i2, j, k);
    }
}

/// The pieces of `s` from `j` on, moved along, are those of `s2` from the matching place on;
/// an error moves along too.
pub proof fn lemma_shift_lex(s: Seq<char>, i: int, s2: Seq<char>, i2: int, j: int, raw: bool)
    requires
        same_tail(s, i, s2, i2),
        i <= j <= s.len(),
    ensures
        lex_from(s2, j + (i2 - i), raw) == shift_lex(lex_from(s, j, raw), i2 - i),
    decreases s.len() - j,
{
    let d = i2 - i;
    if j >= s.len() {
        assert(shift_pieces(Seq::<LexemeView>::empty(), d) =~= Seq::<LexemeView>::empty());
    } else {
        lemma_shift_step(s, i, s2, i2, j, raw);
        lemma_lex_step_advances(s, j, raw);
        if let Ok((x, next)) = lex_step(s, j, raw) {
            lemma_shift_lex(s, i, s2, i2, next, raw);
            if let Ok(rest) = lex_from(s, next, raw) {
                assert(shift_pieces(seq![x] + rest, d) =~= seq![shift_lexeme(x, d)] + shift_pieces(
                    rest,
                    d,
                ));
            }
        }
    }
}

} // verus!
