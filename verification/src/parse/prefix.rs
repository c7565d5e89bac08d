//! Lexing only looks as far as it needs: a string that lexes without error lexes the same way
//! at the front of a longer string.

use vstd::prelude::*;
use crate::color_context::AttrsView;
use crate::text::index_of;
use super::tag::{skip_spaces, drop_spaces, lemma_skip_spaces, lemma_drop_spaces};
use super::{
    LexemeView, item_end, lemma_item_end, parse_item, items_from, tag_lexeme, lex_step, lex_from,
    lemma_lex_step_advances, lemma_index_of_bounds, prepend,
};

verus! {

/// `s` and `s2` hold the same characters before index `n`.
pub open spec fn agree(s: Seq<char>, s2: Seq<char>, n: int) -> bool {
    &&& 0 <= n <= s.len()
    &&& n <= s2.len()
    &&& forall|i: int| 0 <= i < n ==> s[i] == s2[i]
}

proof fn lemma_agree_skip_spaces(s: Seq<char>, s2: Seq<char>, n: int, a: int, b: int)
    requires
        agree(s, s2, n),
        0 <= a,
        b <= n,
    ensures
        skip_spaces(s, a, b) == skip_spaces(s2, a, b),
    decreases b - a,
{
    if a < b {
        assert(s[a] == s2[a]);
        lemma_agree_skip_spaces(s, s2, n, a + 1, b);
    }
}

proof fn lemma_agree_drop_spaces(s: Seq<char>, s2: Seq<char>, n: int, a: int, b: int)
    requires
        agree(s, s2, n),
        0 <= a,
        b <= n,
    ensures
        drop_spaces(s, a, b) == drop_spaces(s2, a, b),
    decreases b - a,
{
    if a < b {
        assert(s[b - 1] == s2[b - 1]);
        lemma_agree_drop_spaces(s, s2, n, a, b - 1);
    }
}

proof fn lemma_agree_item_end(s: Seq<char>, s2: Seq<char>, n: int, p: int, b: int, in_parens: bool)
    requires
        agree(s, s2, n),
        0 <= p,
        b <= n,
    ensures
        item_end(s, p, b, in_parens) == item_end(s2, p, b, in_parens),
    decreases b - p,
{
    if p < b {
        assert(s[p] == s2[p]);
        lemma_agree_item_end(s, s2, n, p + 1, b, s[p] != ')');
        lemma_agree_item_end(s, s2, n, p + 1, b, s[p] == '(');
    }
}

proof fn lemma_agree_parse_item(s: Seq<char>, s2: Seq<char>, n: int, a: int, e: int)
    requires
        agree(s, s2, n),
        0 <= a <= e <= n,
    ensures
        parse_item(s, a, e) == parse_item(s2, a, e),
{
    lemma_agree_skip_spaces(s, s2, n, a, e);
    lemma_skip_spaces(s, a, e);
    let a2 = skip_spaces(s, a, e);
    lemma_agree_drop_spaces(s, s2, n, a2, e);
    lemma_drop_spaces(s, a2, e);
    let e2 = drop_spaces(s, a2, e);
    assert(s.subrange(a2, e2) =~= s2.subrange(a2, e2));
}

proof fn lemma_agree_items(s: Seq<char>, s2: Seq<char>, n: int, a: int, b: int, acc: AttrsView)
    requires
        agree(s, s2, n),
        0 <= a <= b <= n,
    ensures
        items_from(s, a, b, acc) == items_from(s2, a, b, acc),
    decreases b - a,
{
    lemma_agree_item_end(s, s2, n, a, b, false);
    lemma_item_end(s, a, b, false);
    let e = item_end(s, a, b, false);
    lemma_agree_parse_item(s, s2, n, a, e);
    if let Ok(t) = parse_item(s, a, e) {
        if e < b {
            lemma_agree_items(s, s2, n, e + 1, b, crate::color_context::overlay(acc, t));
        }
    }
}

proof fn lemma_agree_tag(s: Seq<char>, s2: Seq<char>, n: int, i: int, j: int)
    requires
        agree(s, s2, n),
        0 <= i < j <= n,
    ensures
        tag_lexeme(s, i, j) == tag_lexeme(s2, i, j),
{
    if i + 1 < j {
        assert(s[i + 1] == s2[i + 1]);
    }
    if i + 2 <= j {
        lemma_agree_items(s, s2, n, i + 2, j, crate::color_context::default_attrs());
    }
    lemma_agree_items(s, s2, n, i + 1, j, crate::color_context::default_attrs());
}

proof fn lemma_agree_index_of(s: Seq<char>, s2: Seq<char>, n: int, c: char, from: int, n2: int)
    requires
        agree(s, s2, n),
        n == s.len(),
        n2 == s2.len(),
        0 <= from,
        index_of(s, c, from, n) < n,
    ensures
        index_of(s2, c, from, n2) == index_of(s, c, from, n),
    decreases n - from,
{
    assert(from < n);
    assert(s[from] == s2[from]);
    if s[from] != c {
        lemma_agree_index_of(s, s2, n, c, from + 1, n2);
    }
}

/// A piece that `s` lexes without error at `i` is the same piece in a longer string that
/// starts with `s`.
pub proof fn lemma_agree_step(s: Seq<char>, s2: Seq<char>, i: int, raw: bool)
    requires
        agree(s, s2, s.len() as int),
        0 <= i < s.len(),
        lex_step(s, i, raw) is Ok,
    ensures
        lex_step(s2, i, raw) == lex_step(s, i, raw),
{
    let n = s.len() as int;
    let n2 = s2.len() as int;
    assert(s[i] == s2[i]);
    if i + 1 < n {
        assert(s[i + 1] == s2[i + 1]);
    }
    lemma_index_of_bounds(s, '>', i + 1, n);
    lemma_index_of_bounds(s, '}', i + 1, n);
    if s[i] == '<' {
        let j = index_of(s, '>', i + 1, n);
        if !(i + 1 < n && s[i + 1] == '<') {
            lemma_agree_index_of(s, s2, n, '>', i + 1, n2);
            lemma_agree_tag(s, s2, n, i, j);
        }
    } else if !raw && s[i] == '{' {
        if !(i + 1 < n && s[i + 1] == '{') {
            lemma_agree_index_of(s, s2, n, '}', i + 1, n2);
        }
    }
}

/// The pieces of `s` from `i` on, then those of the rest of `s2`, are the pieces of `s2` from
/// `i` on, when `s2` starts with `s` and `s` lexes without error.
pub proof fn lemma_lex_prefix(s: Seq<char>, s2: Seq<char>, i: int, raw: bool)
    requires
        agree(s, s2, s.len() as int),
        0 <= i <= s.len(),
        lex_from(s, i, raw) is Ok,
    ensures
        lex_from(s2, i, raw) == prepend(lex_from(s, i, raw)->Ok_0, lex_from(s2, s.len() as int, raw)),
    decreases s.len() - i,
{
    if i >= s.len() {
        match lex_from(s2, i, raw) {
            Ok(r) => {
                assert(Seq::<LexemeView>::empty() + r =~= r);
            },
            Err(_) => {},
        }
    } else {
        lemma_agree_step(s, s2, i, raw);
        lemma_lex_step_advances(s, i, raw);
        let (x, next) = lex_step(s, i, raw)->Ok_0;
        lemma_lex_prefix(s, s2, next, raw);
        let rest = lex_from(s, next, raw)->Ok_0;
        match lex_from(s2, s.len() as int, raw) {
            Ok(r) => {
                assert(seq![x] + (rest + r) =~= (seq![x] + rest) + r);
            },
            Err(_) => {},
        }
    }
}

/// The texts that `s` lexes into lie in `s`, from index `i` on.
pub proof fn lemma_lex_texts_inside(s: Seq<char>, i: int, raw: bool)
    requires
        0 <= i <= s.len(),
        lex_from(s, i, raw) is Ok,
    ensures
        forall|k: int|
            0 <= k < lex_from(s, i, raw)->Ok_0.len() ==> lexeme_wf_text(
                #[trigger] lex_from(s, i, raw)->Ok_0[k],
                s.len() as int,
            ),
    decreases s.len() - i,
{
    if i < s.len() {
        lemma_lex_step_advances(s, i, raw);
        lemma_index_of_bounds(s, '}', i + 1, s.len() as int);
        let (x, next) = lex_step(s, i, raw)->Ok_0;
        lemma_lex_texts_inside(s, next, raw);
        let rest = lex_from(s, next, raw)->Ok_0;
        let l = seq![x] + rest;
        assert forall|k: int| 0 <= k < l.len() implies lexeme_wf_text(#[trigger] l[k], s.len() as int) by {
            if k > 0 {
                assert(l[k] == rest[k - 1]);
            }
        }
    }
}

/// A text piece lies in the first `n` characters.
pub open spec fn lexeme_wf_text(l: LexemeView, n: int) -> bool {
    l matches LexemeView::Text(a, b) ==> 0 <= a <= b <= n
}

} // verus!
