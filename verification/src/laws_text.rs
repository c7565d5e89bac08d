//! Properties of how text, brackets and braces come through.

use vstd::prelude::*;
use crate::ansi::colorize;
use crate::laws::{
    all_text, lemma_texts_shift, lemma_render_texts, open_tags, close_last,
    law_unclosed_tags_close_at_end,
};
use crate::parse::{LexemeView, lex, lex_from, lex_step, lemma_lex_step_advances};
use crate::parse::types::ErrorKind;
use crate::text::index_of;
use crate::untagged::{strip_tags, texts_from};

verus! {

/// What a string without tags reads as from index `i` on: `<<` and `>>` stand for `<` and `>`,
/// and in a format string (`raw` false) `{{` and `{...}` placeholders are kept as they are.
/// `None` if a tag, a single `<` or `>`, or (in a format string) an unclosed `{` comes.
pub open spec fn plain_from(s: Seq<char>, i: int, raw: bool) -> Option<Seq<char>>
    decreases s.len() - i,
{
    if i >= s.len() {
        Some(Seq::empty())
    } else if s[i] == '<' || s[i] == '>' {
        if i + 1 < s.len() && s[i + 1] == s[i] {
            match plain_from(s, i + 2, raw) {
                Some(r) => Some(seq![s[i]] + r),
                None => None,
            }
        } else {
            None
        }
    } else if !raw && s[i] == '{' {
        if i + 1 < s.len() && s[i + 1] == '{' {
            match plain_from(s, i + 2, raw) {
                Some(r) => Some(seq!['{', '{'] + r),
                None => None,
            }
        } else {
            let j = index_of(s, '}', i + 1, s.len() as int);
            if j < s.len() {
                proof {
                    crate::parse::lemma_index_of_bounds(s, '}', i + 1, s.len() as int);
                }
                match plain_from(s, j + 1, raw) {
                    Some(r) => Some(s.subrange(i, j + 1) + r),
                    None => None,
                }
            } else {
                None
            }
        }
    } else {
        match plain_from(s, i + 1, raw) {
            Some(r) => Some(seq![s[i]] + r),
            None => None,
        }
    }
}

proof fn lemma_plain_from_lex(s: Seq<char>, i: int, raw: bool)
    requires
        0 <= i <= s.len(),
        plain_from(s, i, raw) is Some,
    ensures
        lex_from(s, i, raw) is Ok,
        all_text(lex_from(s, i, raw)->Ok_0),
        texts_from(s, lex_from(s, i, raw)->Ok_0, 0) == plain_from(s, i, raw)->0,
    decreases s.len() - i,
{
    if i < s.len() {
        lemma_lex_step_advances(s, i, raw);
        crate::parse::lemma_index_of_bounds(s, '}', i + 1, s.len() as int);
        let (x, next) = lex_step(s, i, raw)->Ok_0;
        lemma_plain_from_lex(s, next, raw);
        let rest = lex_from(s, next, raw)->Ok_0;
        let l = seq![x] + rest;
        lemma_texts_shift(s, x, rest, 0);
        assert(l[0] == x);
        assert(all_text(l)) by {
            assert forall|k: int| 0 <= k < l.len() implies #[trigger] l[k] is Text by {
                if k > 0 {
                    assert(l[k] == rest[k - 1]);
                }
            }
        }
        if s[i] == '<' || s[i] == '>' {
            assert(s.subrange(i, i + 1) =~= seq![s[i]]);
        } else if !raw && s[i] == '{' && i + 1 < s.len() && s[i + 1] == '{' {
            assert(s.subrange(i, i + 2) =~= seq!['{', '{']);
        } else if !raw && s[i] == '{' {
        } else {
            assert(s.subrange(i, i + 1) =~= seq![s[i]]);
        }
    }
}

/// A string without tags, where every `<` and `>` is doubled, comes out with `<<` and `>>`
/// written as `<` and `>` and everything else unchanged (placeholders included, in a format
/// string); `untagged` gives the same for a raw string.
pub proof fn law_doubled_brackets(s: Seq<char>, raw: bool)
    requires
        plain_from(s, 0, raw) is Some,
    ensures
        colorize(s, raw) == Ok::<Seq<char>, (int, ErrorKind)>(plain_from(s, 0, raw)->0),
        raw ==> strip_tags(s) == Ok::<Seq<char>, (int, ErrorKind)>(plain_from(s, 0, raw)->0),
{
    lemma_plain_from_lex(s, 0, raw);
    lemma_render_texts(s, lex(s, raw)->Ok_0, 0);
}

proof fn lemma_lex_without_braces(s: Seq<char>, i: int)
    requires
        0 <= i <= s.len(),
        forall|j: int| 0 <= j < s.len() ==> s[j] != '{',
    ensures
        lex_from(s, i, false) == lex_from(s, i, true),
    decreases s.len() - i,
{
    if i < s.len() {
        lemma_lex_step_advances(s, i, false);
        assert(lex_step(s, i, false) == lex_step(s, i, true));
        if let Ok((_, next)) = lex_step(s, i, false) {
            lemma_lex_without_braces(s, next);
        }
    }
}

/// Braces only matter to format strings: without `{`, a format string and a raw string give
/// the same result. In a raw string, `{` and `}` are always one character of text.
pub proof fn law_braces(s: Seq<char>)
    ensures
        (forall|j: int| 0 <= j < s.len() ==> s[j] != '{') ==> colorize(s, false) == colorize(
            s,
            true,
        ),
        forall|i: int|
            0 <= i < s.len() && (s[i] == '{' || s[i] == '}') ==> #[trigger] lex_step(s, i, true)
                == Ok::<(LexemeView, int), (int, ErrorKind)>((LexemeView::Text(i, i + 1), i + 1)),
{
    if forall|j: int| 0 <= j < s.len() ==> s[j] != '{' {
        lemma_lex_without_braces(s, 0);
    }
}

/// `k` closing tags `</>`.
pub open spec fn closes(k: nat) -> Seq<char>
    decreases k,
{
    if k == 0 {
        Seq::empty()
    } else {
        closes((k - 1) as nat) + close_last()
    }
}

/// Closing any number of the tags left open at the end, with `</>`, changes nothing in the
/// output: so closing all of them gives the output of leaving them open.
pub proof fn law_unclosed_tags_close_at_end_all(s: Seq<char>, raw: bool, k: nat)
    requires
        colorize(s, raw) is Ok,
        k <= open_tags(s, raw),
    ensures
        colorize(s + closes(k), raw) == colorize(s, raw),
        open_tags(s + closes(k), raw) == open_tags(s, raw) - k,
    decreases k,
{
    if k == 0 {
        assert(s + closes(0) =~= s);
    } else {
        law_unclosed_tags_close_at_end_all(s, raw, (k - 1) as nat);
        let s1 = s + closes((k - 1) as nat);
        law_unclosed_tags_close_at_end(s1, raw);
        assert(s1 + close_last() =~= s + closes(k));
    }
}

} // verus!
