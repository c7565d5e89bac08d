//! Removing the tags of a string: the work of `untagged!()`.

use vstd::prelude::*;
use crate::parse::{Lexeme, LexemeView, lex, lex_chars, lexeme_views, lexeme_wf};
use crate::parse::types::{Error, ErrorKind, describes, describe};
use crate::text::{chars_of, push_range};

verus! {

/// The text that the pieces of `s` from the `k`-th on hold, tags left out.
pub open spec fn texts_from(s: Seq<char>, l: Seq<LexemeView>, k: int) -> Seq<char>
    decreases l.len() - k,
{
    if k >= l.len() {
        Seq::empty()
    } else {
        (match l[k] {
            LexemeView::Text(a, b) => s.subrange(a, b),
            _ => Seq::empty(),
        }) + texts_from(s, l, k + 1)
    }
}

/// `s` (a raw string) without its tags, or the first error of its tag syntax.
pub open spec fn strip_tags(s: Seq<char>) -> Result<Seq<char>, (int, ErrorKind)> {
    match lex(s, true) {
        Ok(l) => Ok(texts_from(s, l, 0)),
        Err(x) => Err(x),
    }
}

/// Removes all tags from a string; `<<` and `>>` become `<` and `>`. The tags must be well
/// formed, but their nesting is not checked.
pub fn untagged(s: &str) -> (r: Result<String, Error>)
    ensures
        match r {
            Ok(out) => strip_tags(s@) == Ok::<Seq<char>, (int, ErrorKind)>(out@),
            Err(e) => strip_tags(s@) matches Err(x) && describes(e, s@, x),
        },
{
    let chars = chars_of(s);
    match lex_chars(&chars, true) {
        Err(x) => Err(describe(&chars, x)),
        Ok(l) => {
            let ghost lv = lexeme_views(l@);
            let mut out = String::new();
            assert(out@ + texts_from(chars@, lv, 0) =~= texts_from(chars@, lv, 0));
            let mut k: usize = 0;
            while k < l.len()
                invariant
                    k <= l@.len(),
                    lv == lexeme_views(l@),
                    forall|j: int|
                        0 <= j < l@.len() ==> lexeme_wf(#[trigger] l@[j]@, chars@.len() as int),
                    texts_from(chars@, lv, 0) == out@ + texts_from(chars@, lv, k as int),
                decreases l@.len() - k,
            {
                assert(lexeme_wf(l@[k as int]@, chars@.len() as int));
                let ghost before = out@;
                match &l[k] {
                    Lexeme::Text(a, b) => {
                        push_range(&mut out, &chars, *a, *b);
                        assert(before + (chars@.subrange(*a as int, *b as int) + texts_from(
                            chars@,
                            lv,
                            k + 1,
                        )) =~= out@ + texts_from(chars@, lv, k + 1));
                    },
                    _ => {
                        assert(Seq::<char>::empty() + texts_from(chars@, lv, k + 1) =~= texts_from(
                            chars@,
                            lv,
                            k + 1,
                        ));
                    },
                }
                k = k + 1;
            }
            assert(out@ + Seq::<char>::empty() =~= out@);
            Ok(out)
        },
    }
}

} // verus!
