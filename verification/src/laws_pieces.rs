//! The pieces of a string are read one after the other: what a string that lexes on its own is
//! cut into does not depend on what follows it.

use vstd::prelude::*;
use crate::laws_tags::same_piece;
use crate::parse::{LexemeView, lex, lex_from, prepend};
use crate::parse::prefix::{agree, lemma_lex_prefix, lemma_lex_texts_inside, lexeme_wf_text};
use crate::parse::shift::{same_tail, shift_error, shift_lex, shift_lexeme, shift_pieces, lemma_shift_lex};
use crate::parse::types::ErrorKind;
use crate::untagged::{strip_tags, texts_from};

verus! {

/// A string that lexes without error is cut the same way at the front of a longer one, and
/// what follows it is cut as it would be on its own, its positions moved along (an error in it
/// too).
pub proof fn law_lex_concat(s: Seq<char>, t: Seq<char>, raw: bool)
    requires
        lex(s, raw) is Ok,
    ensures
        lex(s + t, raw) == prepend(lex(s, raw)->Ok_0, shift_lex(lex(t, raw), s.len() as int)),
{
    let st = s + t;
    assert(agree(s, st, s.len() as int));
    lemma_lex_prefix(s, st, 0, raw);
    assert(same_tail(t, 0, st, s.len() as int)) by {
        assert forall|k: int| 0 <= k < t.len() implies t[k] == #[trigger] st[k + (s.len() - 0)] by {}
    }
    lemma_shift_lex(t, 0, st, s.len() as int, 0, raw);
    assert(lex_from(st, 0 + (s.len() - 0), raw) == lex_from(st, s.len() as int, raw));
}

proof fn lemma_texts_split(x: Seq<char>, l1: Seq<LexemeView>, l2: Seq<LexemeView>, k: int)
    requires
        0 <= k <= l1.len(),
    ensures
        texts_from(x, l1 + l2, k) == texts_from(x, l1, k) + texts_from(x, l1 + l2, l1.len() as int),
    decreases l1.len() - k,
{
    if k < l1.len() {
        lemma_texts_split(x, l1, l2, k + 1);
        assert((l1 + l2)[k] == l1[k]);
        let piece = match l1[k] {
            LexemeView::Text(a, b) => x.subrange(a, b),
            _ => Seq::<char>::empty(),
        };
        assert(piece + (texts_from(x, l1, k + 1) + texts_from(x, l1 + l2, l1.len() as int))
            =~= (piece + texts_from(x, l1, k + 1)) + texts_from(x, l1 + l2, l1.len() as int));
    } else {
        assert(Seq::<char>::empty() + texts_from(x, l1 + l2, l1.len() as int) =~= texts_from(
            x,
            l1 + l2,
            l1.len() as int,
        ));
    }
}

proof fn lemma_texts_same(
    x: Seq<char>,
    l: Seq<LexemeView>,
    k: int,
    y: Seq<char>,
    m: Seq<LexemeView>,
    k2: int,
)
    requires
        0 <= k <= l.len(),
        0 <= k2 <= m.len(),
        l.len() - k == m.len() - k2,
        forall|i: int| 0 <= i < l.len() - k ==> same_piece(x, #[trigger] l[k + i], y, m[k2 + i]),
    ensures
        texts_from(x, l, k) == texts_from(y, m, k2),
    decreases l.len() - k,
{
    if k < l.len() {
        assert(same_piece(x, l[k + 0], y, m[k2 + 0]));
        assert forall|i: int| 0 <= i < l.len() - (k + 1) implies same_piece(
            x,
            #[trigger] l[(k + 1) + i],
            y,
            m[(k2 + 1) + i],
        ) by {
            assert(same_piece(x, l[k + (i + 1)], y, m[k2 + (i + 1)]));
            assert(k + (i + 1) == (k + 1) + i);
        }
        lemma_texts_same(x, l, k + 1, y, m, k2 + 1);
    }
}

/// Removing the tags of `s + t`, when `s` lexes on its own, gives what `s` gives followed by
/// what `t` gives; an error in `t` comes with its position moved along.
pub proof fn law_untagged_concat(s: Seq<char>, t: Seq<char>)
    requires
        strip_tags(s) is Ok,
    ensures
        strip_tags(s + t) == (match strip_tags(t) {
            Ok(u) => Ok(strip_tags(s)->Ok_0 + u),
            Err(e) => Err::<Seq<char>, (int, ErrorKind)>(shift_error(e, s.len() as int)),
        }),
{
    law_lex_concat(s, t, true);
    let st = s + t;
    let n = s.len() as int;
    if let Ok(lt) = lex(t, true) {
        let ls = lex(s, true)->Ok_0;
        let lt2 = shift_pieces(lt, n);
        let l = ls + lt2;
        lemma_lex_texts_inside(s, 0, true);
        lemma_lex_texts_inside(t, 0, true);
        lemma_texts_split(st, ls, lt2, 0);
        assert forall|i: int| 0 <= i < ls.len() - 0 implies same_piece(
            st,
            #[trigger] ls[0 + i],
            s,
            ls[0 + i],
        ) by {
            assert(ls[i] == lex_from(s, 0, true)->Ok_0[i]);
            assert(lexeme_wf_text(ls[i], n));
            if let LexemeView::Text(a, b) = ls[i] {
                assert(st.subrange(a, b) =~= s.subrange(a, b));
            }
        }
        lemma_texts_same(st, ls, 0, s, ls, 0);
        assert forall|i: int| 0 <= i < l.len() - ls.len() implies same_piece(
            st,
            #[trigger] l[ls.len() + i],
            t,
            lt[0 + i],
        ) by {
            assert(l[ls.len() + i] == shift_lexeme(lt[i], n));
            assert(lt[i] == lex_from(t, 0, true)->Ok_0[i]);
            assert(lexeme_wf_text(lt[i], t.len() as int));
            if let LexemeView::Text(a, b) = lt[i] {
                assert(st.subrange(a + n, b + n) =~= t.subrange(a, b));
            }
        }
        lemma_texts_same(st, l, ls.len() as int, t, lt, 0);
    }
}

/// A brace is text in a raw string: removing the tags of `s`, then `{` or `}`, then `t` gives
/// what `s` gives, the brace itself, then what `t` gives (an error in `t` moved along), when `s`
/// lexes on its own. So `cstr` keeps every brace that stands between pieces, as it is.
pub proof fn law_braces_kept(s: Seq<char>, c: char, t: Seq<char>)
    requires
        strip_tags(s) is Ok,
        c == '{' || c == '}',
    ensures
        strip_tags(s + seq![c] + t) == (match strip_tags(t) {
            Ok(u) => Ok(strip_tags(s)->Ok_0 + seq![c] + u),
            Err(e) => Err::<Seq<char>, (int, ErrorKind)>(shift_error(e, s.len() + 1int)),
        }),
{
    let b = seq![c];
    assert(lex_from(b, 1, true) == Ok::<Seq<LexemeView>, (int, ErrorKind)>(Seq::empty()));
    assert(lex(b, true) == Ok::<Seq<LexemeView>, (int, ErrorKind)>(seq![LexemeView::Text(0, 1)]));
    let l = seq![LexemeView::Text(0, 1)];
    assert(texts_from(b, l, 1) == Seq::<char>::empty());
    assert(b.subrange(0, 1) =~= b);
    assert(texts_from(b, l, 0) =~= b);
    law_untagged_concat(b, t);
    law_untagged_concat(s, b + t);
    assert(s + (b + t) =~= s + b + t);
    if let Ok(u) = strip_tags(t) {
        assert(strip_tags(s)->Ok_0 + (b + u) =~= strip_tags(s)->Ok_0 + b + u);
    }
}

} // verus!
