//! Tags that set the same thing are interchangeable where they stand.

use vstd::prelude::*;
use crate::ansi::{colorize, render_from};
use crate::color_context::{AttrsView, default_attrs};
use crate::parse::{LexemeView, lex, lex_from, lex_step};
use crate::parse::prefix::{agree, lemma_agree_step, lemma_lex_prefix, lemma_lex_texts_inside};
use crate::parse::shift::{same_tail, shift_lexeme, shift_pieces, lemma_shift_lex};

verus! {

/// Two pieces give the same output: texts with the same characters, or tags that set the same.
pub open spec fn same_piece(s: Seq<char>, x: LexemeView, s2: Seq<char>, y: LexemeView) -> bool {
    match x {
        LexemeView::Text(a, b) => y matches LexemeView::Text(c, e) && s.subrange(a, b)
            == s2.subrange(c, e),
        LexemeView::Open(t) => y == LexemeView::Open(t),
        LexemeView::Close(_, t) => y matches LexemeView::Close(_, u) && u == t,
    }
}

proof fn lemma_render_same(
    s: Seq<char>,
    l: Seq<LexemeView>,
    s2: Seq<char>,
    l2: Seq<LexemeView>,
    k: int,
    stack: Seq<AttrsView>,
    emitted: AttrsView,
)
    requires
        l.len() == l2.len(),
        0 <= k,
        forall|j: int| k <= j < l.len() ==> same_piece(s, #[trigger] l[j], s2, l2[j]),
    ensures
        (render_from(s, l, k, stack, emitted) is Ok) == (render_from(s2, l2, k, stack, emitted) is Ok),
        render_from(s, l, k, stack, emitted) is Ok ==> render_from(s, l, k, stack, emitted)
            == render_from(s2, l2, k, stack, emitted),
    decreases l.len() - k,
{
    if k < l.len() {
        assert(same_piece(s, l[k], s2, l2[k]));
        match l[k] {
            LexemeView::Text(_, _) => {
                lemma_render_same(s, l, s2, l2, k + 1, stack, crate::color_context::state_of(stack));
            },
            LexemeView::Open(t) => {
                lemma_render_same(s, l, s2, l2, k + 1, stack.push(t), emitted);
            },
            LexemeView::Close(_, _) => {
                lemma_render_same(s, l, s2, l2, k + 1, stack.drop_last(), emitted);
            },
        }
    }
}

/// How `p + tag + q` lexes, when `p` lexes on its own and `tag` is one piece `x`: the pieces of
/// `p`, then `x`, then those of `q`, each moved to where it stands.
proof fn lemma_lex_around(p: Seq<char>, tag: Seq<char>, q: Seq<char>, raw: bool)
    requires
        lex(p, raw) is Ok,
        0 < tag.len(),
        lex_step(tag, 0, raw) is Ok,
        lex_step(tag, 0, raw)->Ok_0.1 == tag.len(),
    ensures
        (lex(p + tag + q, raw) is Ok) == (lex(q, raw) is Ok),
        lex(q, raw) is Ok ==> lex(p + tag + q, raw)->Ok_0 == lex(p, raw)->Ok_0 + shift_pieces(
            seq![lex_step(tag, 0, raw)->Ok_0.0] + shift_pieces(lex(q, raw)->Ok_0, tag.len() as int),
            p.len() as int,
        ),
{
    let s = p + tag + q;
    let t1 = tag + q;
    let x = lex_step(tag, 0, raw)->Ok_0.0;
    assert(agree(p, s, p.len() as int));
    lemma_lex_prefix(p, s, 0, raw);
    assert(same_tail(t1, 0, s, p.len() as int)) by {
        assert forall|k: int| 0 <= k < t1.len() implies t1[k] == #[trigger] s[k + (p.len() - 0)] by {
            if k < tag.len() {
                assert(t1[k] == tag[k]);
            } else {
                assert(t1[k] == q[k - tag.len()]);
            }
        }
    }
    lemma_shift_lex(t1, 0, s, p.len() as int, 0, raw);
    assert(agree(tag, t1, tag.len() as int));
    lemma_agree_step(tag, t1, 0, raw);
    assert(same_tail(q, 0, t1, tag.len() as int)) by {
        assert forall|k: int| 0 <= k < q.len() implies q[k] == #[trigger] t1[k + (tag.len() - 0)] by {
        }
    }
    lemma_shift_lex(q, 0, t1, tag.len() as int, 0, raw);
    assert(lex_from(s, 0 + (p.len() - 0), raw) == lex_from(s, p.len() as int, raw));
    assert(lex_from(t1, 0 + (tag.len() - 0), raw) == lex_from(t1, tag.len() as int, raw));
}

/// The pieces of `p + tag + q`, taken one by one, against those of `p + tag2 + q`.
proof fn lemma_pieces_same(
    p: Seq<char>,
    tag: Seq<char>,
    tag2: Seq<char>,
    q: Seq<char>,
    x: LexemeView,
    lp: Seq<LexemeView>,
    lq: Seq<LexemeView>,
    raw: bool,
)
    requires
        !(x is Text),
        lex(p, raw) is Ok,
        lp == lex(p, raw)->Ok_0,
        lex(q, raw) is Ok,
        lq == lex(q, raw)->Ok_0,
    ensures
        ({
            let l = lp + shift_pieces(seq![x] + shift_pieces(lq, tag.len() as int), p.len() as int);
            let l2 = lp + shift_pieces(
                seq![x] + shift_pieces(lq, tag2.len() as int),
                p.len() as int,
            );
            &&& l.len() == l2.len()
            &&& forall|j: int|
                0 <= j < l.len() ==> same_piece(p + tag + q, #[trigger] l[j], p + tag2 + q, l2[j])
        }),
{
    let s = p + tag + q;
    let s2 = p + tag2 + q;
    let n = p.len() as int;
    let l = lp + shift_pieces(seq![x] + shift_pieces(lq, tag.len() as int), n);
    let l2 = lp + shift_pieces(seq![x] + shift_pieces(lq, tag2.len() as int), n);
    lemma_lex_texts_inside(p, 0, raw);
    lemma_lex_texts_inside(q, 0, raw);
    assert forall|j: int| 0 <= j < l.len() implies same_piece(s, #[trigger] l[j], s2, l2[j]) by {
        if j < lp.len() {
            assert(l[j] == lp[j]);
            assert(l2[j] == lp[j]);
            if let LexemeView::Text(a, b) = lp[j] {
                assert(lp[j] == lex_from(p, 0, raw)->Ok_0[j]);
                assert(crate::parse::prefix::lexeme_wf_text(lp[j], n));
                assert(s.subrange(a, b) =~= s2.subrange(a, b)) by {
                    assert forall|i: int| 0 <= i < b - a implies #[trigger] s.subrange(a, b)[i] == s2.subrange(
                        a,
                        b,
                    )[i] by {
                        assert(s[a + i] == p[a + i]);
                        assert(s2[a + i] == p[a + i]);
                    }
                }
            }
        } else if j == lp.len() {
            assert(l[j] == shift_lexeme(x, n));
            assert(l2[j] == shift_lexeme(x, n));
        } else {
            let m = j - lp.len() - 1;
            assert(0 <= m < lq.len());
            let d = tag.len() as int;
            let d2 = tag2.len() as int;
            assert(l[j] == shift_lexeme(shift_lexeme(lq[m], d), n));
            assert(l2[j] == shift_lexeme(shift_lexeme(lq[m], d2), n));
            if let LexemeView::Text(a, b) = lq[m] {
                assert(lq[m] == lex_from(q, 0, raw)->Ok_0[m]);
                assert(crate::parse::prefix::lexeme_wf_text(lq[m], q.len() as int));
                assert(s.subrange(a + d + n, b + d + n) =~= s2.subrange(a + d2 + n, b + d2 + n)) by {
                    assert forall|i: int| 0 <= i < b - a implies #[trigger] s.subrange(a + d + n, b + d + n)[i]
                        == s2.subrange(a + d2 + n, b + d2 + n)[i] by {
                        assert(s[a + d + n + i] == q[a + i]);
                        assert(s2[a + d2 + n + i] == q[a + i]);
                    }
                }
            }
        }
    }
}

/// Two tags that set the same thing are interchangeable: where `tag` and `tag2` each lex as one
/// and the same tag (not text), putting one or the other between `p` (which lexes on its own)
/// and `q` gives the same output, and an error for one exactly when for the other.
pub proof fn law_same_tags_interchangeable(
    p: Seq<char>,
    tag: Seq<char>,
    tag2: Seq<char>,
    q: Seq<char>,
    raw: bool,
)
    requires
        lex(p, raw) is Ok,
        0 < tag.len(),
        0 < tag2.len(),
        lex_step(tag, 0, raw) is Ok,
        lex_step(tag, 0, raw)->Ok_0.1 == tag.len(),
        !(lex_step(tag, 0, raw)->Ok_0.0 is Text),
        lex_step(tag2, 0, raw) is Ok,
        lex_step(tag2, 0, raw)->Ok_0 == (lex_step(tag, 0, raw)->Ok_0.0, tag2.len() as int),
    ensures
        (colorize(p + tag + q, raw) is Ok) == (colorize(p + tag2 + q, raw) is Ok),
        colorize(p + tag + q, raw) is Ok ==> colorize(p + tag + q, raw) == colorize(
            p + tag2 + q,
            raw,
        ),
{
    lemma_lex_around(p, tag, q, raw);
    lemma_lex_around(p, tag2, q, raw);
    if lex(q, raw) is Ok {
        let x = lex_step(tag, 0, raw)->Ok_0.0;
        let lp = lex(p, raw)->Ok_0;
        let lq = lex(q, raw)->Ok_0;
        lemma_pieces_same(p, tag, tag2, q, x, lp, lq, raw);
        lemma_render_same(
            p + tag + q,
            lex(p + tag + q, raw)->Ok_0,
            p + tag2 + q,
            lex(p + tag2 + q, raw)->Ok_0,
            0,
            Seq::empty(),
            default_attrs(),
        );
    }
}

} // verus!
