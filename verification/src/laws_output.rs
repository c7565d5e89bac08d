//! The shape of the output: the text pieces, each preceded by the codes that change the style
//! from the previous piece's to its own, and the codes that return to the default style at the
//! end.

use vstd::prelude::*;
use crate::ansi::{colorize, render_from};
use crate::ansi_constants::{lemma_sgr_nonempty, sgr, osc8};
use crate::color_context::{
    AttrsView, default_attrs, state_of, transition, color_change, intensity_change, flag_change,
    link_change,
};
use crate::parse::{LexemeView, lex};

verus! {

/// Each attribute gets codes exactly where it changes: the codes for the foreground, the
/// background, bold and dim together, each other style and the link are empty if and only if
/// that attribute is the same in both states; [`transition`] is these codes one after the other.
pub proof fn law_codes_per_attribute(a: AttrsView, b: AttrsView)
    ensures
        color_change(a.foreground, b.foreground, false).len() == 0 <==> a.foreground
            == b.foreground,
        color_change(a.background, b.background, true).len() == 0 <==> a.background
            == b.background,
        intensity_change(a.styles, b.styles).len() == 0 <==> (a.styles.bold == b.styles.bold
            && a.styles.dim == b.styles.dim),
        flag_change(a.styles.italics, b.styles.italics, 3, 23).len() == 0 <==> a.styles.italics
            == b.styles.italics,
        flag_change(a.styles.underline, b.styles.underline, 4, 24).len() == 0 <==> a.styles.underline
            == b.styles.underline,
        flag_change(a.styles.blink, b.styles.blink, 5, 25).len() == 0 <==> a.styles.blink
            == b.styles.blink,
        flag_change(a.styles.reverse, b.styles.reverse, 7, 27).len() == 0 <==> a.styles.reverse
            == b.styles.reverse,
        flag_change(a.styles.conceal, b.styles.conceal, 8, 28).len() == 0 <==> a.styles.conceal
            == b.styles.conceal,
        flag_change(a.styles.strike, b.styles.strike, 9, 29).len() == 0 <==> a.styles.strike
            == b.styles.strike,
        link_change(a.link, b.link).len() == 0 <==> a.link == b.link,
{
    reveal(color_change);
    reveal(intensity_change);
    reveal(flag_change);
    reveal(link_change);
    lemma_sgr_nonempty();
}

/// The styles of the text pieces from the `k`-th piece on, when `stack` is open before it.
pub open spec fn text_states_from(l: Seq<LexemeView>, k: int, stack: Seq<AttrsView>) -> Seq<
    AttrsView,
>
    decreases l.len() - k,
{
    if k >= l.len() {
        Seq::empty()
    } else {
        match l[k] {
            LexemeView::Text(_, _) => seq![state_of(stack)] + text_states_from(l, k + 1, stack),
            LexemeView::Open(t) => text_states_from(l, k + 1, stack.push(t)),
            LexemeView::Close(_, _) => text_states_from(l, k + 1, stack.drop_last()),
        }
    }
}

/// The text pieces from the `k`-th piece on.
pub open spec fn text_pieces_from(s: Seq<char>, l: Seq<LexemeView>, k: int) -> Seq<Seq<char>>
    decreases l.len() - k,
{
    if k >= l.len() {
        Seq::empty()
    } else {
        match l[k] {
            LexemeView::Text(a, b) => seq![s.subrange(a, b)] + text_pieces_from(s, l, k + 1),
            _ => text_pieces_from(s, l, k + 1),
        }
    }
}

/// Each text with the codes that move to its style from the style before it (`prev` for the
/// first one).
pub open spec fn chunks(prev: AttrsView, states: Seq<AttrsView>, texts: Seq<Seq<char>>) -> Seq<char>
    decreases states.len(),
{
    if states.len() == 0 {
        Seq::empty()
    } else {
        transition(prev, states[0]) + texts[0] + chunks(states[0], states.skip(1), texts.skip(1))
    }
}

/// The style of the last text, or `prev` if there is none.
pub open spec fn last_state(prev: AttrsView, states: Seq<AttrsView>) -> AttrsView {
    if states.len() == 0 {
        prev
    } else {
        states.last()
    }
}

proof fn lemma_render_chunks(
    s: Seq<char>,
    l: Seq<LexemeView>,
    k: int,
    stack: Seq<AttrsView>,
    emitted: AttrsView,
)
    requires
        0 <= k,
        render_from(s, l, k, stack, emitted) is Ok,
    ensures
        text_states_from(l, k, stack).len() == text_pieces_from(s, l, k).len(),
        render_from(s, l, k, stack, emitted)->Ok_0 == chunks(
            emitted,
            text_states_from(l, k, stack),
            text_pieces_from(s, l, k),
        ) + transition(last_state(emitted, text_states_from(l, k, stack)), default_attrs()),
    decreases l.len() - k,
{
    if k < l.len() {
        match l[k] {
            LexemeView::Text(a, b) => {
                let cur = state_of(stack);
                lemma_render_chunks(s, l, k + 1, stack, cur);
                let st = text_states_from(l, k, stack);
                let tx = text_pieces_from(s, l, k);
                let st1 = text_states_from(l, k + 1, stack);
                let tx1 = text_pieces_from(s, l, k + 1);
                assert(st.skip(1) =~= st1);
                assert(tx.skip(1) =~= tx1);
                assert(st[0] == cur);
                assert(tx[0] == s.subrange(a, b));
                assert(last_state(emitted, st) == last_state(cur, st1));
                let fin = transition(last_state(cur, st1), default_attrs());
                assert(transition(emitted, cur) + s.subrange(a, b) + (chunks(cur, st1, tx1) + fin)
                    =~= transition(emitted, cur) + s.subrange(a, b) + chunks(cur, st1, tx1) + fin);
            },
            LexemeView::Open(t) => {
                lemma_render_chunks(s, l, k + 1, stack.push(t), emitted);
            },
            LexemeView::Close(_, _) => {
                lemma_render_chunks(s, l, k + 1, stack.drop_last(), emitted);
            },
        }
    } else {
        assert(chunks(emitted, Seq::empty(), Seq::empty()) + transition(emitted, default_attrs())
            =~= transition(emitted, default_attrs()));
    }
}

/// The output is the text pieces in order, each preceded by the codes that move from the style
/// of the text before it (the default style for the first) to its own, which by
/// [`law_codes_per_attribute`] hold codes for exactly the attributes that differ, and none
/// between two texts of the same style; it ends with the codes that return from the style of the
/// last text to the default style, turning off everything that is still on.
pub proof fn law_output_shape(s: Seq<char>, raw: bool)
    requires
        colorize(s, raw) is Ok,
    ensures
        ({
            let l = lex(s, raw)->Ok_0;
            let states = text_states_from(l, 0, Seq::empty());
            let texts = text_pieces_from(s, l, 0);
            &&& states.len() == texts.len()
            &&& colorize(s, raw)->Ok_0 == chunks(default_attrs(), states, texts) + transition(
                last_state(default_attrs(), states),
                default_attrs(),
            )
        }),
{
    lemma_render_chunks(s, lex(s, raw)->Ok_0, 0, Seq::empty(), default_attrs());
}


/// `code` if `on`, nothing otherwise.
pub open spec fn code_if(on: bool, code: u8) -> Seq<char> {
    if on {
        sgr(seq![code])
    } else {
        Seq::empty()
    }
}

/// The codes that end the output from state `a` are the resets of what is on in `a`, and
/// nothing else: 39 for a foreground, 49 for a background, 22 for bold or dim, 23, 24, 25, 27,
/// 28 and 29 for the other styles, and the OSC 8 sequence with an empty URL for a link.
pub proof fn law_reset_codes(a: AttrsView)
    ensures
        transition(a, default_attrs()) == code_if(a.foreground is Some, 39) + code_if(
            a.background is Some,
            49,
        ) + code_if(a.styles.bold || a.styles.dim, 22) + code_if(a.styles.italics, 23) + code_if(
            a.styles.underline,
            24,
        ) + code_if(a.styles.blink, 25) + code_if(a.styles.reverse, 27) + code_if(
            a.styles.conceal,
            28,
        ) + code_if(a.styles.strike, 29) + (if a.link is Some {
            osc8(Seq::empty())
        } else {
            Seq::empty()
        }),
{
    reveal(color_change);
    reveal(intensity_change);
    reveal(flag_change);
    reveal(link_change);
    assert(intensity_change(a.styles, default_attrs().styles) =~= code_if(
        a.styles.bold || a.styles.dim,
        22,
    ));
}

} // verus!
