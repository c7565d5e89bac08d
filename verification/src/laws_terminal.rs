//! What the escape sequences do to a terminal: the codes written between two texts take the
//! terminal from the style of the first to the style of the second, and the codes at the end
//! take it back to its default state.

use vstd::prelude::*;
use crate::ansi::colorize;
use crate::ansi_constants::{sgr, osc8};
use crate::color_context::{
    AttrsView, Color, Styles, option_color_wf, attrs_wf, default_attrs,
    transition, color_change, color_params, intensity_change, flag_change, link_change,
};
use crate::laws_output::{chunks, last_state, text_states_from, text_pieces_from, law_output_shape};
use crate::parse::lex;

verus! {

/// One escape sequence: SGR with its parameters, or an OSC 8 hyperlink (an empty URL ends the
/// link).
pub enum Code {
    Sgr(Seq<u8>),
    Link(Seq<char>),
}

/// The characters of a sequence.
pub open spec fn code_text(c: Code) -> Seq<char> {
    match c {
        Code::Sgr(p) => sgr(p),
        Code::Link(u) => osc8(u),
    }
}

/// The characters of sequences written one after the other.
#[verifier::opaque]
pub open spec fn codes_text(cs: Seq<Code>) -> Seq<char>
    decreases cs.len(),
{
    if cs.len() == 0 {
        Seq::empty()
    } else {
        codes_text(cs.drop_last()) + code_text(cs.last())
    }
}

/// The state with the foreground (or the background) set to `c`.
pub open spec fn set_color(st: AttrsView, background: bool, c: Option<Color>) -> AttrsView {
    if background {
        AttrsView { background: c, ..st }
    } else {
        AttrsView { foreground: c, ..st }
    }
}

/// The styles with the style switched on by SGR code `on` (3, 4, 5, 7, 8 or 9) set to `v`.
pub open spec fn with_flag(s: Styles, on: u8, v: bool) -> Styles {
    if on == 3 {
        Styles { italics: v, ..s }
    } else if on == 4 {
        Styles { underline: v, ..s }
    } else if on == 5 {
        Styles { blink: v, ..s }
    } else if on == 7 {
        Styles { reverse: v, ..s }
    } else if on == 8 {
        Styles { conceal: v, ..s }
    } else if on == 9 {
        Styles { strike: v, ..s }
    } else {
        s
    }
}

/// What one SGR parameter does: 0 resets everything but the link, 1 and 2 switch on bold and
/// dim and 22 switches both off, 3, 4, 5, 7, 8 and 9 switch on a style and that number plus 20
/// switches it off, 30 to 37 and 90 to 97 set a basic foreground and 39 resets it, 40 to 47 and
/// 100 to 107 the same for the background with 49; any other does nothing.
pub open spec fn apply_param(st: AttrsView, c: u8) -> AttrsView {
    if c == 0 {
        AttrsView { link: st.link, ..default_attrs() }
    } else if c == 1 {
        AttrsView { styles: Styles { bold: true, ..st.styles }, ..st }
    } else if c == 2 {
        AttrsView { styles: Styles { dim: true, ..st.styles }, ..st }
    } else if c == 22 {
        AttrsView { styles: Styles { bold: false, dim: false, ..st.styles }, ..st }
    } else if c == 3 || c == 4 || c == 5 || c == 7 || c == 8 || c == 9 {
        AttrsView { styles: with_flag(st.styles, c, true), ..st }
    } else if c == 23 || c == 24 || c == 25 || c == 27 || c == 28 || c == 29 {
        AttrsView { styles: with_flag(st.styles, (c - 20) as u8, false), ..st }
    } else if 30 <= c <= 37 {
        set_color(st, false, Some(Color::Ansi((c - 30) as u8)))
    } else if 90 <= c <= 97 {
        set_color(st, false, Some(Color::Ansi((c - 82) as u8)))
    } else if c == 39 {
        set_color(st, false, None)
    } else if 40 <= c <= 47 {
        set_color(st, true, Some(Color::Ansi((c - 40) as u8)))
    } else if 100 <= c <= 107 {
        set_color(st, true, Some(Color::Ansi((c - 92) as u8)))
    } else if c == 49 {
        set_color(st, true, None)
    } else {
        st
    }
}

/// What the SGR parameters from the `i`-th on do, in order: 38 and 48 take `5;n` (a palette
/// color) or `2;r;g;b` (a true color) after them; a 38 or 48 without them ends the sequence.
pub open spec fn apply_params(st: AttrsView, p: Seq<u8>, i: int) -> AttrsView
    decreases p.len() - i,
{
    if i >= p.len() || i < 0 {
        st
    } else if p[i] == 38 || p[i] == 48 {
        let bg = p[i] == 48;
        if i + 2 < p.len() && p[i + 1] == 5 {
            apply_params(set_color(st, bg, Some(Color::Palette(p[i + 2]))), p, i + 3)
        } else if i + 4 < p.len() && p[i + 1] == 2 {
            apply_params(
                set_color(st, bg, Some(Color::Rgb(p[i + 2], p[i + 3], p[i + 4]))),
                p,
                i + 5,
            )
        } else {
            st
        }
    } else {
        apply_params(apply_param(st, p[i]), p, i + 1)
    }
}

/// What one sequence does to the terminal's state.
pub open spec fn apply_code(st: AttrsView, c: Code) -> AttrsView {
    match c {
        Code::Sgr(p) => apply_params(st, p, 0),
        Code::Link(u) => AttrsView { link: if u.len() == 0 { None } else { Some(u) }, ..st },
    }
}

/// What sequences written one after the other do to the terminal's state.
#[verifier::opaque]
pub open spec fn apply_codes(st: AttrsView, cs: Seq<Code>) -> AttrsView
    decreases cs.len(),
{
    if cs.len() == 0 {
        st
    } else {
        apply_code(apply_codes(st, cs.drop_last()), cs.last())
    }
}

/// The sequence that changes one color, if it changes.
pub open spec fn color_codes(from: Option<Color>, to: Option<Color>, background: bool) -> Seq<Code> {
    if from == to {
        Seq::empty()
    } else {
        match to {
            Some(c) => seq![Code::Sgr(color_params(c, background))],
            None => seq![Code::Sgr(seq![if background { 49u8 } else { 39u8 }])],
        }
    }
}

pub open spec fn sgr_if(on: bool, p: u8) -> Seq<Code> {
    if on {
        seq![Code::Sgr(seq![p])]
    } else {
        Seq::empty()
    }
}

/// The sequences that change bold and dim.
pub open spec fn intensity_codes(from: Styles, to: Styles) -> Seq<Code> {
    if (from.bold && !to.bold) || (from.dim && !to.dim) {
        sgr_if(true, 22) + sgr_if(to.bold, 1) + sgr_if(to.dim, 2)
    } else {
        sgr_if(!from.bold && to.bold, 1) + sgr_if(!from.dim && to.dim, 2)
    }
}

/// The sequence that switches one style, if it changes.
pub open spec fn flag_codes(from: bool, to: bool, on: u8, off: u8) -> Seq<Code> {
    if from == to {
        Seq::empty()
    } else if to {
        sgr_if(true, on)
    } else {
        sgr_if(true, off)
    }
}

/// The sequence that changes the link, if it changes.
pub open spec fn link_codes(from: Option<Seq<char>>, to: Option<Seq<char>>) -> Seq<Code> {
    if from == to {
        Seq::empty()
    } else {
        seq![
            Code::Link(
                match to {
                    Some(u) => u,
                    None => Seq::empty(),
                },
            ),
        ]
    }
}

/// The sequences that [`transition`] writes, one by one.
pub open spec fn transition_codes(a: AttrsView, b: AttrsView) -> Seq<Code> {
    color_codes(a.foreground, b.foreground, false) + color_codes(a.background, b.background, true)
        + intensity_codes(a.styles, b.styles) + flag_codes(a.styles.italics, b.styles.italics, 3, 23)
        + flag_codes(a.styles.underline, b.styles.underline, 4, 24) + flag_codes(
        a.styles.blink,
        b.styles.blink,
        5,
        25,
    ) + flag_codes(a.styles.reverse, b.styles.reverse, 7, 27) + flag_codes(
        a.styles.conceal,
        b.styles.conceal,
        8,
        28,
    ) + flag_codes(a.styles.strike, b.styles.strike, 9, 29) + link_codes(a.link, b.link)
}

proof fn lemma_empty_codes(st: AttrsView)
    ensures
        codes_text(Seq::<Code>::empty()) == Seq::<char>::empty(),
        apply_codes(st, Seq::<Code>::empty()) == st,
{
    reveal(codes_text);
    reveal(apply_codes);
}

proof fn lemma_codes_text_concat(x: Seq<Code>, y: Seq<Code>)
    ensures
        codes_text(x + y) == codes_text(x) + codes_text(y),
    decreases y.len(),
{
    reveal(codes_text);
    if y.len() == 0 {
        assert(x + y =~= x);
        assert(codes_text(x) + Seq::<char>::empty() =~= codes_text(x));
    } else {
        lemma_codes_text_concat(x, y.drop_last());
        assert((x + y).drop_last() =~= x + y.drop_last());
        assert((x + y).last() == y.last());
        assert(codes_text(x) + codes_text(y.drop_last()) + code_text(y.last()) =~= codes_text(x)
            + (codes_text(y.drop_last()) + code_text(y.last())));
    }
}

proof fn lemma_codes_text_one(c: Code)
    ensures
        codes_text(seq![c]) == code_text(c),
{
    reveal(codes_text);
    assert(seq![c].drop_last() =~= Seq::<Code>::empty());
    assert(seq![c].last() == c);
    assert(codes_text(Seq::<Code>::empty()) == Seq::<char>::empty());
    assert(Seq::<char>::empty() + code_text(c) =~= code_text(c));
}

proof fn lemma_apply_concat(st: AttrsView, x: Seq<Code>, y: Seq<Code>)
    ensures
        apply_codes(st, x + y) == apply_codes(apply_codes(st, x), y),
    decreases y.len(),
{
    reveal(apply_codes);
    if y.len() == 0 {
        assert(x + y =~= x);
    } else {
        lemma_apply_concat(st, x, y.drop_last());
        assert((x + y).drop_last() =~= x + y.drop_last());
        assert((x + y).last() == y.last());
    }
}

proof fn lemma_apply_one(st: AttrsView, c: Code)
    ensures
        apply_codes(st, seq![c]) == apply_code(st, c),
{
    reveal(apply_codes);
    assert(seq![c].drop_last() =~= Seq::<Code>::empty());
    assert(seq![c].last() == c);
    assert(apply_codes(st, Seq::<Code>::empty()) == st);
}

proof fn lemma_apply_param_one(st: AttrsView, c: u8)
    requires
        c != 38 && c != 48,
    ensures
        apply_codes(st, sgr_if(true, c)) == apply_param(st, c),
{
    lemma_apply_one(st, Code::Sgr(seq![c]));
    let p = seq![c];
    assert(apply_params(apply_param(st, c), p, 1) == apply_param(st, c));
}

proof fn lemma_code_if_text(on: bool, p: u8)
    ensures
        codes_text(sgr_if(on, p)) == (if on {
            sgr(seq![p])
        } else {
            Seq::empty()
        }),
{
    lemma_empty_codes(default_attrs());
    if on {
        lemma_codes_text_one(Code::Sgr(seq![p]));
    }
}

proof fn lemma_one_or_none_text(cs: Seq<Code>)
    requires
        cs.len() <= 1,
    ensures
        codes_text(cs) == (if cs.len() == 1 {
            code_text(cs[0])
        } else {
            Seq::empty()
        }),
{
    lemma_empty_codes(default_attrs());
    if cs.len() == 1 {
        lemma_codes_text_one(cs[0]);
        assert(cs =~= seq![cs[0]]);
    } else {
        assert(cs =~= Seq::<Code>::empty());
    }
}

proof fn lemma_color_text(from: Option<Color>, to: Option<Color>, background: bool)
    ensures
        codes_text(color_codes(from, to, background)) == color_change(from, to, background),
{
    reveal(color_change);
    lemma_one_or_none_text(color_codes(from, to, background));
}

proof fn lemma_intensity_text(from: Styles, to: Styles)
    ensures
        codes_text(intensity_codes(from, to)) == intensity_change(from, to),
{
    reveal(intensity_change);
    lemma_code_if_text(true, 22);
    lemma_code_if_text(to.bold, 1);
    lemma_code_if_text(to.dim, 2);
    lemma_code_if_text(!from.bold && to.bold, 1);
    lemma_code_if_text(!from.dim && to.dim, 2);
    lemma_codes_text_concat(sgr_if(true, 22), sgr_if(to.bold, 1));
    lemma_codes_text_concat(sgr_if(true, 22) + sgr_if(to.bold, 1), sgr_if(to.dim, 2));
    lemma_codes_text_concat(sgr_if(!from.bold && to.bold, 1), sgr_if(!from.dim && to.dim, 2));
}

proof fn lemma_flag_text(from: bool, to: bool, on: u8, off: u8)
    ensures
        codes_text(flag_codes(from, to, on, off)) == flag_change(from, to, on, off),
{
    reveal(flag_change);
    lemma_empty_codes(default_attrs());
    lemma_code_if_text(true, on);
    lemma_code_if_text(true, off);
}

proof fn lemma_link_text(from: Option<Seq<char>>, to: Option<Seq<char>>)
    ensures
        codes_text(link_codes(from, to)) == link_change(from, to),
{
    reveal(link_change);
    lemma_one_or_none_text(link_codes(from, to));
}

/// [`transition_codes`] is what [`transition`] writes.
pub proof fn lemma_transition_text(a: AttrsView, b: AttrsView)
    ensures
        codes_text(transition_codes(a, b)) == transition(a, b),
{
    let c1 = color_codes(a.foreground, b.foreground, false);
    let c2 = color_codes(a.background, b.background, true);
    let c3 = intensity_codes(a.styles, b.styles);
    let c4 = flag_codes(a.styles.italics, b.styles.italics, 3, 23);
    let c5 = flag_codes(a.styles.underline, b.styles.underline, 4, 24);
    let c6 = flag_codes(a.styles.blink, b.styles.blink, 5, 25);
    let c7 = flag_codes(a.styles.reverse, b.styles.reverse, 7, 27);
    let c8 = flag_codes(a.styles.conceal, b.styles.conceal, 8, 28);
    let c9 = flag_codes(a.styles.strike, b.styles.strike, 9, 29);
    let c10 = link_codes(a.link, b.link);
    lemma_color_text(a.foreground, b.foreground, false);
    lemma_color_text(a.background, b.background, true);
    lemma_intensity_text(a.styles, b.styles);
    lemma_flag_text(a.styles.italics, b.styles.italics, 3, 23);
    lemma_flag_text(a.styles.underline, b.styles.underline, 4, 24);
    lemma_flag_text(a.styles.blink, b.styles.blink, 5, 25);
    lemma_flag_text(a.styles.reverse, b.styles.reverse, 7, 27);
    lemma_flag_text(a.styles.conceal, b.styles.conceal, 8, 28);
    lemma_flag_text(a.styles.strike, b.styles.strike, 9, 29);
    lemma_link_text(a.link, b.link);
    let p2 = c1 + c2;
    let p3 = p2 + c3;
    let p4 = p3 + c4;
    let p5 = p4 + c5;
    let p6 = p5 + c6;
    let p7 = p6 + c7;
    let p8 = p7 + c8;
    let p9 = p8 + c9;
    lemma_codes_text_concat(c1, c2);
    lemma_codes_text_concat(p2, c3);
    lemma_codes_text_concat(p3, c4);
    lemma_codes_text_concat(p4, c5);
    lemma_codes_text_concat(p5, c6);
    lemma_codes_text_concat(p6, c7);
    lemma_codes_text_concat(p7, c8);
    lemma_codes_text_concat(p8, c9);
    lemma_codes_text_concat(p9, c10);
    assert(transition_codes(a, b) == p9 + c10);
}

/// Whether the style that SGR code `on` switches on is on.
pub open spec fn flag_of(s: Styles, on: u8) -> bool {
    if on == 3 {
        s.italics
    } else if on == 4 {
        s.underline
    } else if on == 5 {
        s.blink
    } else if on == 7 {
        s.reverse
    } else if on == 8 {
        s.conceal
    } else {
        s.strike
    }
}

proof fn lemma_apply_code_if(st: AttrsView, on: bool, c: u8)
    requires
        c != 38 && c != 48,
    ensures
        apply_codes(st, sgr_if(on, c)) == (if on {
            apply_param(st, c)
        } else {
            st
        }),
{
    lemma_empty_codes(st);
    if on {
        lemma_apply_param_one(st, c);
    }
}

proof fn lemma_color_apply(st: AttrsView, from: Option<Color>, to: Option<Color>, background: bool)
    requires
        option_color_wf(to),
        from == (if background {
            st.background
        } else {
            st.foreground
        }),
    ensures
        apply_codes(st, color_codes(from, to, background)) == set_color(st, background, to),
{
    if from != to {
        match to {
            None => {
                lemma_apply_param_one(st, if background { 49u8 } else { 39u8 });
            },
            Some(c) => {
                let p = color_params(c, background);
                lemma_apply_one(st, Code::Sgr(p));
                match c {
                    Color::Ansi(n) => {
                        let k = p[0];
                        assert(p =~= seq![k]);
                        lemma_apply_param_one(st, k);
                    },
                    Color::Palette(n) => {
                        let st2 = set_color(st, background, Some(Color::Palette(n)));
                        assert(apply_params(st2, p, 3) == st2);
                    },
                    Color::Rgb(r, g, b) => {
                        let st2 = set_color(st, background, Some(Color::Rgb(r, g, b)));
                        assert(apply_params(st2, p, 5) == st2);
                    },
                }
            },
        }
    } else {
        lemma_empty_codes(st);
    }
}

proof fn lemma_intensity_apply(st: AttrsView, from: Styles, to: Styles)
    requires
        st.styles.bold == from.bold,
        st.styles.dim == from.dim,
    ensures
        apply_codes(st, intensity_codes(from, to)) == (AttrsView {
            styles: Styles { bold: to.bold, dim: to.dim, ..st.styles },
            ..st
        }),
{
    if (from.bold && !to.bold) || (from.dim && !to.dim) {
        let x1 = sgr_if(true, 22);
        let x2 = sgr_if(to.bold, 1);
        let x3 = sgr_if(to.dim, 2);
        lemma_apply_concat(st, x1 + x2, x3);
        lemma_apply_concat(st, x1, x2);
        lemma_apply_code_if(st, true, 22);
        let s1 = apply_param(st, 22);
        lemma_apply_code_if(s1, to.bold, 1);
        let s2 = apply_codes(s1, x2);
        lemma_apply_code_if(s2, to.dim, 2);
    } else {
        let x1 = sgr_if(!from.bold && to.bold, 1);
        let x2 = sgr_if(!from.dim && to.dim, 2);
        lemma_apply_concat(st, x1, x2);
        lemma_apply_code_if(st, !from.bold && to.bold, 1);
        let s1 = apply_codes(st, x1);
        lemma_apply_code_if(s1, !from.dim && to.dim, 2);
    }
}

proof fn lemma_flag_apply(st: AttrsView, from: bool, to: bool, on: u8)
    requires
        on == 3 || on == 4 || on == 5 || on == 7 || on == 8 || on == 9,
        flag_of(st.styles, on) == from,
    ensures
        apply_codes(st, flag_codes(from, to, on, (on + 20) as u8)) == (AttrsView {
            styles: with_flag(st.styles, on, to),
            ..st
        }),
{
    if from == to {
        lemma_empty_codes(st);
    } else if to {
        lemma_apply_code_if(st, true, on);
    } else {
        lemma_apply_code_if(st, true, (on + 20) as u8);
    }
}

proof fn lemma_link_apply(st: AttrsView, from: Option<Seq<char>>, to: Option<Seq<char>>)
    requires
        st.link == from,
        to matches Some(u) ==> u.len() > 0,
    ensures
        apply_codes(st, link_codes(from, to)) == (AttrsView { link: to, ..st }),
{
    if from == to {
        lemma_empty_codes(st);
    } else {
        let u = match to {
            Some(u) => u,
            None => Seq::<char>::empty(),
        };
        lemma_apply_one(st, Code::Link(u));
    }
}

#[verifier::spinoff_prover]
#[verifier::rlimit(60)]
proof fn lemma_transition_apply(a: AttrsView, b: AttrsView)
    requires
        attrs_wf(b),
        b.link matches Some(u) ==> u.len() > 0,
    ensures
        apply_codes(a, transition_codes(a, b)) == b,
{
    let c1 = color_codes(a.foreground, b.foreground, false);
    let c2 = color_codes(a.background, b.background, true);
    let c3 = intensity_codes(a.styles, b.styles);
    let c4 = flag_codes(a.styles.italics, b.styles.italics, 3, 23);
    let c5 = flag_codes(a.styles.underline, b.styles.underline, 4, 24);
    let c6 = flag_codes(a.styles.blink, b.styles.blink, 5, 25);
    let c7 = flag_codes(a.styles.reverse, b.styles.reverse, 7, 27);
    let c8 = flag_codes(a.styles.conceal, b.styles.conceal, 8, 28);
    let c9 = flag_codes(a.styles.strike, b.styles.strike, 9, 29);
    let c10 = link_codes(a.link, b.link);
    let p2 = c1 + c2;
    let p3 = p2 + c3;
    let p4 = p3 + c4;
    let p5 = p4 + c5;
    let p6 = p5 + c6;
    let p7 = p6 + c7;
    let p8 = p7 + c8;
    let p9 = p8 + c9;
    assert(transition_codes(a, b) == p9 + c10);
    let t1 = set_color(a, false, b.foreground);
    let t2 = set_color(t1, true, b.background);
    let t3 = AttrsView { styles: Styles { bold: b.styles.bold, dim: b.styles.dim, ..t2.styles }, ..t2 };
    let t4 = AttrsView { styles: with_flag(t3.styles, 3, b.styles.italics), ..t3 };
    let t5 = AttrsView { styles: with_flag(t4.styles, 4, b.styles.underline), ..t4 };
    let t6 = AttrsView { styles: with_flag(t5.styles, 5, b.styles.blink), ..t5 };
    let t7 = AttrsView { styles: with_flag(t6.styles, 7, b.styles.reverse), ..t6 };
    let t8 = AttrsView { styles: with_flag(t7.styles, 8, b.styles.conceal), ..t7 };
    let t9 = AttrsView { styles: with_flag(t8.styles, 9, b.styles.strike), ..t8 };
    let t10 = AttrsView { link: b.link, ..t9 };
    assert(apply_codes(a, p2) == t2) by {
        lemma_apply_concat(a, c1, c2);
        lemma_color_apply(a, a.foreground, b.foreground, false);
        lemma_color_apply(t1, a.background, b.background, true);
    }
    assert(apply_codes(a, p3) == t3) by {
        lemma_apply_concat(a, p2, c3);
        lemma_intensity_apply(t2, a.styles, b.styles);
    }
    assert(apply_codes(a, p4) == t4) by {
        lemma_apply_concat(a, p3, c4);
        lemma_flag_apply(t3, a.styles.italics, b.styles.italics, 3);
    }
    assert(apply_codes(a, p5) == t5) by {
        lemma_apply_concat(a, p4, c5);
        lemma_flag_apply(t4, a.styles.underline, b.styles.underline, 4);
    }
    assert(apply_codes(a, p6) == t6) by {
        lemma_apply_concat(a, p5, c6);
        lemma_flag_apply(t5, a.styles.blink, b.styles.blink, 5);
    }
    assert(apply_codes(a, p7) == t7) by {
        lemma_apply_concat(a, p6, c7);
        lemma_flag_apply(t6, a.styles.reverse, b.styles.reverse, 7);
    }
    assert(apply_codes(a, p8) == t8) by {
        lemma_apply_concat(a, p7, c8);
        lemma_flag_apply(t7, a.styles.conceal, b.styles.conceal, 8);
    }
    assert(apply_codes(a, p9) == t9) by {
        lemma_apply_concat(a, p8, c9);
        lemma_flag_apply(t8, a.styles.strike, b.styles.strike, 9);
    }
    assert(apply_codes(a, p9 + c10) == t10) by {
        lemma_apply_concat(a, p9, c10);
        lemma_link_apply(t9, a.link, b.link);
    }
    assert(t10.styles == b.styles);
}

/// The codes that move from state `a` to state `b` do just that: written to a terminal in state
/// `a`, they leave it in state `b`. (A link to an empty URL is the one state that no code
/// reaches, since an empty URL ends a link; no tag sets one.)
pub proof fn law_transition_moves_the_terminal(a: AttrsView, b: AttrsView)
    requires
        attrs_wf(b),
        b.link matches Some(u) ==> u.len() > 0,
    ensures
        transition(a, b) == codes_text(transition_codes(a, b)),
        apply_codes(a, transition_codes(a, b)) == b,
{
    lemma_transition_text(a, b);
    lemma_transition_apply(a, b);
}

/// The output ends with the codes that move the terminal from the style of the last text back to
/// its default state: whatever the tags switched on, the terminal is left as it was found.
pub proof fn law_output_returns_to_default(s: Seq<char>, raw: bool)
    requires
        colorize(s, raw) is Ok,
    ensures
        ({
            let l = lex(s, raw)->Ok_0;
            let states = text_states_from(l, 0, Seq::empty());
            let texts = text_pieces_from(s, l, 0);
            let last = last_state(default_attrs(), states);
            &&& colorize(s, raw)->Ok_0 == chunks(default_attrs(), states, texts) + codes_text(
                transition_codes(last, default_attrs()),
            )
            &&& apply_codes(last, transition_codes(last, default_attrs())) == default_attrs()
        }),
{
    law_output_shape(s, raw);
    let l = lex(s, raw)->Ok_0;
    let last = last_state(default_attrs(), text_states_from(l, 0, Seq::empty()));
    law_transition_moves_the_terminal(last, default_attrs());
}

} // verus!
