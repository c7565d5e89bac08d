//! What is left of a string once its escape sequences are taken out: SGR sequences
//! (`ESC [ ... m`) and OSC sequences (`ESC ] ... ESC \`).

use vstd::prelude::*;
use crate::ansi_constants::{esc, sgr, osc8, decimal, join_params};
use crate::parse::lemma_index_of_bounds;
use crate::text::index_of;
use crate::color_context::{
    AttrsView, Color, Styles, transition, color_change, color_params, intensity_change, flag_change,
    link_change,
};

verus! {

/// `x` holds no escape character.
pub open spec fn esc_free(x: Seq<char>) -> bool {
    forall|i: int| 0 <= i < x.len() ==> x[i] != esc()
}

/// `x` with its SGR and OSC escape sequences taken out (an unterminated one takes the rest).
pub open spec fn strip_escapes(x: Seq<char>) -> Seq<char>
    decreases x.len(),
{
    if x.len() == 0 {
        Seq::empty()
    } else if x[0] == esc() && x.len() >= 2 && x[1] == '[' {
        let j = index_of(x, 'm', 2, x.len() as int);
        if j < x.len() {
            proof {
                lemma_index_of_bounds(x, 'm', 2, x.len() as int);
            }
            strip_escapes(x.skip(j + 1))
        } else {
            Seq::empty()
        }
    } else if x[0] == esc() && x.len() >= 2 && x[1] == ']' {
        let j = index_of(x, esc(), 2, x.len() as int);
        if j + 1 < x.len() && x[j + 1] == '\\' {
            proof {
                lemma_index_of_bounds(x, esc(), 2, x.len() as int);
            }
            strip_escapes(x.skip(j + 2))
        } else {
            Seq::empty()
        }
    } else {
        seq![x[0]] + strip_escapes(x.skip(1))
    }
}

/// `index_of` finds the first occurrence.
pub proof fn lemma_index_of_first(x: Seq<char>, c: char, from: int, to: int, j: int)
    requires
        from <= j < to,
        x[j] == c,
        forall|i: int| from <= i < j ==> x[i] != c,
    ensures
        index_of(x, c, from, to) == j,
    decreases j - from,
{
    if from < j {
        lemma_index_of_first(x, c, from + 1, to, j);
    }
}

/// The characters of a decimal number are digits.
pub proof fn lemma_decimal_digits(n: nat)
    ensures
        forall|i: int| 0 <= i < decimal(n).len() ==> '0' <= #[trigger] decimal(n)[i] <= '9',
    decreases n,
{
    if n >= 10 {
        lemma_decimal_digits(n / 10);
        let d = decimal(n / 10);
        assert forall|i: int| 0 <= i < decimal(n).len() implies '0' <= #[trigger] decimal(n)[i]
            <= '9' by {
            if i < d.len() {
                assert(decimal(n)[i] == d[i]);
            }
        }
    }
}

/// SGR parameters are digits and semicolons.
pub proof fn lemma_join_params_chars(p: Seq<u8>)
    ensures
        forall|i: int|
            0 <= i < join_params(p).len() ==> ('0' <= #[trigger] join_params(p)[i] <= '9'
                || join_params(p)[i] == ';'),
    decreases p.len(),
{
    if p.len() == 1 {
        lemma_decimal_digits(p[0] as nat);
    } else if p.len() > 1 {
        lemma_join_params_chars(p.drop_last());
        lemma_decimal_digits(p.last() as nat);
        let a = join_params(p.drop_last());
        let b = decimal(p.last() as nat);
        assert forall|i: int| 0 <= i < join_params(p).len() implies ('0' <= #[trigger] join_params(
            p,
        )[i] <= '9' || join_params(p)[i] == ';') by {
            if i < a.len() {
                assert(join_params(p)[i] == a[i]);
            } else if i == a.len() {
            } else {
                assert(join_params(p)[i] == b[i - a.len() - 1]);
            }
        }
    }
}

/// An SGR sequence is taken out whole.
pub proof fn lemma_strip_sgr(p: Seq<u8>, r: Seq<char>)
    ensures
        strip_escapes(sgr(p) + r) == strip_escapes(r),
{
    let x = sgr(p) + r;
    let jp = join_params(p);
    lemma_join_params_chars(p);
    let j: int = 2 + jp.len() as int;
    assert(x[j] == 'm');
    assert forall|i: int| 2 <= i < j implies x[i] != 'm' by {
        assert(x[i] == jp[i - 2]);
    }
    lemma_index_of_first(x, 'm', 2, x.len() as int, j);
    assert(x.skip(j + 1) =~= r);
}

/// An OSC 8 sequence is taken out whole.
pub proof fn lemma_strip_osc8(u: Seq<char>, r: Seq<char>)
    requires
        esc_free(u),
    ensures
        strip_escapes(osc8(u) + r) == strip_escapes(r),
{
    let x = osc8(u) + r;
    let j: int = 5 + u.len() as int;
    assert(x[j] == esc());
    assert(x[j + 1] == '\\');
    assert forall|i: int| 2 <= i < j implies x[i] != esc() by {
        if i >= 5 {
            assert(x[i] == u[i - 5]);
        }
    }
    lemma_index_of_first(x, esc(), 2, x.len() as int, j);
    assert(x.skip(j + 2) =~= r);
}

/// Text without escape characters stays.
pub proof fn lemma_strip_text(t: Seq<char>, r: Seq<char>)
    requires
        esc_free(t),
    ensures
        strip_escapes(t + r) == t + strip_escapes(r),
    decreases t.len(),
{
    if t.len() > 0 {
        let x = t + r;
        assert(x[0] == t[0]);
        assert(x.skip(1) =~= t.skip(1) + r);
        lemma_strip_text(t.skip(1), r);
        assert(seq![t[0]] + (t.skip(1) + strip_escapes(r)) =~= t + strip_escapes(r));
    } else {
        assert(t + r =~= r);
        assert(t + strip_escapes(r) =~= strip_escapes(r));
    }
}

/// The link of `a`, if any, holds no escape character.
pub open spec fn link_ok(a: AttrsView) -> bool {
    a.link matches Some(u) ==> esc_free(u)
}

proof fn lemma_strip_optional_sgr(present: bool, p: Seq<u8>, r: Seq<char>)
    ensures
        strip_escapes((if present { sgr(p) } else { Seq::empty() }) + r) == strip_escapes(r),
{
    if present {
        lemma_strip_sgr(p, r);
    } else {
        assert(Seq::<char>::empty() + r =~= r);
    }
}

proof fn lemma_strip_color_change(a: Option<Color>, b: Option<Color>, background: bool, r: Seq<char>)
    ensures
        strip_escapes(color_change(a, b, background) + r) == strip_escapes(r),
{
    reveal(color_change);
    if a == b {
        assert(Seq::<char>::empty() + r =~= r);
    } else {
        match b {
            Some(c) => lemma_strip_sgr(color_params(c, background), r),
            None => lemma_strip_sgr(seq![if background { 49u8 } else { 39u8 }], r),
        }
    }
}

proof fn lemma_strip_intensity_change(a: Styles, b: Styles, r: Seq<char>)
    ensures
        strip_escapes(intensity_change(a, b) + r) == strip_escapes(r),
{
    reveal(intensity_change);
    if (a.bold && !b.bold) || (a.dim && !b.dim) {
        let x = if b.bold { sgr(seq![1u8]) } else { Seq::empty() };
        let y = if b.dim { sgr(seq![2u8]) } else { Seq::empty() };
        lemma_strip_optional_sgr(b.dim, seq![2u8], r);
        lemma_strip_optional_sgr(b.bold, seq![1u8], y + r);
        lemma_strip_sgr(seq![22u8], x + (y + r));
        assert(sgr(seq![22u8]) + x + y + r =~= sgr(seq![22u8]) + (x + (y + r)));
    } else {
        let x = if !a.bold && b.bold { sgr(seq![1u8]) } else { Seq::empty() };
        let y = if !a.dim && b.dim { sgr(seq![2u8]) } else { Seq::empty() };
        lemma_strip_optional_sgr(!a.dim && b.dim, seq![2u8], r);
        lemma_strip_optional_sgr(!a.bold && b.bold, seq![1u8], y + r);
        assert(x + y + r =~= x + (y + r));
    }
}

proof fn lemma_strip_flag_change(a: bool, b: bool, on: u8, off: u8, r: Seq<char>)
    ensures
        strip_escapes(flag_change(a, b, on, off) + r) == strip_escapes(r),
{
    reveal(flag_change);
    if a == b {
        assert(Seq::<char>::empty() + r =~= r);
    } else if b {
        lemma_strip_sgr(seq![on], r);
    } else {
        lemma_strip_sgr(seq![off], r);
    }
}

proof fn lemma_strip_link_change(a: Option<Seq<char>>, b: Option<Seq<char>>, r: Seq<char>)
    requires
        b matches Some(u) ==> esc_free(u),
    ensures
        strip_escapes(link_change(a, b) + r) == strip_escapes(r),
{
    reveal(link_change);
    if a == b {
        assert(Seq::<char>::empty() + r =~= r);
    } else {
        match b {
            Some(u) => lemma_strip_osc8(u, r),
            None => lemma_strip_osc8(Seq::empty(), r),
        }
    }
}

/// The sequences of a change of state are taken out whole.
pub proof fn lemma_strip_transition(a: AttrsView, b: AttrsView, r: Seq<char>)
    requires
        link_ok(b),
    ensures
        strip_escapes(transition(a, b) + r) == strip_escapes(r),
{
    let p1 = color_change(a.foreground, b.foreground, false);
    let p2 = color_change(a.background, b.background, true);
    let p3 = intensity_change(a.styles, b.styles);
    let p4 = flag_change(a.styles.italics, b.styles.italics, 3, 23);
    let p5 = flag_change(a.styles.underline, b.styles.underline, 4, 24);
    let p6 = flag_change(a.styles.blink, b.styles.blink, 5, 25);
    let p7 = flag_change(a.styles.reverse, b.styles.reverse, 7, 27);
    let p8 = flag_change(a.styles.conceal, b.styles.conceal, 8, 28);
    let p9 = flag_change(a.styles.strike, b.styles.strike, 9, 29);
    let p10 = link_change(a.link, b.link);
    let r10 = p10 + r;
    lemma_strip_link_change(a.link, b.link, r);
    let r9 = p9 + r10;
    lemma_strip_flag_change(a.styles.strike, b.styles.strike, 9, 29, r10);
    let r8 = p8 + r9;
    lemma_strip_flag_change(a.styles.conceal, b.styles.conceal, 8, 28, r9);
    let r7 = p7 + r8;
    lemma_strip_flag_change(a.styles.reverse, b.styles.reverse, 7, 27, r8);
    let r6 = p6 + r7;
    lemma_strip_flag_change(a.styles.blink, b.styles.blink, 5, 25, r7);
    let r5 = p5 + r6;
    lemma_strip_flag_change(a.styles.underline, b.styles.underline, 4, 24, r6);
    let r4 = p4 + r5;
    lemma_strip_flag_change(a.styles.italics, b.styles.italics, 3, 23, r5);
    let r3 = p3 + r4;
    lemma_strip_intensity_change(a.styles, b.styles, r4);
    let r2 = p2 + r3;
    lemma_strip_color_change(a.background, b.background, true, r3);
    let r1 = p1 + r2;
    lemma_strip_color_change(a.foreground, b.foreground, false, r2);
    assert(transition(a, b) == p1 + p2 + p3 + p4 + p5 + p6 + p7 + p8 + p9 + p10);
    lemma_regroup(p1, p2, p3, p4, p5, p6, p7, p8, p9, p10, r);
}

proof fn lemma_regroup(
    p1: Seq<char>,
    p2: Seq<char>,
    p3: Seq<char>,
    p4: Seq<char>,
    p5: Seq<char>,
    p6: Seq<char>,
    p7: Seq<char>,
    p8: Seq<char>,
    p9: Seq<char>,
    p10: Seq<char>,
    r: Seq<char>,
)
    ensures
        p1 + p2 + p3 + p4 + p5 + p6 + p7 + p8 + p9 + p10 + r == p1 + (p2 + (p3 + (p4 + (p5 + (p6 + (
        p7 + (p8 + (p9 + (p10 + r))))))))),
{
    assert(p1 + p2 + p3 + p4 + p5 + p6 + p7 + p8 + p9 + p10 + r =~= p1 + (p2 + (p3 + (p4 + (p5 + (
    p6 + (p7 + (p8 + (p9 + (p10 + r))))))))));
}

} // verus!
