//! Colors, styles and links: what a tag changes, the state that a stack of open tags amounts to,
//! and the ANSI sequences that move a terminal from one state to another.

use vstd::prelude::*;
use crate::ansi_constants::{generate_ansi_code, generate_osc8_link, osc8, sgr};

verus! {

/// A terminal color.
#[derive(Clone, Copy, PartialEq, Eq, Structural, Debug)]
pub enum Color {
    /// One of the 16 basic colors: 0 to 7 are black, red, green, yellow, blue, magenta, cyan and
    /// white; 8 to 15 are their bright variants.
    Ansi(u8),
    /// A color of the 256-color palette.
    Palette(u8),
    /// A true color.
    Rgb(u8, u8, u8),
}

/// A basic color is one of the 16.
pub open spec fn color_wf(c: Color) -> bool {
    c matches Color::Ansi(n) ==> n < 16
}

pub open spec fn option_color_wf(c: Option<Color>) -> bool {
    c matches Some(c) ==> color_wf(c)
}

/// The text styles that a tag can switch on.
#[derive(Clone, Copy, PartialEq, Eq, Structural, Debug)]
pub struct Styles {
    pub bold: bool,
    pub dim: bool,
    pub italics: bool,
    pub underline: bool,
    pub blink: bool,
    pub reverse: bool,
    pub conceal: bool,
    pub strike: bool,
}

/// Text attributes: what a tag sets, or the state of the terminal. `None` and `false` mean
/// "not set by this tag" for a tag, and "the terminal's default" for a state.
#[derive(Debug)]
pub struct Attrs {
    pub foreground: Option<Color>,
    pub background: Option<Color>,
    pub styles: Styles,
    pub link: Option<String>,
}

/// The mathematical value of [`Attrs`].
pub struct AttrsView {
    pub foreground: Option<Color>,
    pub background: Option<Color>,
    pub styles: Styles,
    pub link: Option<Seq<char>>,
}

impl View for Attrs {
    type V = AttrsView;

    open spec fn view(&self) -> AttrsView {
        AttrsView {
            foreground: self.foreground,
            background: self.background,
            styles: self.styles,
            link: match self.link {
                Some(l) => Some(l@),
                None => None,
            },
        }
    }
}

pub open spec fn attrs_wf(a: AttrsView) -> bool {
    option_color_wf(a.foreground) && option_color_wf(a.background)
}

pub open spec fn no_styles() -> Styles {
    Styles {
        bold: false,
        dim: false,
        italics: false,
        underline: false,
        blink: false,
        reverse: false,
        conceal: false,
        strike: false,
    }
}

/// The terminal's default state; also the tag that sets nothing.
pub open spec fn default_attrs() -> AttrsView {
    AttrsView { foreground: None, background: None, styles: no_styles(), link: None }
}

/// Both tags at once: what `top` sets wins over what `base` sets, and styles add up.
pub open spec fn overlay(base: AttrsView, top: AttrsView) -> AttrsView {
    AttrsView {
        foreground: if top.foreground is Some { top.foreground } else { base.foreground },
        background: if top.background is Some { top.background } else { base.background },
        styles: Styles {
            bold: base.styles.bold || top.styles.bold,
            dim: base.styles.dim || top.styles.dim,
            italics: base.styles.italics || top.styles.italics,
            underline: base.styles.underline || top.styles.underline,
            blink: base.styles.blink || top.styles.blink,
            reverse: base.styles.reverse || top.styles.reverse,
            conceal: base.styles.conceal || top.styles.conceal,
            strike: base.styles.strike || top.styles.strike,
        },
        link: if top.link is Some { top.link } else { base.link },
    }
}

/// The state that a stack of open tags (innermost last) puts the terminal in.
pub open spec fn state_of(stack: Seq<AttrsView>) -> AttrsView
    decreases stack.len(),
{
    if stack.len() == 0 {
        default_attrs()
    } else {
        overlay(state_of(stack.drop_last()), stack.last())
    }
}

/// The mathematical values of a sequence of attributes.
pub open spec fn views(v: Seq<Attrs>) -> Seq<AttrsView> {
    v.map_values(|a: Attrs| a@)
}

/// The SGR parameters that set `c` as the foreground, or as the background.
pub open spec fn color_params(c: Color, background: bool) -> Seq<u8> {
    match c {
        Color::Ansi(n) => if n < 8 {
            seq![((if background { 40u8 } else { 30u8 }) + n) as u8]
        } else {
            seq![((if background { 100u8 } else { 90u8 }) + n - 8) as u8]
        },
        Color::Palette(n) => seq![if background { 48u8 } else { 38u8 }, 5u8, n],
        Color::Rgb(r, g, b) => seq![if background { 48u8 } else { 38u8 }, 2u8, r, g, b],
    }
}

/// The sequence that changes a color from `from` to `to` (nothing when they are the same).
#[verifier::opaque]
pub open spec fn color_change(from: Option<Color>, to: Option<Color>, background: bool) -> Seq<
    char,
> {
    if from == to {
        Seq::empty()
    } else {
        match to {
            Some(c) => sgr(color_params(c, background)),
            None => sgr(seq![if background { 49u8 } else { 39u8 }]),
        }
    }
}

/// Bold and dim share one reset code (22): when either is switched off, both are reset and the
/// one that stays is set again.
#[verifier::opaque]
pub open spec fn intensity_change(from: Styles, to: Styles) -> Seq<char> {
    if (from.bold && !to.bold) || (from.dim && !to.dim) {
        sgr(seq![22u8]) + (if to.bold { sgr(seq![1u8]) } else { Seq::empty() }) + (if to.dim {
            sgr(seq![2u8])
        } else {
            Seq::empty()
        })
    } else {
        (if !from.bold && to.bold { sgr(seq![1u8]) } else { Seq::empty() }) + (if !from.dim
            && to.dim {
            sgr(seq![2u8])
        } else {
            Seq::empty()
        })
    }
}

/// The sequence that switches a style from `from` to `to`.
#[verifier::opaque]
pub open spec fn flag_change(from: bool, to: bool, on: u8, off: u8) -> Seq<char> {
    if from == to {
        Seq::empty()
    } else if to {
        sgr(seq![on])
    } else {
        sgr(seq![off])
    }
}

/// The sequence that moves from the hyperlink `from` to `to`.
#[verifier::opaque]
pub open spec fn link_change(from: Option<Seq<char>>, to: Option<Seq<char>>) -> Seq<char> {
    if from == to {
        Seq::empty()
    } else {
        match to {
            Some(url) => osc8(url),
            None => osc8(Seq::empty()),
        }
    }
}

/// The escape sequences that move the terminal from state `from` to state `to`: one sequence
/// per attribute that differs, in the order foreground, background, bold and dim, italics,
/// underline, blink, reverse, conceal, strike, link.
pub open spec fn transition(from: AttrsView, to: AttrsView) -> Seq<char> {
    color_change(from.foreground, to.foreground, false) + color_change(
        from.background,
        to.background,
        true,
    ) + intensity_change(from.styles, to.styles) + flag_change(
        from.styles.italics,
        to.styles.italics,
        3,
        23,
    ) + flag_change(from.styles.underline, to.styles.underline, 4, 24) + flag_change(
        from.styles.blink,
        to.styles.blink,
        5,
        25,
    ) + flag_change(from.styles.reverse, to.styles.reverse, 7, 27) + flag_change(
        from.styles.conceal,
        to.styles.conceal,
        8,
        28,
    ) + flag_change(from.styles.strike, to.styles.strike, 9, 29) + link_change(from.link, to.link)
}

impl Attrs {
    /// The attributes that set nothing: the terminal's default state.
    pub fn none() -> (a: Attrs)
        ensures
            a@ == default_attrs(),
    {
        Attrs {
            foreground: None,
            background: None,
            styles: Styles {
                bold: false,
                dim: false,
                italics: false,
                underline: false,
                blink: false,
                reverse: false,
                conceal: false,
                strike: false,
            },
            link: None,
        }
    }

    /// A copy of these attributes.
    pub fn duplicate(&self) -> (a: Attrs)
        ensures
            a@ == self@,
    {
        let link = match &self.link {
            Some(l) => Some(l.clone()),
            None => None,
        };
        Attrs {
            foreground: self.foreground,
            background: self.background,
            styles: self.styles,
            link,
        }
    }

    /// Whether both attributes set the same things.
    pub fn same_as(&self, other: &Attrs) -> (same: bool)
        ensures
            same == (self@ == other@),
    {
        let links = match (&self.link, &other.link) {
            (Some(a), Some(b)) => *a == *b,
            (None, None) => true,
            _ => false,
        };
        same_color(self.foreground, other.foreground) && same_color(
            self.background,
            other.background,
        ) && self.styles == other.styles && links
    }
}

fn same_color(a: Option<Color>, b: Option<Color>) -> (same: bool)
    ensures
        same == (a == b),
{
    match (a, b) {
        (None, None) => true,
        (Some(x), Some(y)) => match (x, y) {
            (Color::Ansi(p), Color::Ansi(q)) => p == q,
            (Color::Palette(p), Color::Palette(q)) => p == q,
            (Color::Rgb(r1, g1, b1), Color::Rgb(r2, g2, b2)) => r1 == r2 && g1 == g2 && b1 == b2,
            _ => false,
        },
        _ => false,
    }
}

/// Both tags at once (see [`overlay`]).
pub fn overlay_attrs(base: &Attrs, top: &Attrs) -> (a: Attrs)
    ensures
        a@ == overlay(base@, top@),
{
    let link = match &top.link {
        Some(l) => Some(l.clone()),
        None => match &base.link {
            Some(l) => Some(l.clone()),
            None => None,
        },
    };
    Attrs {
        foreground: if top.foreground.is_some() {
            top.foreground
        } else {
            base.foreground
        },
        background: if top.background.is_some() {
            top.background
        } else {
            base.background
        },
        styles: Styles {
            bold: base.styles.bold || top.styles.bold,
            dim: base.styles.dim || top.styles.dim,
            italics: base.styles.italics || top.styles.italics,
            underline: base.styles.underline || top.styles.underline,
            blink: base.styles.blink || top.styles.blink,
            reverse: base.styles.reverse || top.styles.reverse,
            conceal: base.styles.conceal || top.styles.conceal,
            strike: base.styles.strike || top.styles.strike,
        },
        link,
    }
}

/// The state that the stack of open tags puts the terminal in.
pub fn stack_state(stack: &Vec<Attrs>) -> (a: Attrs)
    requires
        forall|i: int| 0 <= i < stack@.len() ==> attrs_wf(#[trigger] stack@[i]@),
    ensures
        a@ == state_of(views(stack@)),
        attrs_wf(a@),
{
    let mut acc = Attrs::none();
    let mut i: usize = 0;
    while i < stack.len()
        invariant
            i <= stack@.len(),
            forall|j: int| 0 <= j < stack@.len() ==> attrs_wf(#[trigger] stack@[j]@),
            acc@ == state_of(views(stack@).take(i as int)),
            attrs_wf(acc@),
        decreases stack@.len() - i,
    {
        acc = overlay_attrs(&acc, &stack[i]);
        proof {
            let t = views(stack@).take(i + 1);
            assert(t.drop_last() =~= views(stack@).take(i as int));
            assert(t.last() == stack@[i as int]@);
        }
        i = i + 1;
    }
    assert(views(stack@).take(stack@.len() as int) =~= views(stack@));
    acc
}

fn color_code(c: Color, background: bool) -> (code: String)
    requires
        color_wf(c),
    ensures
        code@ == sgr(color_params(c, background)),
{
    let params: Vec<u8> = match c {
        Color::Ansi(n) => if n < 8 {
            vec![(if background { 40u8 } else { 30u8 }) + n]
        } else {
            vec![(if background { 100u8 } else { 90u8 }) + n - 8]
        },
        Color::Palette(n) => vec![if background { 48u8 } else { 38u8 }, 5u8, n],
        Color::Rgb(r, g, b) => vec![if background { 48u8 } else { 38u8 }, 2u8, r, g, b],
    };
    assert(params@ =~= color_params(c, background));
    generate_ansi_code(params.as_slice())
}

fn push_code(out: &mut String, code: u8)
    ensures
        final(out)@ == old(out)@ + sgr(seq![code]),
{
    let params: Vec<u8> = vec![code];
    assert(params@ =~= seq![code]);
    let s = generate_ansi_code(params.as_slice());
    out.push_str(&s);
}

fn push_color_change(out: &mut String, from: Option<Color>, to: Option<Color>, background: bool)
    requires
        option_color_wf(to),
    ensures
        final(out)@ == old(out)@ + color_change(from, to, background),
{
    reveal(color_change);
    if same_color(from, to) {
        assert(old(out)@ + Seq::<char>::empty() =~= old(out)@);
    } else {
        match to {
            Some(c) => {
                let s = color_code(c, background);
                out.push_str(&s);
            },
            None => {
                push_code(out, if background { 49u8 } else { 39u8 });
            },
        }
    }
}

fn push_flag_change(out: &mut String, from: bool, to: bool, on: u8, off: u8)
    ensures
        final(out)@ == old(out)@ + flag_change(from, to, on, off),
{
    reveal(flag_change);
    if from == to {
        assert(old(out)@ + Seq::<char>::empty() =~= old(out)@);
    } else if to {
        push_code(out, on);
    } else {
        push_code(out, off);
    }
}

fn push_intensity_change(out: &mut String, from: Styles, to: Styles)
    ensures
        final(out)@ == old(out)@ + intensity_change(from, to),
{
    reveal(intensity_change);
    let ghost start = out@;
    if (from.bold && !to.bold) || (from.dim && !to.dim) {
        push_code(out, 22);
        if to.bold {
            push_code(out, 1);
        }
        if to.dim {
            push_code(out, 2);
        }
    } else {
        if !from.bold && to.bold {
            push_code(out, 1);
        }
        if !from.dim && to.dim {
            push_code(out, 2);
        }
    }
    assert(out@ =~= start + intensity_change(from, to));
}

fn push_link_change(out: &mut String, from: &Option<String>, to: &Option<String>)
    ensures
        final(out)@ == old(out)@ + link_change(
            match from {
                Some(l) => Some(l@),
                None => None,
            },
            match to {
                Some(l) => Some(l@),
                None => None,
            },
        ),
{
    reveal(link_change);
    let same = match (from, to) {
        (Some(a), Some(b)) => *a == *b,
        (None, None) => true,
        _ => false,
    };
    if same {
        assert(old(out)@ + Seq::<char>::empty() =~= old(out)@);
    } else {
        match to {
            Some(url) => {
                let s = generate_osc8_link(url.as_str());
                out.push_str(&s);
            },
            None => {
                let s = generate_osc8_link("");
                proof {
                    reveal_strlit("");
                }
                assert(""@ =~= Seq::<char>::empty());
                out.push_str(&s);
            },
        }
    }
}

/// Appends the escape sequences that move the terminal from `from` to `to`.
pub fn push_transition(out: &mut String, from: &Attrs, to: &Attrs)
    requires
        attrs_wf(to@),
    ensures
        final(out)@ == old(out)@ + transition(from@, to@),
{
    let ghost start = out@;
    push_color_change(out, from.foreground, to.foreground, false);
    let ghost o1 = out@;
    push_color_change(out, from.background, to.background, true);
    let ghost o2 = out@;
    push_intensity_change(out, from.styles, to.styles);
    let ghost o3 = out@;
    push_flag_change(out, from.styles.italics, to.styles.italics, 3, 23);
    let ghost o4 = out@;
    push_flag_change(out, from.styles.underline, to.styles.underline, 4, 24);
    let ghost o5 = out@;
    push_flag_change(out, from.styles.blink, to.styles.blink, 5, 25);
    let ghost o6 = out@;
    push_flag_change(out, from.styles.reverse, to.styles.reverse, 7, 27);
    let ghost o7 = out@;
    push_flag_change(out, from.styles.conceal, to.styles.conceal, 8, 28);
    let ghost o8 = out@;
    push_flag_change(out, from.styles.strike, to.styles.strike, 9, 29);
    let ghost o9 = out@;
    push_link_change(out, &from.link, &to.link);
    proof {
        lemma_transition_parts(start, o1, o2, o3, o4, o5, o6, o7, o8, o9, out@, from@, to@);
    }
}

proof fn lemma_transition_parts(
    start: Seq<char>,
    o1: Seq<char>,
    o2: Seq<char>,
    o3: Seq<char>,
    o4: Seq<char>,
    o5: Seq<char>,
    o6: Seq<char>,
    o7: Seq<char>,
    o8: Seq<char>,
    o9: Seq<char>,
    o10: Seq<char>,
    f: AttrsView,
    t: AttrsView,
)
    requires
        o1 == start + color_change(f.foreground, t.foreground, false),
        o2 == o1 + color_change(f.background, t.background, true),
        o3 == o2 + intensity_change(f.styles, t.styles),
        o4 == o3 + flag_change(f.styles.italics, t.styles.italics, 3, 23),
        o5 == o4 + flag_change(f.styles.underline, t.styles.underline, 4, 24),
        o6 == o5 + flag_change(f.styles.blink, t.styles.blink, 5, 25),
        o7 == o6 + flag_change(f.styles.reverse, t.styles.reverse, 7, 27),
        o8 == o7 + flag_change(f.styles.conceal, t.styles.conceal, 8, 28),
        o9 == o8 + flag_change(f.styles.strike, t.styles.strike, 9, 29),
        o10 == o9 + link_change(f.link, t.link),
    ensures
        o10 == start + transition(f, t),
{
    assert(o10 =~= start + transition(f, t));
}

} // verus!
