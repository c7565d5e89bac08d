//! ANSI constants, and the two escape sequences that the library writes: SGR ("select graphic
//! rendition") codes and OSC 8 hyperlinks.

use vstd::prelude::*;

verus! {

pub const BOLD: u8 = 1;
pub const DIM: u8 = 2;
pub const ITALIC: u8 = 3;
pub const UNDERLINE: u8 = 4;
pub const BLINK: u8 = 5;
pub const REVERSE: u8 = 7;
pub const CONCEAL: u8 = 8;
pub const STRIKE: u8 = 9;
pub const NO_BOLD: u8 = 22;
pub const NO_ITALIC: u8 = 23;
pub const NO_UNDERLINE: u8 = 24;
pub const NO_BLINK: u8 = 25;
pub const NO_REVERSE: u8 = 27;
pub const NO_CONCEAL: u8 = 28;
pub const NO_STRIKE: u8 = 29;
pub const SET_FOREGROUND_BASE: u8 = 30;
pub const SET_FOREGROUND: u8 = 38;
pub const DEFAULT_FOREGROUND: u8 = 39;
pub const SET_BACKGROUND_BASE: u8 = 40;
pub const SET_BACKGROUND: u8 = 48;
pub const DEFAULT_BACKGROUND: u8 = 49;
pub const SET_BRIGHT_FOREGROUND_BASE: u8 = 90;
pub const SET_BRIGHT_BACKGROUND_BASE: u8 = 100;

/// The escape character that starts every ANSI sequence.
pub open spec fn esc() -> char {
    '\u{1b}'
}

/// The decimal digit character of `d` (which is below 10).
pub open spec fn digit_char(d: nat) -> char {
    (48 + d) as char
}

/// The decimal representation of `n`, without leading zeros.
pub open spec fn decimal(n: nat) -> Seq<char>
    decreases n,
{
    if n < 10 {
        seq![digit_char(n)]
    } else {
        decimal(n / 10).push(digit_char(n % 10))
    }
}

/// The decimal representations of `params`, separated by `;`.
pub open spec fn join_params(params: Seq<u8>) -> Seq<char>
    decreases params.len(),
{
    if params.len() == 0 {
        Seq::empty()
    } else if params.len() == 1 {
        decimal(params[0] as nat)
    } else {
        join_params(params.drop_last()) + seq![';'] + decimal(params.last() as nat)
    }
}

/// The SGR sequence with the given parameters: `ESC [ p1;p2;... m`.
pub open spec fn sgr(params: Seq<u8>) -> Seq<char> {
    seq![esc(), '['] + join_params(params) + seq!['m']
}

/// The OSC 8 sequence that opens a hyperlink to `url`, or closes the open one when `url` is
/// empty: `ESC ] 8 ; ; url ESC \`.
pub open spec fn osc8(url: Seq<char>) -> Seq<char> {
    seq![esc(), ']', '8', ';', ';'] + url + seq![esc(), '\\']
}

/// SGR and OSC 8 sequences are never empty.
pub proof fn lemma_sgr_nonempty()
    ensures
        forall|p: Seq<u8>| #[trigger] sgr(p).len() >= 3,
        forall|u: Seq<char>| #[trigger] osc8(u).len() >= 7,
{
}

fn digit(d: u8) -> (c: char)
    requires
        d < 10,
    ensures
        c == digit_char(d as nat),
{
    let code: u8 = 48 + d;
    code as char
}

/// Appends the decimal representation of `n` to `out`.
fn push_decimal(out: &mut String, n: u8)
    ensures
        final(out)@ == old(out)@ + decimal(n as nat),
{
    if n >= 100 {
        out.push(digit(n / 100));
    }
    if n >= 10 {
        out.push(digit((n / 10) % 10));
    }
    out.push(digit(n % 10));
    proof {
        let m = n as nat;
        if m >= 100 {
            assert(decimal(m / 100) == seq![digit_char(m / 100)]);
            assert(decimal(m / 10) == seq![digit_char(m / 100)].push(digit_char((m / 10) % 10)));
        } else if m >= 10 {
            assert(decimal(m / 10) == seq![digit_char(m / 10)]);
        }
    }
}

/// Generates an SGR ANSI sequence.
pub fn generate_ansi_code(params: &[u8]) -> (code: String)
    ensures
        code@ == sgr(params@),
{
    let mut out = String::new();
    out.push('\u{1b}');
    out.push('[');
    let mut i: usize = 0;
    while i < params.len()
        invariant
            i <= params@.len(),
            out@ == seq![esc(), '['] + join_params(params@.take(i as int)),
        decreases params@.len() - i,
    {
        if i > 0 {
            out.push(';');
        }
        push_decimal(&mut out, params[i]);
        proof {
            let t = params@.take(i + 1);
            assert(t.drop_last() =~= params@.take(i as int));
            assert(t.last() == params@[i as int]);
            if i == 0 {
                assert(join_params(params@.take(0)) =~= Seq::<char>::empty());
            }
        }
        i = i + 1;
        assert(out@ =~= seq![esc(), '['] + join_params(params@.take(i as int)));
    }
    out.push('m');
    assert(params@.take(params@.len() as int) =~= params@);
    assert(out@ =~= sgr(params@));
    out
}

/// Generates an OSC 8 hyperlink sequence. Passing an empty `url` closes the previously opened
/// link, as the OSC 8 convention specifies.
pub fn generate_osc8_link(url: &str) -> (link: String)
    ensures
        link@ == osc8(url@),
{
    let mut out = String::new();
    out.push('\u{1b}');
    out.push(']');
    out.push('8');
    out.push(';');
    out.push(';');
    out.push_str(url);
    out.push('\u{1b}');
    out.push('\\');
    assert(out@ =~= osc8(url@));
    out
}

} // verus!
