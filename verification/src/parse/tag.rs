//! The entries of a tag: styles (`bold`), colors (`red`, `bg:blue`, `#a0b0c0`, `rgb(1,2,3)`,
//! `palette(42)`), and links (`link(URL)`).

use vstd::prelude::*;
use crate::color_context::{Color, Styles, Attrs, AttrsView, attrs_wf, default_attrs};
use crate::text::{has_prefix, index_of, equals_str, starts_with_str, copy_range, find_char, push_range};

verus! {

pub open spec fn is_space(c: char) -> bool {
    c == ' ' || c == '\t'
}

/// The first index from `a` to `b` that does not hold a space, or `b`.
pub open spec fn skip_spaces(t: Seq<char>, a: int, b: int) -> int
    decreases b - a,
{
    if a >= b {
        b
    } else if is_space(t[a]) {
        skip_spaces(t, a + 1, b)
    } else {
        a
    }
}

/// The end of the range from `a` to `b` once its trailing spaces are dropped.
pub open spec fn drop_spaces(t: Seq<char>, a: int, b: int) -> int
    decreases b - a,
{
    if b <= a {
        a
    } else if is_space(t[b - 1]) {
        drop_spaces(t, a, b - 1)
    } else {
        b
    }
}

/// `t` without its leading and trailing spaces.
pub open spec fn trimmed(t: Seq<char>) -> Seq<char> {
    let a = skip_spaces(t, 0, t.len() as int);
    t.subrange(a, drop_spaces(t, a, t.len() as int))
}

pub open spec fn is_digit(c: char) -> bool {
    '0' <= c <= '9'
}

pub open spec fn all_digits(u: Seq<char>) -> bool {
    forall|i: int| 0 <= i < u.len() ==> is_digit(#[trigger] u[i])
}

/// The value of the decimal digits `u`.
pub open spec fn digits_value(u: Seq<char>) -> int
    decreases u.len(),
{
    if u.len() == 0 {
        0
    } else {
        digits_value(u.drop_last()) * 10 + (u.last() as int - 48)
    }
}

/// A decimal number from 0 to 255, spaces around it allowed.
pub open spec fn small_number(u: Seq<char>) -> Option<u8> {
    let v = trimmed(u);
    if v.len() > 0 && all_digits(v) && digits_value(v) <= 255 {
        Some(digits_value(v) as u8)
    } else {
        None
    }
}

/// The value of a hexadecimal digit.
pub open spec fn hex_value(c: char) -> Option<u8> {
    if '0' <= c <= '9' {
        Some((c as u32 - 48) as u8)
    } else if 'a' <= c <= 'f' {
        Some((c as u32 - 87) as u8)
    } else if 'A' <= c <= 'F' {
        Some((c as u32 - 55) as u8)
    } else {
        None
    }
}

/// The byte written by the two hexadecimal digits of `t` at `i` and `i + 1`.
pub open spec fn hex_byte(t: Seq<char>, i: int) -> Option<u8> {
    match (hex_value(t[i]), hex_value(t[i + 1])) {
        (Some(h), Some(l)) => Some((h * 16 + l) as u8),
        _ => None,
    }
}

/// `#RRGGBB`.
pub open spec fn hex_color(t: Seq<char>) -> Option<Color> {
    if t.len() == 7 && t[0] == '#' {
        match (hex_byte(t, 1), hex_byte(t, 3), hex_byte(t, 5)) {
            (Some(r), Some(g), Some(b)) => Some(Color::Rgb(r, g, b)),
            _ => None,
        }
    } else {
        None
    }
}

/// The index of a basic color from its long name.
pub open spec fn long_name_index(t: Seq<char>) -> Option<u8> {
    if t == "black"@ {
        Some(0u8)
    } else if t == "red"@ {
        Some(1u8)
    } else if t == "green"@ {
        Some(2u8)
    } else if t == "yellow"@ {
        Some(3u8)
    } else if t == "blue"@ {
        Some(4u8)
    } else if t == "magenta"@ {
        Some(5u8)
    } else if t == "cyan"@ {
        Some(6u8)
    } else if t == "white"@ {
        Some(7u8)
    } else {
        None
    }
}

/// The index of a basic color from its one-letter shortcut (`k` for black).
pub open spec fn shortcut_index(t: Seq<char>) -> Option<u8> {
    if t == "k"@ {
        Some(0u8)
    } else if t == "r"@ {
        Some(1u8)
    } else if t == "g"@ {
        Some(2u8)
    } else if t == "y"@ {
        Some(3u8)
    } else if t == "b"@ {
        Some(4u8)
    } else if t == "m"@ {
        Some(5u8)
    } else if t == "c"@ {
        Some(6u8)
    } else if t == "w"@ {
        Some(7u8)
    } else {
        None
    }
}

pub open spec fn base_index(t: Seq<char>) -> Option<u8> {
    if long_name_index(t) is Some {
        long_name_index(t)
    } else {
        shortcut_index(t)
    }
}

/// The argument of `name(argument)`, where `prefix` is `name(`.
pub open spec fn call_arg(t: Seq<char>, prefix: Seq<char>) -> Option<Seq<char>> {
    if t.len() > prefix.len() && has_prefix(t, prefix) && t.last() == ')' {
        Some(t.subrange(prefix.len() as int, t.len() - 1))
    } else {
        None
    }
}

/// The argument of `palette(..)`, `pal(..)` or `p(..)`.
pub open spec fn palette_arg(t: Seq<char>) -> Option<Seq<char>> {
    if call_arg(t, "palette("@) is Some {
        call_arg(t, "palette("@)
    } else if call_arg(t, "pal("@) is Some {
        call_arg(t, "pal("@)
    } else {
        call_arg(t, "p("@)
    }
}

/// Three numbers from 0 to 255 separated by commas.
pub open spec fn rgb_triple(u: Seq<char>) -> Option<(u8, u8, u8)> {
    let c1 = index_of(u, ',', 0, u.len() as int);
    let c2 = index_of(u, ',', c1 + 1, u.len() as int);
    if c2 < u.len() {
        match (
            small_number(u.subrange(0, c1)),
            small_number(u.subrange(c1 + 1, c2)),
            small_number(u.subrange(c2 + 1, u.len() as int)),
        ) {
            (Some(r), Some(g), Some(b)) => Some((r, g, b)),
            _ => None,
        }
    } else {
        None
    }
}

/// A foreground color in any of its spellings: `red`, `r`, `red!`, `r!`, `bright-red`,
/// `palette(n)`, `pal(n)`, `p(n)`, `n`, `rgb(r,g,b)`, `#rrggbb`.
pub open spec fn fg_color(t: Seq<char>) -> Option<Color> {
    if base_index(t) is Some {
        Some(Color::Ansi(base_index(t)->0))
    } else if t.len() > 0 && t.last() == '!' && base_index(t.drop_last()) is Some {
        Some(Color::Ansi((base_index(t.drop_last())->0 + 8) as u8))
    } else if has_prefix(t, "bright-"@) && long_name_index(t.skip("bright-"@.len() as int)) is Some {
        Some(Color::Ansi((long_name_index(t.skip("bright-"@.len() as int))->0 + 8) as u8))
    } else if palette_arg(t) is Some && small_number(palette_arg(t)->0) is Some {
        Some(Color::Palette(small_number(palette_arg(t)->0)->0))
    } else if small_number(t) is Some {
        Some(Color::Palette(small_number(t)->0))
    } else if call_arg(t, "rgb("@) is Some && rgb_triple(call_arg(t, "rgb("@)->0) is Some {
        let (r, g, b) = rgb_triple(call_arg(t, "rgb("@)->0)->0;
        Some(Color::Rgb(r, g, b))
    } else {
        hex_color(t)
    }
}

pub open spec fn is_upper(c: char) -> bool {
    'A' <= c <= 'Z'
}

pub open spec fn is_lower(c: char) -> bool {
    'a' <= c <= 'z'
}

pub open spec fn to_lower(c: char) -> char {
    if is_upper(c) {
        (c as u32 + 32) as char
    } else {
        c
    }
}

/// `t` is written in capitals: no lowercase letter, at least one uppercase letter.
pub open spec fn upper_form(t: Seq<char>) -> bool {
    &&& forall|i: int| 0 <= i < t.len() ==> !is_lower(#[trigger] t[i])
    &&& exists|i: int| 0 <= i < t.len() && is_upper(#[trigger] t[i])
}

pub open spec fn lowered(t: Seq<char>) -> Seq<char> {
    t.map_values(|c: char| to_lower(c))
}

/// A color entry: `(true, c)` sets the background, `(false, c)` the foreground. A background is
/// a foreground spelling after `bg:`, or a foreground spelling written in capitals.
pub open spec fn color_item(t: Seq<char>) -> Option<(bool, Color)> {
    if fg_color(t) is Some {
        Some((false, fg_color(t)->0))
    } else if has_prefix(t, "bg:"@) && fg_color(t.skip("bg:"@.len() as int)) is Some {
        Some((true, fg_color(t.skip("bg:"@.len() as int))->0))
    } else if upper_form(t) && fg_color(lowered(t)) is Some {
        Some((true, fg_color(lowered(t))->0))
    } else {
        None
    }
}

/// Which style a style entry names: 0 bold, 1 dim, 2 italics, 3 underline, 4 blink, 5 reverse,
/// 6 conceal, 7 strike.
pub open spec fn style_index(t: Seq<char>) -> Option<u8> {
    if t == "strong"@ || t == "s"@ || t == "em"@ || t == "bold"@ {
        Some(0u8)
    } else if t == "dim"@ {
        Some(1u8)
    } else if t == "italics"@ || t == "i"@ || t == "italic"@ {
        Some(2u8)
    } else if t == "underline"@ || t == "u"@ {
        Some(3u8)
    } else if t == "blink"@ {
        Some(4u8)
    } else if t == "reverse"@ || t == "rev"@ {
        Some(5u8)
    } else if t == "conceal"@ || t == "hide"@ {
        Some(6u8)
    } else if t == "strike"@ {
        Some(7u8)
    } else {
        None
    }
}

/// The styles where only style number `k` is on.
pub open spec fn styles_with(k: u8) -> Styles {
    Styles {
        bold: k == 0,
        dim: k == 1,
        italics: k == 2,
        underline: k == 3,
        blink: k == 4,
        reverse: k == 5,
        conceal: k == 6,
        strike: k == 7,
    }
}

/// The URL of a `link(URL)` entry, spaces around it dropped; it may not be empty.
pub open spec fn link_item(t: Seq<char>) -> Option<Seq<char>> {
    match call_arg(t, "link("@) {
        Some(u) => if trimmed(u).len() > 0 {
            Some(trimmed(u))
        } else {
            None
        },
        None => None,
    }
}

/// What a tag entry sets, or `None` if it is no known entry.
pub open spec fn item_attrs(t: Seq<char>) -> Option<AttrsView> {
    let d = default_attrs();
    if style_index(t) is Some {
        Some(AttrsView { styles: styles_with(style_index(t)->0), ..d })
    } else if link_item(t) is Some {
        Some(AttrsView { link: link_item(t), ..d })
    } else if color_item(t) is Some {
        let (background, c) = color_item(t)->0;
        if background {
            Some(AttrsView { background: Some(c), ..d })
        } else {
            Some(AttrsView { foreground: Some(c), ..d })
        }
    } else {
        None
    }
}

pub proof fn lemma_skip_spaces(t: Seq<char>, a: int, b: int)
    requires
        0 <= a <= b <= t.len(),
    ensures
        a <= skip_spaces(t, a, b) <= b,
        forall|j: int| a <= j < skip_spaces(t, a, b) ==> is_space(#[trigger] t[j]),
        skip_spaces(t, a, b) < b ==> !is_space(t[skip_spaces(t, a, b)]),
    decreases b - a,
{
    if a < b && is_space(t[a]) {
        lemma_skip_spaces(t, a + 1, b);
    }
}

pub proof fn lemma_drop_spaces(t: Seq<char>, a: int, b: int)
    requires
        0 <= a <= b <= t.len(),
    ensures
        a <= drop_spaces(t, a, b) <= b,
        forall|j: int| drop_spaces(t, a, b) <= j < b ==> is_space(#[trigger] t[j]),
        drop_spaces(t, a, b) > a ==> !is_space(t[drop_spaces(t, a, b) - 1]),
    decreases b - a,
{
    if a < b && is_space(t[b - 1]) {
        lemma_drop_spaces(t, a, b - 1);
    }
}

/// The bounds of the range from `a` to `b` of `t` once its spaces around are dropped.
pub fn trim_range(t: &Vec<char>, a: usize, b: usize) -> (r: (usize, usize))
    requires
        a <= b <= t@.len(),
    ensures
        r.0 == skip_spaces(t@, a as int, b as int),
        r.1 == drop_spaces(t@, r.0 as int, b as int),
        a <= r.0 <= r.1 <= b,
{
    let mut i = a;
    while i < b && (t[i] == ' ' || t[i] == '\t')
        invariant
            a <= i <= b <= t@.len(),
            skip_spaces(t@, a as int, b as int) == skip_spaces(t@, i as int, b as int),
        decreases b - i,
    {
        i = i + 1;
    }
    let mut j = b;
    while j > i && (t[j - 1] == ' ' || t[j - 1] == '\t')
        invariant
            a <= i <= j <= b <= t@.len(),
            drop_spaces(t@, i as int, b as int) == drop_spaces(t@, i as int, j as int),
        decreases j - i,
    {
        j = j - 1;
    }
    (i, j)
}

proof fn lemma_digits_value_nonneg(u: Seq<char>)
    requires
        all_digits(u),
    ensures
        digits_value(u) >= 0,
    decreases u.len(),
{
    if u.len() > 0 {
        assert(all_digits(u.drop_last())) by {
            assert forall|i: int| 0 <= i < u.drop_last().len() implies is_digit(
                #[trigger] u.drop_last()[i],
            ) by {
                assert(is_digit(u[i]));
            }
        }
        lemma_digits_value_nonneg(u.drop_last());
        assert(is_digit(u[u.len() - 1]));
    }
}

/// The value of the first `k` digits is at most the value of all of them.
proof fn lemma_digits_value_prefix(u: Seq<char>, k: int)
    requires
        all_digits(u),
        0 <= k <= u.len(),
    ensures
        digits_value(u.take(k)) <= digits_value(u),
    decreases u.len(),
{
    if k == u.len() {
        assert(u.take(k) =~= u);
    } else {
        let d = u.drop_last();
        assert(all_digits(d)) by {
            assert forall|i: int| 0 <= i < d.len() implies is_digit(#[trigger] d[i]) by {
                assert(is_digit(u[i]));
            }
        }
        lemma_digits_value_prefix(d, k);
        assert(d.take(k) =~= u.take(k));
        lemma_digits_value_nonneg(d);
        assert(is_digit(u[u.len() - 1]));
    }
}

/// A decimal number from 0 to 255, spaces around it allowed.
pub fn parse_small_number(u: &Vec<char>) -> (n: Option<u8>)
    ensures
        n == small_number(u@),
{
    let (a, b) = trim_range(u, 0, u.len());
    let ghost v = u@.subrange(a as int, b as int);
    assert(v == trimmed(u@));
    if a == b {
        return None;
    }
    let mut val: u32 = 0;
    let mut k = a;
    while k < b
        invariant
            a <= k <= b <= u@.len(),
            v == u@.subrange(a as int, b as int),
            v == trimmed(u@),
            v.len() > 0,
            val <= 255,
            val == digits_value(v.take(k - a)),
            forall|i: int| 0 <= i < k - a ==> is_digit(#[trigger] v[i]),
        decreases b - k,
    {
        let c = u[k];
        if !('0' <= c && c <= '9') {
            assert(!is_digit(v[k - a]));
            return None;
        }
        let d = (c as u32) - 48;
        proof {
            assert(v.take(k - a + 1).drop_last() =~= v.take(k - a));
            assert(v.take(k - a + 1).last() == c);
        }
        if val * 10 + d > 255 {
            proof {
                if all_digits(v) {
                    lemma_digits_value_prefix(v, k - a + 1);
                }
            }
            return None;
        }
        val = val * 10 + d;
        k = k + 1;
    }
    assert(v.take(b - a) =~= v);
    Some(val as u8)
}

fn hex_digit(c: char) -> (h: Option<u8>)
    ensures
        h == hex_value(c),
{
    if '0' <= c && c <= '9' {
        Some(((c as u32) - 48) as u8)
    } else if 'a' <= c && c <= 'f' {
        Some(((c as u32) - 87) as u8)
    } else if 'A' <= c && c <= 'F' {
        Some(((c as u32) - 55) as u8)
    } else {
        None
    }
}

fn parse_hex_byte(t: &Vec<char>, i: usize) -> (b: Option<u8>)
    requires
        i + 1 < t.len(),
    ensures
        b == hex_byte(t@, i as int),
{
    match (hex_digit(t[i]), hex_digit(t[i + 1])) {
        (Some(h), Some(l)) => Some(h * 16 + l),
        _ => None,
    }
}

/// `#RRGGBB`.
pub fn parse_hex_color(t: &Vec<char>) -> (c: Option<Color>)
    ensures
        c == hex_color(t@),
{
    if t.len() == 7 && t[0] == '#' {
        match (parse_hex_byte(t, 1), parse_hex_byte(t, 3), parse_hex_byte(t, 5)) {
            (Some(r), Some(g), Some(b)) => Some(Color::Rgb(r, g, b)),
            _ => None,
        }
    } else {
        None
    }
}

fn parse_long_name(t: &Vec<char>) -> (n: Option<u8>)
    ensures
        n == long_name_index(t@),
{
    if equals_str(t, "black") {
        Some(0)
    } else if equals_str(t, "red") {
        Some(1)
    } else if equals_str(t, "green") {
        Some(2)
    } else if equals_str(t, "yellow") {
        Some(3)
    } else if equals_str(t, "blue") {
        Some(4)
    } else if equals_str(t, "magenta") {
        Some(5)
    } else if equals_str(t, "cyan") {
        Some(6)
    } else if equals_str(t, "white") {
        Some(7)
    } else {
        None
    }
}

fn parse_shortcut(t: &Vec<char>) -> (n: Option<u8>)
    ensures
        n == shortcut_index(t@),
{
    if equals_str(t, "k") {
        Some(0)
    } else if equals_str(t, "r") {
        Some(1)
    } else if equals_str(t, "g") {
        Some(2)
    } else if equals_str(t, "y") {
        Some(3)
    } else if equals_str(t, "b") {
        Some(4)
    } else if equals_str(t, "m") {
        Some(5)
    } else if equals_str(t, "c") {
        Some(6)
    } else if equals_str(t, "w") {
        Some(7)
    } else {
        None
    }
}

fn parse_base(t: &Vec<char>) -> (n: Option<u8>)
    ensures
        n == base_index(t@),
        n matches Some(k) ==> k < 8,
{
    match parse_long_name(t) {
        Some(k) => Some(k),
        None => parse_shortcut(t),
    }
}

/// The argument of `name(argument)`, where `prefix` is `name(`.
pub fn parse_call_arg(t: &Vec<char>, prefix: &str) -> (arg: Option<Vec<char>>)
    ensures
        match arg {
            Some(v) => call_arg(t@, prefix@) == Some(v@),
            None => call_arg(t@, prefix@) is None,
        },
{
    let p = crate::text::chars_of(prefix);
    if t.len() > p.len() && starts_with_str(t, prefix) && t[t.len() - 1] == ')' {
        Some(copy_range(t, p.len(), t.len() - 1))
    } else {
        None
    }
}

fn parse_palette_arg(t: &Vec<char>) -> (arg: Option<Vec<char>>)
    ensures
        match arg {
            Some(v) => palette_arg(t@) == Some(v@),
            None => palette_arg(t@) is None,
        },
{
    match parse_call_arg(t, "palette(") {
        Some(v) => Some(v),
        None => match parse_call_arg(t, "pal(") {
            Some(v) => Some(v),
            None => parse_call_arg(t, "p("),
        },
    }
}

/// Three numbers from 0 to 255 separated by commas.
pub fn parse_rgb_triple(u: &Vec<char>) -> (rgb: Option<(u8, u8, u8)>)
    ensures
        rgb == rgb_triple(u@),
{
    let n = u.len();
    let c1 = find_char(u, ',', 0, n);
    if c1 >= n {
        return None;
    }
    let c2 = find_char(u, ',', c1 + 1, n);
    if c2 >= n {
        return None;
    }
    let r = parse_small_number(&copy_range(u, 0, c1));
    let g = parse_small_number(&copy_range(u, c1 + 1, c2));
    let b = parse_small_number(&copy_range(u, c2 + 1, n));
    match (r, g, b) {
        (Some(r), Some(g), Some(b)) => Some((r, g, b)),
        _ => None,
    }
}

/// A foreground color in any of its spellings (see [`fg_color`]).
pub fn parse_fg_color(t: &Vec<char>) -> (c: Option<Color>)
    ensures
        c == fg_color(t@),
        c matches Some(Color::Ansi(k)) ==> k < 16,
{
    if let Some(k) = parse_base(t) {
        return Some(Color::Ansi(k));
    }
    if t.len() > 0 && t[t.len() - 1] == '!' {
        let head = copy_range(t, 0, t.len() - 1);
        assert(head@ =~= t@.drop_last());
        if let Some(k) = parse_base(&head) {
            return Some(Color::Ansi(k + 8));
        }
    }
    if starts_with_str(t, "bright-") {
        let p = crate::text::chars_of("bright-");
        let rest = copy_range(t, p.len(), t.len());
        assert(rest@ =~= t@.skip("bright-"@.len() as int));
        if let Some(k) = parse_long_name(&rest) {
            return Some(Color::Ansi(k + 8));
        }
    }
    if let Some(arg) = parse_palette_arg(t) {
        if let Some(k) = parse_small_number(&arg) {
            return Some(Color::Palette(k));
        }
    }
    if let Some(k) = parse_small_number(t) {
        return Some(Color::Palette(k));
    }
    if let Some(arg) = parse_call_arg(t, "rgb(") {
        if let Some((r, g, b)) = parse_rgb_triple(&arg) {
            return Some(Color::Rgb(r, g, b));
        }
    }
    parse_hex_color(t)
}

fn lower_char(c: char) -> (l: char)
    ensures
        l == to_lower(c),
{
    if 'A' <= c && c <= 'Z' {
        let b = c as u8;
        assert(b as u32 == c as u32);
        (b + 32) as char
    } else {
        c
    }
}

/// Whether `t` is written in capitals, and `t` in lowercase.
fn upper_and_lowered(t: &Vec<char>) -> (r: (bool, Vec<char>))
    ensures
        r.0 == upper_form(t@),
        r.1@ == lowered(t@),
{
    let mut no_lower = true;
    let mut some_upper = false;
    let mut low: Vec<char> = Vec::new();
    let mut i: usize = 0;
    while i < t.len()
        invariant
            i <= t@.len(),
            low@ == t@.take(i as int).map_values(|c: char| to_lower(c)),
            no_lower == (forall|j: int| 0 <= j < i ==> !is_lower(#[trigger] t@[j])),
            some_upper == (exists|j: int| 0 <= j < i && is_upper(#[trigger] t@[j])),
        decreases t@.len() - i,
    {
        let c = t[i];
        if 'a' <= c && c <= 'z' {
            no_lower = false;
        }
        if 'A' <= c && c <= 'Z' {
            some_upper = true;
        }
        low.push(lower_char(c));
        i = i + 1;
        assert(low@ =~= t@.take(i as int).map_values(|c: char| to_lower(c)));
    }
    assert(t@.take(t@.len() as int) =~= t@);
    (no_lower && some_upper, low)
}

/// A color entry (see [`color_item`]).
pub fn parse_color_item(t: &Vec<char>) -> (c: Option<(bool, Color)>)
    ensures
        c == color_item(t@),
        c matches Some((_, Color::Ansi(k))) ==> k < 16,
{
    if let Some(c) = parse_fg_color(t) {
        return Some((false, c));
    }
    if starts_with_str(t, "bg:") {
        let p = crate::text::chars_of("bg:");
        let rest = copy_range(t, p.len(), t.len());
        assert(rest@ =~= t@.skip("bg:"@.len() as int));
        if let Some(c) = parse_fg_color(&rest) {
            return Some((true, c));
        }
    }
    let (upper, low) = upper_and_lowered(t);
    if upper {
        if let Some(c) = parse_fg_color(&low) {
            return Some((true, c));
        }
    }
    None
}

fn parse_style_index(t: &Vec<char>) -> (k: Option<u8>)
    ensures
        k == style_index(t@),
{
    if equals_str(t, "strong") || equals_str(t, "s") || equals_str(t, "em") || equals_str(t, "bold") {
        Some(0)
    } else if equals_str(t, "dim") {
        Some(1)
    } else if equals_str(t, "italics") || equals_str(t, "i") || equals_str(t, "italic") {
        Some(2)
    } else if equals_str(t, "underline") || equals_str(t, "u") {
        Some(3)
    } else if equals_str(t, "blink") {
        Some(4)
    } else if equals_str(t, "reverse") || equals_str(t, "rev") {
        Some(5)
    } else if equals_str(t, "conceal") || equals_str(t, "hide") {
        Some(6)
    } else if equals_str(t, "strike") {
        Some(7)
    } else {
        None
    }
}

/// The URL of a `link(URL)` entry (see [`link_item`]).
fn parse_link_item(t: &Vec<char>) -> (url: Option<String>)
    ensures
        match url {
            Some(u) => link_item(t@) == Some(u@),
            None => link_item(t@) is None,
        },
{
    match parse_call_arg(t, "link(") {
        Some(u) => {
            let (a, b) = trim_range(&u, 0, u.len());
            if a < b {
                let mut s = String::new();
                push_range(&mut s, &u, a, b);
                assert(s@ =~= trimmed(u@));
                Some(s)
            } else {
                None
            }
        },
        None => None,
    }
}

/// What a tag entry sets (see [`item_attrs`]).
pub fn parse_item_attrs(t: &Vec<char>) -> (a: Option<Attrs>)
    ensures
        match a {
            Some(a) => item_attrs(t@) == Some(a@) && attrs_wf(a@),
            None => item_attrs(t@) is None,
        },
{
    let mut a = Attrs::none();
    if let Some(k) = parse_style_index(t) {
        a.styles = Styles {
            bold: k == 0,
            dim: k == 1,
            italics: k == 2,
            underline: k == 3,
            blink: k == 4,
            reverse: k == 5,
            conceal: k == 6,
            strike: k == 7,
        };
        return Some(a);
    }
    if let Some(url) = parse_link_item(t) {
        a.link = Some(url);
        return Some(a);
    }
    match parse_color_item(t) {
        Some((background, c)) => {
            if background {
                a.background = Some(c);
            } else {
                a.foreground = Some(c);
            }
            Some(a)
        },
        None => None,
    }
}

} // verus!
