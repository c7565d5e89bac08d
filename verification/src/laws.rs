//! Properties of the library as a whole, proved over the specifications of its functions.

use vstd::prelude::*;
use crate::ansi::{colorize, render, render_from};
use crate::color_context::{
    AttrsView, transition, default_attrs, state_of, color_change, intensity_change, flag_change,
    link_change,
};
use crate::parse::{LexemeView, lex, lex_from, lex_step, lemma_lex_step_advances};
use crate::parse::types::ErrorKind;
use crate::parse::prefix::{agree, lemma_lex_prefix, lemma_lex_texts_inside, lexeme_wf_text};
use crate::text::index_of;
use crate::escapes::{esc_free, link_ok, strip_escapes, lemma_strip_transition, lemma_strip_text};
use crate::color_context::overlay;
use crate::parse::{parse_item, items_from, tag_lexeme, item_end, lemma_item_end};
use crate::parse::tag::{
    item_attrs, call_arg, skip_spaces, drop_spaces, lemma_skip_spaces, lemma_drop_spaces,
};
use crate::untagged::{strip_tags, texts_from};

verus! {

/// Escape sequences are written exactly where the style changes: moving from one state to
/// another writes nothing if and only if the two states are the same. So the output holds no
/// redundant ANSI codes.
pub proof fn law_no_change_no_code(a: AttrsView, b: AttrsView)
    ensures
        transition(a, b) == Seq::<char>::empty() <==> a == b,
{
    reveal(color_change);
    reveal(intensity_change);
    reveal(flag_change);
    reveal(link_change);
    crate::ansi_constants::lemma_sgr_nonempty();
    if a == b {
        assert(transition(a, b) =~= Seq::<char>::empty());
    } else {
        assert(transition(a, b).len() > 0);
    }
}

pub open spec fn all_text(l: Seq<LexemeView>) -> bool {
    forall|k: int| 0 <= k < l.len() ==> #[trigger] l[k] is Text
}

pub proof fn lemma_texts_shift(s: Seq<char>, x: LexemeView, rest: Seq<LexemeView>, k: int)
    requires
        0 <= k,
    ensures
        texts_from(s, seq![x] + rest, k + 1) == texts_from(s, rest, k),
    decreases rest.len() - k,
{
    let l = seq![x] + rest;
    if k < rest.len() {
        assert(l[k + 1] == rest[k]);
        lemma_texts_shift(s, x, rest, k + 1);
    }
}

/// Without `<` and `>`, every piece is text, and the pieces together are the string.
proof fn lemma_plain_lex(s: Seq<char>, i: int, raw: bool)
    requires
        0 <= i <= s.len(),
        forall|j: int| 0 <= j < s.len() ==> s[j] != '<' && s[j] != '>',
    ensures
        raw ==> lex_from(s, i, raw) is Ok,
        lex_from(s, i, raw) matches Ok(l) ==> all_text(l) && texts_from(s, l, 0) == s.subrange(
            i,
            s.len() as int,
        ),
    decreases s.len() - i,
{
    if i < s.len() {
        lemma_lex_step_advances(s, i, raw);
        match lex_step(s, i, raw) {
            Ok((x, next)) => {
                lemma_plain_lex(s, next, raw);
                match lex_from(s, next, raw) {
                    Ok(rest) => {
                        let l = seq![x] + rest;
                        assert(x == LexemeView::Text(i, next));
                        lemma_texts_shift(s, x, rest, 0);
                        assert(l[0] == x);
                        assert(all_text(l)) by {
                            assert forall|k: int| 0 <= k < l.len() implies #[trigger] l[k] is Text by {
                                if k > 0 {
                                    assert(l[k] == rest[k - 1]);
                                }
                            }
                        }
                        assert(s.subrange(i, next) + s.subrange(next, s.len() as int) =~= s.subrange(
                            i,
                            s.len() as int,
                        ));
                    },
                    Err(_) => {},
                }
            },
            Err(_) => {},
        }
    } else {
        assert(s.subrange(i, s.len() as int) =~= Seq::<char>::empty());
    }
}

/// Text alone is written as it is.
pub proof fn lemma_render_texts(s: Seq<char>, l: Seq<LexemeView>, k: int)
    requires
        all_text(l),
        0 <= k,
    ensures
        render_from(s, l, k, Seq::empty(), default_attrs()) == Ok::<Seq<char>, (int, ErrorKind)>(
            texts_from(s, l, k),
        ),
    decreases l.len() - k,
{
    law_no_change_no_code(default_attrs(), default_attrs());
    if k < l.len() {
        assert(l[k] is Text);
        lemma_render_texts(s, l, k + 1);
        assert(state_of(Seq::<AttrsView>::empty()) == default_attrs());
        match l[k] {
            LexemeView::Text(a, b) => {
                assert(Seq::<char>::empty() + s.subrange(a, b) + texts_from(s, l, k + 1)
                    =~= s.subrange(a, b) + texts_from(s, l, k + 1));
            },
            _ => {},
        }
    }
}

/// A string without `<` or `>` holds no tag: `cstr` and `untagged` give it back unchanged, and
/// so does `cformat` whenever its placeholders are closed.
pub proof fn law_plain_text_unchanged(s: Seq<char>)
    requires
        forall|j: int| 0 <= j < s.len() ==> s[j] != '<' && s[j] != '>',
    ensures
        colorize(s, true) == Ok::<Seq<char>, (int, ErrorKind)>(s),
        strip_tags(s) == Ok::<Seq<char>, (int, ErrorKind)>(s),
        colorize(s, false) is Ok ==> colorize(s, false) == Ok::<Seq<char>, (int, ErrorKind)>(s),
{
    assert(s.subrange(0, s.len() as int) =~= s);
    lemma_plain_lex(s, 0, true);
    lemma_plain_lex(s, 0, false);
    if let Ok(l) = lex(s, true) {
        lemma_render_texts(s, l, 0);
    }
    if let Ok(l) = lex(s, false) {
        lemma_render_texts(s, l, 0);
    }
}

/// Two sequences of pieces that agree from the `j`-th on are written the same from there.
proof fn lemma_render_agree(
    s: Seq<char>,
    l1: Seq<LexemeView>,
    l2: Seq<LexemeView>,
    j: int,
    stack: Seq<AttrsView>,
    emitted: AttrsView,
)
    requires
        l1.len() == l2.len(),
        0 <= j,
        forall|i: int| j <= i < l1.len() ==> l1[i] == l2[i],
    ensures
        render_from(s, l1, j, stack, emitted) == render_from(s, l2, j, stack, emitted),
    decreases l1.len() - j,
{
    if j < l1.len() {
        assert(l1[j] == l2[j]);
        match l1[j] {
            LexemeView::Text(_, _) => {
                lemma_render_agree(s, l1, l2, j + 1, stack, state_of(stack));
            },
            LexemeView::Open(t) => {
                lemma_render_agree(s, l1, l2, j + 1, stack.push(t), emitted);
            },
            LexemeView::Close(_, _) => {
                if stack.len() > 0 {
                    lemma_render_agree(s, l1, l2, j + 1, stack.drop_last(), emitted);
                }
            },
        }
    }
}

proof fn lemma_close_last(
    s: Seq<char>,
    l: Seq<LexemeView>,
    k: int,
    p: int,
    t: AttrsView,
    j: int,
    stack: Seq<AttrsView>,
    emitted: AttrsView,
)
    requires
        0 <= j <= k < l.len(),
        l[k] == LexemeView::Close(p, Some(t)),
        render_from(s, l, j, stack, emitted) is Ok,
    ensures
        render_from(s, l.update(k, LexemeView::Close(p, None)), j, stack, emitted) == render_from(
            s,
            l,
            j,
            stack,
            emitted,
        ),
    decreases k - j,
{
    let l2 = l.update(k, LexemeView::Close(p, None));
    if j == k {
        lemma_render_agree(s, l, l2, k + 1, stack.drop_last(), emitted);
    } else {
        assert(l2[j] == l[j]);
        match l[j] {
            LexemeView::Text(_, _) => {
                lemma_close_last(s, l, k, p, t, j + 1, stack, state_of(stack));
            },
            LexemeView::Open(o) => {
                lemma_close_last(s, l, k, p, t, j + 1, stack.push(o), emitted);
            },
            LexemeView::Close(_, _) => {
                lemma_close_last(s, l, k, p, t, j + 1, stack.drop_last(), emitted);
            },
        }
    }
}

/// `</>` closes the innermost open tag just as a closing tag that names it does: where a
/// closing tag is accepted, putting `</>` in its place changes nothing in the output.
pub proof fn law_anonymous_close(s: Seq<char>, l: Seq<LexemeView>, k: int, p: int, t: AttrsView)
    requires
        0 <= k < l.len(),
        l[k] == LexemeView::Close(p, Some(t)),
        render(s, l) is Ok,
    ensures
        render(s, l.update(k, LexemeView::Close(p, None))) == render(s, l),
{
    lemma_close_last(s, l, k, p, t, 0, Seq::empty(), default_attrs());
}

/// The tags still open after the pieces from the `k`-th on, when `stack` is open before them.
pub open spec fn stack_after(l: Seq<LexemeView>, k: int, stack: Seq<AttrsView>) -> Seq<AttrsView>
    decreases l.len() - k,
{
    if k >= l.len() {
        stack
    } else {
        match l[k] {
            LexemeView::Text(_, _) => stack_after(l, k + 1, stack),
            LexemeView::Open(t) => stack_after(l, k + 1, stack.push(t)),
            LexemeView::Close(_, _) => stack_after(l, k + 1, stack.drop_last()),
        }
    }
}

/// How many tags `s` leaves open at its end.
pub open spec fn open_tags(s: Seq<char>, raw: bool) -> nat {
    match lex(s, raw) {
        Ok(l) => stack_after(l, 0, Seq::empty()).len(),
        Err(_) => 0,
    }
}

/// The closing tag `</>`.
pub open spec fn close_last() -> Seq<char> {
    seq!['<', '/', '>']
}

proof fn lemma_render_close_at_end(
    s: Seq<char>,
    s2: Seq<char>,
    l: Seq<LexemeView>,
    k: int,
    stack: Seq<AttrsView>,
    emitted: AttrsView,
)
    requires
        agree(s, s2, s.len() as int),
        forall|i: int| 0 <= i < l.len() ==> lexeme_wf_text(#[trigger] l[i], s.len() as int),
        0 <= k <= l.len(),
        render_from(s, l, k, stack, emitted) is Ok,
        stack_after(l, k, stack).len() > 0,
    ensures
        render_from(s2, l.push(LexemeView::Close(s.len() as int, None)), k, stack, emitted)
            == render_from(s, l, k, stack, emitted),
        stack_after(l.push(LexemeView::Close(s.len() as int, None)), k, stack) == stack_after(
            l,
            k,
            stack,
        ).drop_last(),
    decreases l.len() - k,
{
    let l2 = l.push(LexemeView::Close(s.len() as int, None));
    if k == l.len() {
        assert(l2[k] == LexemeView::Close(s.len() as int, None));
        assert(stack_after(l, k, stack) == stack);
        assert(render_from(s2, l2, k + 1, stack.drop_last(), emitted) == Ok::<
            Seq<char>,
            (int, ErrorKind),
        >(transition(emitted, default_attrs())));
        assert(stack_after(l2, k + 1, stack.drop_last()) == stack.drop_last());
    } else {
        assert(l2[k] == l[k]);
        assert(lexeme_wf_text(l[k], s.len() as int));
        match l[k] {
            LexemeView::Text(a, b) => {
                assert(s.subrange(a, b) =~= s2.subrange(a, b));
                lemma_render_close_at_end(s, s2, l, k + 1, stack, state_of(stack));
            },
            LexemeView::Open(t) => {
                lemma_render_close_at_end(s, s2, l, k + 1, stack.push(t), emitted);
            },
            LexemeView::Close(_, _) => {
                lemma_render_close_at_end(s, s2, l, k + 1, stack.drop_last(), emitted);
            },
        }
    }
}

/// Tags left open are closed at the end of the string: where a string leaves tags open,
/// appending `</>`, which closes the innermost one, changes nothing in the output. So
/// `"<green><bold>Hello"` and `"<green><bold>Hello</></>"` give the same output.
pub proof fn law_unclosed_tags_close_at_end(s: Seq<char>, raw: bool)
    requires
        colorize(s, raw) is Ok,
        open_tags(s, raw) > 0,
    ensures
        colorize(s + close_last(), raw) == colorize(s, raw),
        open_tags(s + close_last(), raw) == open_tags(s, raw) - 1,
{
    let n = s.len() as int;
    let s2 = s + close_last();
    assert(agree(s, s2, n));
    let l = lex(s, raw)->Ok_0;
    lemma_lex_prefix(s, s2, 0, raw);
    lemma_lex_texts_inside(s, 0, raw);
    let c = LexemeView::Close(n, None);
    assert(s2[n] == '<' && s2[n + 1] == '/' && s2[n + 2] == '>');
    assert(index_of(s2, '>', n + 2, n + 3) == n + 2);
    assert(index_of(s2, '>', n + 1, n + 3) == n + 2);
    assert(tag_lexeme_close(s2, n));
    assert(lex_from(s2, n + 3, raw) == Ok::<Seq<LexemeView>, (int, ErrorKind)>(Seq::empty()));
    assert(lex_step(s2, n, raw) == Ok::<(LexemeView, int), (int, ErrorKind)>((c, n + 3)));
    assert(lex_from(s2, n, raw) == Ok::<Seq<LexemeView>, (int, ErrorKind)>(seq![c] + Seq::empty()));
    assert(l + (seq![c] + Seq::<LexemeView>::empty()) =~= l.push(c));
    lemma_render_close_at_end(s, s2, l, 0, Seq::empty(), default_attrs());
}

spec fn tag_lexeme_close(s2: Seq<char>, n: int) -> bool {
    tag_lexeme(s2, n, n + 2) == Ok::<LexemeView, (int, ErrorKind)>(
        LexemeView::Close(n, None),
    )
}

/// The links of the tags of a piece hold no escape character.
pub open spec fn lexeme_links_ok(l: LexemeView) -> bool {
    match l {
        LexemeView::Open(t) => link_ok(t),
        LexemeView::Close(_, Some(t)) => link_ok(t),
        _ => true,
    }
}

proof fn lemma_subrange_esc_free(x: Seq<char>, a: int, b: int)
    requires
        esc_free(x),
        0 <= a <= b <= x.len(),
    ensures
        esc_free(x.subrange(a, b)),
{
    assert forall|i: int| 0 <= i < x.subrange(a, b).len() implies x.subrange(a, b)[i]
        != crate::ansi_constants::esc() by {
        assert(x.subrange(a, b)[i] == x[a + i]);
    }
}

proof fn lemma_item_link_ok(t: Seq<char>)
    requires
        esc_free(t),
    ensures
        item_attrs(t) matches Some(x) ==> link_ok(x),
{
    if let Some(u) = call_arg(t, "link("@) {
        lemma_subrange_esc_free(t, "link("@.len() as int, t.len() - 1);
        let a = skip_spaces(u, 0, u.len() as int);
        lemma_skip_spaces(u, 0, u.len() as int);
        lemma_drop_spaces(u, a, u.len() as int);
        lemma_subrange_esc_free(u, a, drop_spaces(u, a, u.len() as int));
    }
}

proof fn lemma_items_link_ok(s: Seq<char>, a: int, b: int, acc: AttrsView)
    requires
        esc_free(s),
        0 <= a <= b <= s.len(),
        link_ok(acc),
    ensures
        items_from(s, a, b, acc) matches Ok(x) ==> link_ok(x),
    decreases b - a,
{
    lemma_item_end(s, a, b, false);
    let e = item_end(s, a, b, false);
    lemma_skip_spaces(s, a, e);
    let a2 = skip_spaces(s, a, e);
    lemma_drop_spaces(s, a2, e);
    let e2 = drop_spaces(s, a2, e);
    if a2 < e2 {
        lemma_subrange_esc_free(s, a2, e2);
        lemma_item_link_ok(s.subrange(a2, e2));
    }
    if let Ok(t) = parse_item(s, a, e) {
        if e < b {
            lemma_items_link_ok(s, e + 1, b, overlay(acc, t));
        }
    }
}

/// The links of the tags that `s` lexes into come from `s`.
proof fn lemma_lex_links_ok(s: Seq<char>, i: int, raw: bool)
    requires
        esc_free(s),
        0 <= i <= s.len(),
    ensures
        lex_from(s, i, raw) matches Ok(l) ==> forall|k: int|
            0 <= k < l.len() ==> lexeme_links_ok(#[trigger] l[k]),
    decreases s.len() - i,
{
    if i < s.len() {
        lemma_lex_step_advances(s, i, raw);
        if let Ok((x, next)) = lex_step(s, i, raw) {
            if s[i] == '<' && !(i + 1 < s.len() && s[i + 1] == '<') {
                let j = index_of(s, '>', i + 1, s.len() as int);
                crate::parse::lemma_index_of_bounds(s, '>', i + 1, s.len() as int);
                lemma_items_link_ok(s, i + 1, j, default_attrs());
                if i + 2 <= j {
                    lemma_items_link_ok(s, i + 2, j, default_attrs());
                }
            }
            lemma_lex_links_ok(s, next, raw);
            if let Ok(rest) = lex_from(s, next, raw) {
                let l = seq![x] + rest;
                assert forall|k: int| 0 <= k < l.len() implies lexeme_links_ok(#[trigger] l[k]) by {
                    if k > 0 {
                        assert(l[k] == rest[k - 1]);
                    }
                }
            }
        }
    }
}

proof fn lemma_state_link_ok(stack: Seq<AttrsView>)
    requires
        forall|i: int| 0 <= i < stack.len() ==> link_ok(#[trigger] stack[i]),
    ensures
        link_ok(state_of(stack)),
    decreases stack.len(),
{
    if stack.len() > 0 {
        assert(link_ok(stack[stack.len() - 1]));
        lemma_state_link_ok(stack.drop_last());
    }
}

proof fn lemma_render_strip(
    s: Seq<char>,
    l: Seq<LexemeView>,
    k: int,
    stack: Seq<AttrsView>,
    emitted: AttrsView,
)
    requires
        esc_free(s),
        0 <= k,
        forall|i: int|
            0 <= i < l.len() ==> lexeme_wf_text(#[trigger] l[i], s.len() as int) && lexeme_links_ok(
                l[i],
            ),
        forall|i: int| 0 <= i < stack.len() ==> link_ok(#[trigger] stack[i]),
        render_from(s, l, k, stack, emitted) is Ok,
    ensures
        strip_escapes(render_from(s, l, k, stack, emitted)->Ok_0) == texts_from(s, l, k),
    decreases l.len() - k,
{
    if k >= l.len() {
        let out = transition(emitted, default_attrs());
        lemma_strip_transition(emitted, default_attrs(), Seq::empty());
        assert(out + Seq::<char>::empty() =~= out);
    } else {
        assert(lexeme_wf_text(l[k], s.len() as int) && lexeme_links_ok(l[k]));
        match l[k] {
            LexemeView::Text(a, b) => {
                let cur = state_of(stack);
                lemma_state_link_ok(stack);
                lemma_render_strip(s, l, k + 1, stack, cur);
                let rest = render_from(s, l, k + 1, stack, cur)->Ok_0;
                let text = s.subrange(a, b);
                lemma_subrange_esc_free(s, a, b);
                lemma_strip_text(text, rest);
                lemma_strip_transition(emitted, cur, text + rest);
                assert(transition(emitted, cur) + text + rest =~= transition(emitted, cur) + (text
                    + rest));
            },
            LexemeView::Open(t) => {
                let st = stack.push(t);
                assert forall|i: int| 0 <= i < st.len() implies link_ok(#[trigger] st[i]) by {
                    if i < stack.len() {
                        assert(st[i] == stack[i]);
                    }
                }
                lemma_render_strip(s, l, k + 1, st, emitted);
            },
            LexemeView::Close(_, _) => {
                let st = stack.drop_last();
                assert forall|i: int| 0 <= i < st.len() implies link_ok(#[trigger] st[i]) by {
                    assert(st[i] == stack[i]);
                }
                lemma_render_strip(s, l, k + 1, st, emitted);
            },
        }
    }
}

/// Tags become escape sequences and nothing else changes: in a string without escape
/// characters, taking the escape sequences out of the output leaves exactly the text of the
/// string. So what `cstr` writes, its escape sequences taken out, is what `untagged` writes.
pub proof fn law_tags_become_escape_sequences(s: Seq<char>, raw: bool)
    requires
        esc_free(s),
        colorize(s, raw) is Ok,
    ensures
        lex(s, raw) is Ok,
        strip_escapes(colorize(s, raw)->Ok_0) == texts_from(s, lex(s, raw)->Ok_0, 0),
        raw ==> strip_tags(s) == Ok::<Seq<char>, (int, ErrorKind)>(
            strip_escapes(colorize(s, raw)->Ok_0),
        ),
{
    lemma_lex_texts_inside(s, 0, raw);
    lemma_lex_links_ok(s, 0, raw);
    let l = lex(s, raw)->Ok_0;
    assert forall|i: int| 0 <= i < l.len() implies lexeme_wf_text(#[trigger] l[i], s.len() as int)
        && lexeme_links_ok(l[i]) by {
        assert(lexeme_wf_text(l[i], s.len() as int));
        assert(lexeme_links_ok(l[i]));
    }
    lemma_render_strip(s, l, 0, Seq::empty(), default_attrs());
}

proof fn lemma_items_error_position(s: Seq<char>, a: int, b: int, acc: AttrsView)
    requires
        0 <= a <= b <= s.len(),
    ensures
        items_from(s, a, b, acc) matches Err(x) ==> a <= x.0 <= b,
    decreases b - a,
{
    lemma_item_end(s, a, b, false);
    let e = item_end(s, a, b, false);
    lemma_skip_spaces(s, a, e);
    let a2 = skip_spaces(s, a, e);
    lemma_drop_spaces(s, a2, e);
    if let Ok(t) = parse_item(s, a, e) {
        if e < b {
            lemma_items_error_position(s, e + 1, b, overlay(acc, t));
        }
    }
}

/// Where lexing fails, and where the closing tags stand.
proof fn lemma_lex_positions(s: Seq<char>, i: int, raw: bool)
    requires
        0 <= i <= s.len(),
    ensures
        lex_from(s, i, raw) matches Err(x) ==> 0 <= x.0 < s.len(),
        lex_from(s, i, raw) matches Ok(l) ==> forall|k: int|
            0 <= k < l.len() ==> (#[trigger] l[k] matches LexemeView::Close(p, _) ==> 0 <= p
                < s.len()),
    decreases s.len() - i,
{
    if i < s.len() {
        lemma_lex_step_advances(s, i, raw);
        let j = index_of(s, '>', i + 1, s.len() as int);
        crate::parse::lemma_index_of_bounds(s, '>', i + 1, s.len() as int);
        if j < s.len() {
            lemma_items_error_position(s, i + 1, j, default_attrs());
            if i + 2 <= j {
                lemma_items_error_position(s, i + 2, j, default_attrs());
            }
        }
        if let Ok((x, next)) = lex_step(s, i, raw) {
            lemma_lex_positions(s, next, raw);
            if let Ok(rest) = lex_from(s, next, raw) {
                let l = seq![x] + rest;
                assert forall|k: int| 0 <= k < l.len() implies (#[trigger] l[k] matches LexemeView::Close(
                    p,
                    _,
                ) ==> 0 <= p < s.len()) by {
                    if k > 0 {
                        assert(l[k] == rest[k - 1]);
                    }
                }
            }
        }
    }
}

proof fn lemma_render_error_position(
    s: Seq<char>,
    l: Seq<LexemeView>,
    k: int,
    stack: Seq<AttrsView>,
    emitted: AttrsView,
)
    requires
        0 <= k,
        forall|i: int|
            0 <= i < l.len() ==> (#[trigger] l[i] matches LexemeView::Close(p, _) ==> 0 <= p
                < s.len()),
    ensures
        render_from(s, l, k, stack, emitted) matches Err(x) ==> 0 <= x.0 < s.len(),
    decreases l.len() - k,
{
    if k < l.len() {
        assert(l[k] matches LexemeView::Close(p, _) ==> 0 <= p < s.len());
        match l[k] {
            LexemeView::Text(_, _) => lemma_render_error_position(
                s,
                l,
                k + 1,
                stack,
                state_of(stack),
            ),
            LexemeView::Open(t) => lemma_render_error_position(s, l, k + 1, stack.push(t), emitted),
            LexemeView::Close(_, _) => lemma_render_error_position(
                s,
                l,
                k + 1,
                stack.drop_last(),
                emitted,
            ),
        }
    }
}

/// Errors point into the string: the index of every error is that of one of its characters.
pub proof fn law_errors_point_into_the_string(s: Seq<char>, raw: bool)
    ensures
        colorize(s, raw) matches Err(x) ==> 0 <= x.0 < s.len(),
        strip_tags(s) matches Err(x) ==> 0 <= x.0 < s.len(),
{
    lemma_lex_positions(s, 0, raw);
    lemma_lex_positions(s, 0, true);
    if let Ok(l) = lex(s, raw) {
        lemma_render_error_position(s, l, 0, Seq::empty(), default_attrs());
    }
}

} // verus!
