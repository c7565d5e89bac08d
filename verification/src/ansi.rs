//! Turning tags into ANSI sequences: the work of `cformat!`, `cstr!` and their variants.
//!
//! Tags are applied lazily: the sequences that a run of tags calls for are written just before
//! the next text, as the difference between the state the terminal is in and the state that the
//! open tags ask for. So `<red></>Text` writes no sequence at all, and `<red><blue>` writes only
//! blue. At the end, the sequences that return to the default state close whatever is still open.

use vstd::prelude::*;
use crate::color_context::{Attrs, AttrsView, attrs_wf, default_attrs, state_of, transition, views, stack_state, push_transition};
use crate::parse::{Lexeme, LexemeView, lex, lex_chars, lexeme_views, lexeme_wf};
use crate::parse::types::{Error, ErrorKind, describes, describe};
use crate::text::{chars_of, push_range};

verus! {

/// The output for the pieces of `s` from the `k`-th on, when `stack` holds the open tags and
/// the terminal is in state `emitted`; or the first nesting error.
pub open spec fn render_from(
    s: Seq<char>,
    l: Seq<LexemeView>,
    k: int,
    stack: Seq<AttrsView>,
    emitted: AttrsView,
) -> Result<Seq<char>, (int, ErrorKind)>
    decreases l.len() - k,
{
    if k >= l.len() {
        Ok(transition(emitted, default_attrs()))
    } else {
        match l[k] {
            LexemeView::Text(a, b) => {
                let cur = state_of(stack);
                match render_from(s, l, k + 1, stack, cur) {
                    Ok(rest) => Ok(transition(emitted, cur) + s.subrange(a, b) + rest),
                    Err(x) => Err(x),
                }
            },
            LexemeView::Open(t) => render_from(s, l, k + 1, stack.push(t), emitted),
            LexemeView::Close(p, target) => if stack.len() == 0 {
                Err((p, ErrorKind::NothingToClose))
            } else if target is Some && target->0 != stack.last() {
                Err((p, ErrorKind::MismatchedCloseTag))
            } else {
                render_from(s, l, k + 1, stack.drop_last(), emitted)
            },
        }
    }
}

/// The output for the pieces `l` of `s`.
pub open spec fn render(s: Seq<char>, l: Seq<LexemeView>) -> Result<Seq<char>, (int, ErrorKind)> {
    render_from(s, l, 0, Seq::empty(), default_attrs())
}

/// `s` with its tags replaced by ANSI sequences (a format string, or a raw string if `raw`), or
/// the first error.
pub open spec fn colorize(s: Seq<char>, raw: bool) -> Result<Seq<char>, (int, ErrorKind)> {
    match lex(s, raw) {
        Ok(l) => render(s, l),
        Err(x) => Err(x),
    }
}

/// `prefix` followed by `rest`, or the error of `rest`.
pub open spec fn after(prefix: Seq<char>, rest: Result<Seq<char>, (int, ErrorKind)>) -> Result<
    Seq<char>,
    (int, ErrorKind),
> {
    match rest {
        Ok(r) => Ok(prefix + r),
        Err(x) => Err(x),
    }
}

fn render_chars(s: &Vec<char>, l: &Vec<Lexeme>) -> (r: Result<String, (usize, ErrorKind)>)
    requires
        forall|k: int| 0 <= k < l@.len() ==> lexeme_wf(#[trigger] l@[k]@, s@.len() as int),
    ensures
        match r {
            Ok(out) => render(s@, lexeme_views(l@)) == Ok::<Seq<char>, (int, ErrorKind)>(out@),
            Err(x) => render(s@, lexeme_views(l@)) == Err::<Seq<char>, (int, ErrorKind)>(
                (x.0 as int, x.1),
            ),
        },
{
    let ghost lv = lexeme_views(l@);
    let mut out = String::new();
    let mut stack: Vec<Attrs> = Vec::new();
    let mut emitted = Attrs::none();
    let mut k: usize = 0;
    assert(views(stack@) =~= Seq::<AttrsView>::empty());
    assert(out@ + Seq::<char>::empty() =~= Seq::<char>::empty());
    while k < l.len()
        invariant
            k <= l@.len(),
            lv == lexeme_views(l@),
            forall|j: int| 0 <= j < l@.len() ==> lexeme_wf(#[trigger] l@[j]@, s@.len() as int),
            forall|j: int| 0 <= j < stack@.len() ==> attrs_wf(#[trigger] stack@[j]@),
            render(s@, lv) == after(out@, render_from(s@, lv, k as int, views(stack@), emitted@)),
        decreases l@.len() - k,
    {
        assert(lexeme_wf(l@[k as int]@, s@.len() as int));
        match &l[k] {
            Lexeme::Text(a, b) => {
                let cur = stack_state(&stack);
                let ghost before = out@;
                push_transition(&mut out, &emitted, &cur);
                push_range(&mut out, s, *a, *b);
                proof {
                    match render_from(s@, lv, k + 1, views(stack@), cur@) {
                        Ok(rest) => {
                            assert(before + (transition(emitted@, cur@) + s@.subrange(
                                *a as int,
                                *b as int,
                            ) + rest) =~= out@ + rest);
                        },
                        Err(_) => {},
                    }
                }
                emitted = cur;
            },
            Lexeme::Open(t) => {
                let ghost old_views = views(stack@);
                stack.push(t.duplicate());
                assert(views(stack@) =~= old_views.push(t@));
            },
            Lexeme::Close(p, target) => {
                let ghost old_views = views(stack@);
                match stack.pop() {
                    None => {
                        return Err((*p, ErrorKind::NothingToClose));
                    },
                    Some(top) => {
                        assert(views(stack@) =~= old_views.drop_last());
                        assert(top@ == old_views.last());
                        match target {
                            Some(t) => {
                                if !t.same_as(&top) {
                                    return Err((*p, ErrorKind::MismatchedCloseTag));
                                }
                            },
                            None => {},
                        }
                    },
                }
            },
        }
        k = k + 1;
    }
    let fin = Attrs::none();
    push_transition(&mut out, &emitted, &fin);
    Ok(out)
}

fn colorize_chars(s: &Vec<char>, raw: bool) -> (r: Result<String, Error>)
    ensures
        match r {
            Ok(out) => colorize(s@, raw) == Ok::<Seq<char>, (int, ErrorKind)>(out@),
            Err(e) => colorize(s@, raw) matches Err(x) && describes(e, s@, x),
        },
{
    match lex_chars(s, raw) {
        Err(x) => Err(describe(s, x)),
        Ok(l) => match render_chars(s, &l) {
            Ok(out) => Ok(out),
            Err(x) => Err(describe(s, x)),
        },
    }
}

/// Replaces the tags of a format string with ANSI sequences, and leaves its `{..}` placeholders
/// (and `{{`) as they are, ready for `format!`: the work of `cformat!()` on its format string.
/// `<<` and `>>` become `<` and `>`. Tags left open are closed at the end.
pub fn cformat(format: &str) -> (r: Result<String, Error>)
    ensures
        match r {
            Ok(out) => colorize(format@, false) == Ok::<Seq<char>, (int, ErrorKind)>(out@),
            Err(e) => colorize(format@, false) matches Err(x) && describes(e, format@, x),
        },
{
    colorize_chars(&chars_of(format), false)
}

/// Replaces the tags of a string with ANSI sequences; braces are plain characters: the work of
/// `cstr!()`.
pub fn cstr(s: &str) -> (r: Result<String, Error>)
    ensures
        match r {
            Ok(out) => colorize(s@, true) == Ok::<Seq<char>, (int, ErrorKind)>(out@),
            Err(e) => colorize(s@, true) matches Err(x) && describes(e, s@, x),
        },
{
    colorize_chars(&chars_of(s), true)
}

} // verus!
