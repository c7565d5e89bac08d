//! The entries of a tag: a tag is its comma-separated entries laid one over the other, so an
//! entry can be replaced by any spelling that sets the same thing (an alias of the tag table)
//! without changing the output.

use vstd::prelude::*;
use crate::ansi::colorize;
use crate::color_context::{AttrsView, default_attrs, overlay};
use crate::laws_tags::law_same_tags_interchangeable;
use crate::parse::{LexemeView, lex, lex_from, lex_step, item_end, parse_item, items_from};
use crate::parse::prefix::{agree, lemma_lex_prefix};
use crate::parse::shift::{same_tail, lemma_shift_lex};
use crate::parse::tag::{
    item_attrs, is_space, skip_spaces, drop_spaces, trimmed, lemma_skip_spaces, lemma_drop_spaces,
};
use crate::parse::types::ErrorKind;
use crate::text::index_of;

verus! {

/// The entries written one after the other, separated by commas.
pub open spec fn join_entries(ws: Seq<Seq<char>>) -> Seq<char>
    decreases ws.len(),
{
    if ws.len() == 0 {
        Seq::empty()
    } else if ws.len() == 1 {
        ws[0]
    } else {
        ws[0] + seq![','] + join_entries(ws.skip(1))
    }
}

/// Whether a parenthesis is open after the characters of `e` from `i` on, starting with
/// `in_parens`.
pub open spec fn parens_after(e: Seq<char>, i: int, in_parens: bool) -> bool
    decreases e.len() - i,
{
    if i < 0 || i >= e.len() {
        in_parens
    } else {
        parens_after(e, i + 1, if in_parens { e[i] != ')' } else { e[i] == '(' })
    }
}

/// An entry of a tag: no comma or angle bracket, and its parentheses closed at its end.
pub open spec fn entry_ok(e: Seq<char>) -> bool {
    &&& forall|i: int| 0 <= i < e.len() ==> #[trigger] e[i] != ',' && e[i] != '<' && e[i] != '>'
    &&& !parens_after(e, 0, false)
}

/// What an entry sets: its words without the spaces around them, as the tag table reads them;
/// `None` for an empty or unknown entry.
pub open spec fn entry_attrs(e: Seq<char>) -> Option<AttrsView> {
    if trimmed(e).len() > 0 {
        item_attrs(trimmed(e))
    } else {
        None
    }
}

/// What the entries set, laid one over the other on `acc` (a later entry wins); `None` if one of
/// them is empty or unknown.
pub open spec fn entries_attrs(ws: Seq<Seq<char>>, acc: AttrsView) -> Option<AttrsView>
    decreases ws.len(),
{
    if ws.len() == 0 {
        Some(acc)
    } else {
        match entry_attrs(ws[0]) {
            None => None,
            Some(t) => entries_attrs(ws.skip(1), overlay(acc, t)),
        }
    }
}

/// The tag with these entries: `<entries>`, or `</entries>` if `close`.
pub open spec fn tag_with(ws: Seq<Seq<char>>, close: bool) -> Seq<char> {
    if close {
        seq!['<', '/'] + join_entries(ws) + seq!['>']
    } else {
        seq!['<'] + join_entries(ws) + seq!['>']
    }
}

/// Entries that make a tag: at least one, each an entry, not all empty, and an opening tag's
/// first character is no `/`.
pub open spec fn tag_ok(ws: Seq<Seq<char>>, close: bool) -> bool {
    &&& ws.len() >= 1
    &&& forall|j: int| 0 <= j < ws.len() ==> entry_ok(#[trigger] ws[j])
    &&& join_entries(ws).len() > 0
    &&& !close ==> join_entries(ws)[0] != '/'
}

/// `e` stands in `s` at `a`.
pub open spec fn at(s: Seq<char>, a: int, e: Seq<char>) -> bool {
    &&& 0 <= a
    &&& a + e.len() <= s.len()
    &&& forall|i: int| 0 <= i < e.len() ==> s[a + i] == #[trigger] e[i]
}

proof fn lemma_window_skip(s: Seq<char>, a: int, e: Seq<char>, i: int, j: int)
    requires
        at(s, a, e),
        0 <= i <= j <= e.len(),
    ensures
        skip_spaces(s, a + i, a + j) == a + skip_spaces(e, i, j),
    decreases j - i,
{
    if i < j {
        assert(s[a + i] == e[i]);
        lemma_window_skip(s, a, e, i + 1, j);
        assert(a + i + 1 == a + (i + 1));
    }
}

proof fn lemma_window_drop(s: Seq<char>, a: int, e: Seq<char>, i: int, j: int)
    requires
        at(s, a, e),
        0 <= i <= j <= e.len(),
    ensures
        drop_spaces(s, a + i, a + j) == a + drop_spaces(e, i, j),
    decreases j - i,
{
    if i < j {
        assert(s[a + (j - 1)] == e[j - 1]);
        assert(a + j - 1 == a + (j - 1));
        lemma_window_drop(s, a, e, i, j - 1);
    }
}

/// An entry standing in a string parses as it does on its own.
proof fn lemma_window_parse(s: Seq<char>, a: int, e: Seq<char>)
    requires
        at(s, a, e),
    ensures
        (parse_item(s, a, a + e.len()) is Ok) == (entry_attrs(e) is Some),
        parse_item(s, a, a + e.len()) is Ok ==> parse_item(s, a, a + e.len())->Ok_0 == entry_attrs(
            e,
        )->0,
{
    let n = e.len() as int;
    lemma_window_skip(s, a, e, 0, n);
    lemma_skip_spaces(e, 0, n);
    let a2 = skip_spaces(e, 0, n);
    lemma_window_drop(s, a, e, a2, n);
    lemma_drop_spaces(e, a2, n);
    let e2 = drop_spaces(e, a2, n);
    assert(a + 0 == a);
    assert(s.subrange(a + a2, a + e2) =~= e.subrange(a2, e2)) by {
        assert forall|k: int| 0 <= k < e2 - a2 implies #[trigger] s.subrange(a + a2, a + e2)[k]
            == e.subrange(a2, e2)[k] by {
            assert(s[a + (a2 + k)] == e[a2 + k]);
            assert(a + a2 + k == a + (a2 + k));
        }
    }
    assert(trimmed(e) == e.subrange(a2, e2));
}

proof fn lemma_window_item_end(s: Seq<char>, a: int, e: Seq<char>, b: int, i: int, in_parens: bool)
    requires
        at(s, a, e),
        a + e.len() <= b <= s.len(),
        0 <= i <= e.len(),
        forall|k: int| 0 <= k < e.len() ==> #[trigger] e[k] != ',',
    ensures
        item_end(s, a + i, b, in_parens) == item_end(
            s,
            a + e.len(),
            b,
            parens_after(e, i, in_parens),
        ),
    decreases e.len() - i,
{
    if i < e.len() {
        assert(s[a + i] == e[i]);
        assert(e[i] != ',');
        let next = if in_parens { e[i] != ')' } else { e[i] == '(' };
        lemma_window_item_end(s, a, e, b, i + 1, next);
        assert(a + i + 1 == a + (i + 1));
    }
}

proof fn lemma_join_no_brackets(ws: Seq<Seq<char>>)
    requires
        forall|j: int| 0 <= j < ws.len() ==> entry_ok(#[trigger] ws[j]),
    ensures
        forall|i: int|
            0 <= i < join_entries(ws).len() ==> #[trigger] join_entries(ws)[i] != '<'
                && join_entries(ws)[i] != '>',
    decreases ws.len(),
{
    if ws.len() >= 2 {
        let rest = ws.skip(1);
        assert forall|j: int| 0 <= j < rest.len() implies entry_ok(#[trigger] rest[j]) by {
            assert(rest[j] == ws[j + 1]);
        }
        lemma_join_no_brackets(rest);
        let w0 = ws[0];
        let x = join_entries(ws);
        assert(entry_ok(ws[0]));
        assert forall|i: int| 0 <= i < x.len() implies #[trigger] x[i] != '<' && x[i] != '>' by {
            if i < w0.len() {
                assert(x[i] == w0[i]);
            } else if i > w0.len() {
                assert(x[i] == join_entries(rest)[i - w0.len() - 1]);
            }
        }
    } else if ws.len() == 1 {
        assert(entry_ok(ws[0]));
    }
}

/// The entries that stand in `s` from `a` on are read as [`entries_attrs`] reads them.
proof fn lemma_items(s: Seq<char>, a: int, ws: Seq<Seq<char>>, acc: AttrsView)
    requires
        at(s, a, join_entries(ws)),
        ws.len() >= 1,
        forall|j: int| 0 <= j < ws.len() ==> entry_ok(#[trigger] ws[j]),
    ensures
        (items_from(s, a, a + join_entries(ws).len(), acc) is Ok) == (entries_attrs(ws, acc) is Some),
        items_from(s, a, a + join_entries(ws).len(), acc) is Ok ==> items_from(
            s,
            a,
            a + join_entries(ws).len(),
            acc,
        )->Ok_0 == entries_attrs(ws, acc)->0,
    decreases ws.len(),
{
    let x = join_entries(ws);
    let w0 = ws[0];
    let n0 = w0.len() as int;
    let b = a + x.len();
    assert(entry_ok(w0));
    assert(at(s, a, w0)) by {
        assert forall|i: int| 0 <= i < w0.len() implies s[a + i] == #[trigger] w0[i] by {
            assert(x[i] == w0[i]);
            assert(s[a + i] == x[i]);
        }
    }
    assert forall|k: int| 0 <= k < w0.len() implies #[trigger] w0[k] != ',' by {}
    lemma_window_item_end(s, a, w0, b, 0, false);
    assert(a + 0 == a);
    lemma_window_parse(s, a, w0);
    if ws.len() == 1 {
        assert(ws.skip(1).len() == 0);
        assert(item_end(s, a, b, false) == b);
    } else {
        let rest = ws.skip(1);
        let y = join_entries(rest);
        assert(x == w0 + seq![','] + y);
        assert(s[a + n0] == x[n0]);
        assert(item_end(s, a, b, false) == a + n0);
        if let Some(t) = entry_attrs(w0) {
            assert forall|j: int| 0 <= j < rest.len() implies entry_ok(#[trigger] rest[j]) by {
                assert(rest[j] == ws[j + 1]);
            }
            assert(at(s, a + n0 + 1, y)) by {
                assert forall|i: int| 0 <= i < y.len() implies s[(a + n0 + 1) + i]
                    == #[trigger] y[i] by {
                    assert(x[n0 + 1 + i] == y[i]);
                    assert(s[a + (n0 + 1 + i)] == x[n0 + 1 + i]);
                }
            }
            lemma_items(s, a + n0 + 1, rest, overlay(acc, t));
            assert(a + n0 + 1 + y.len() == b);
        }
    }
}

proof fn lemma_index_of_at(t: Seq<char>, c: char, from: int, to: int, k: int)
    requires
        from <= k < to,
        t[k] == c,
        forall|i: int| from <= i < k ==> t[i] != c,
    ensures
        index_of(t, c, from, to) == k,
    decreases k - from,
{
    if from < k {
        lemma_index_of_at(t, c, from + 1, to, k);
    }
}

/// The piece that a tag with entries `ws` lexes as.
pub open spec fn tag_piece(t: AttrsView, close: bool) -> LexemeView {
    if close {
        LexemeView::Close(0, Some(t))
    } else {
        LexemeView::Open(t)
    }
}

/// A string that starts with the tag of entries `ws` has that tag as its first piece, setting
/// what the entries set; or an error if an entry is empty or unknown.
proof fn lemma_entries_tag(s: Seq<char>, ws: Seq<Seq<char>>, close: bool, raw: bool)
    requires
        tag_ok(ws, close),
        at(s, 0, tag_with(ws, close)),
    ensures
        (lex_step(s, 0, raw) is Ok) == (entries_attrs(ws, default_attrs()) is Some),
        entries_attrs(ws, default_attrs()) is Some ==> lex_step(s, 0, raw) == Ok::<
            (LexemeView, int),
            (int, ErrorKind),
        >(
            (
                tag_piece(entries_attrs(ws, default_attrs())->0, close),
                tag_with(ws, close).len() as int,
            ),
        ),
{
    let tg = tag_with(ws, close);
    let x = join_entries(ws);
    let off: int = if close { 2 } else { 1 };
    let m = tg.len() - 1;
    assert(tg.len() == x.len() + off + 1);
    lemma_join_no_brackets(ws);
    assert forall|i: int| 0 <= i < tg.len() implies s[i] == #[trigger] tg[i] by {
        assert(s[0 + i] == tg[i]);
    }
    assert(s[0] == tg[0] && tg[0] == '<');
    assert(s[m] == tg[m] && tg[m] == '>');
    assert forall|i: int| off <= i < m implies #[trigger] tg[i] == x[i - off] by {}
    assert(s[1] == tg[1]);
    assert(s[1] != '<') by {
        if !close {
            assert(tg[1] == x[0]);
        }
    }
    assert(close <==> s[1] == '/') by {
        if !close {
            assert(tg[1] == x[0]);
        }
    }
    assert forall|i: int| 1 <= i < m implies s[i] != '>' by {
        assert(s[i] == tg[i]);
        if i >= off {
            assert(tg[i] == x[i - off]);
        }
    }
    lemma_index_of_at(s, '>', 1, s.len() as int, m);
    assert(at(s, off, x)) by {
        assert forall|i: int| 0 <= i < x.len() implies s[off + i] == #[trigger] x[i] by {
            assert(s[off + i] == tg[off + i]);
            assert(tg[off + i] == x[i]);
        }
    }
    lemma_items(s, off, ws, default_attrs());
    assert(off + x.len() == m);
}

/// Replacing an entry by one that sets the same leaves what the entries set unchanged.
proof fn lemma_entries_replace(ws: Seq<Seq<char>>, k: int, w2: Seq<char>, acc: AttrsView)
    requires
        0 <= k < ws.len(),
        entry_attrs(w2) == entry_attrs(ws[k]),
    ensures
        entries_attrs(ws.update(k, w2), acc) == entries_attrs(ws, acc),
    decreases ws.len(),
{
    let u = ws.update(k, w2);
    if k == 0 {
        assert(u.skip(1) =~= ws.skip(1));
    } else {
        assert(u[0] == ws[0]);
        assert(u.skip(1) =~= ws.skip(1).update(k - 1, w2));
        if let Some(t) = entry_attrs(ws[0]) {
            lemma_entries_replace(ws.skip(1), k - 1, w2, overlay(acc, t));
        }
    }
}

/// A piece that fails right after `p` makes the whole string fail, when `p` lexes on its own.
proof fn lemma_lex_err_around(p: Seq<char>, t: Seq<char>, raw: bool)
    requires
        lex(p, raw) is Ok,
        0 < t.len(),
        lex_step(t, 0, raw) is Err,
    ensures
        lex(p + t, raw) is Err,
{
    let s = p + t;
    assert(agree(p, s, p.len() as int));
    lemma_lex_prefix(p, s, 0, raw);
    assert(same_tail(t, 0, s, p.len() as int)) by {
        assert forall|k: int| 0 <= k < t.len() implies t[k] == #[trigger] s[k + (p.len() - 0)] by {}
    }
    lemma_shift_lex(t, 0, s, p.len() as int, 0, raw);
    assert(lex_from(s, 0 + (p.len() - 0), raw) == lex_from(s, p.len() as int, raw));
}

/// A word without spaces is an entry that sets what the tag table says of the word.
pub proof fn lemma_word_entry(w: Seq<char>)
    requires
        w.len() > 0,
        forall|i: int| 0 <= i < w.len() ==> !is_space(#[trigger] w[i]),
    ensures
        entry_attrs(w) == item_attrs(w),
{
    let n = w.len() as int;
    assert(!is_space(w[0]));
    assert(skip_spaces(w, 0, n) == 0);
    assert(!is_space(w[n - 1]));
    assert(drop_spaces(w, 0, n) == n);
    assert(trimmed(w) =~= w);
}

/// Any entry of a tag can be replaced by a spelling that sets the same thing (an alias of the
/// tag table, such as `strong` for `bold` or `RED` for `bg:red`; see `laws_aliases` and
/// [`lemma_word_entry`]): with `ws` the comma-separated
/// entries of a tag, opening or closing, writing `w2` for the `k`-th entry leaves the output
/// unchanged, and an error comes for one exactly when it comes for the other. `p` is whatever
/// stands before the tag and lexes on its own: that is, the tag stands there as a tag (after
/// `{` in a format string it would be part of a placeholder, after `<` it would be text).
pub proof fn law_entries_in_place(
    p: Seq<char>,
    ws: Seq<Seq<char>>,
    k: int,
    w2: Seq<char>,
    q: Seq<char>,
    close: bool,
    raw: bool,
)
    requires
        lex(p, raw) is Ok,
        0 <= k < ws.len(),
        tag_ok(ws, close),
        tag_ok(ws.update(k, w2), close),
        entry_attrs(w2) == entry_attrs(ws[k]),
    ensures
        (colorize(p + tag_with(ws, close) + q, raw) is Ok) == (colorize(
            p + tag_with(ws.update(k, w2), close) + q,
            raw,
        ) is Ok),
        colorize(p + tag_with(ws, close) + q, raw) is Ok ==> colorize(
            p + tag_with(ws, close) + q,
            raw,
        ) == colorize(p + tag_with(ws.update(k, w2), close) + q, raw),
{
    let ws2 = ws.update(k, w2);
    let t1 = tag_with(ws, close);
    let t2 = tag_with(ws2, close);
    lemma_entries_replace(ws, k, w2, default_attrs());
    assert(at(t1, 0, t1));
    assert(at(t2, 0, t2));
    lemma_entries_tag(t1, ws, close, raw);
    lemma_entries_tag(t2, ws2, close, raw);
    if entries_attrs(ws, default_attrs()) is Some {
        law_same_tags_interchangeable(p, t1, t2, q, raw);
    } else {
        assert(at(t1 + q, 0, t1));
        assert(at(t2 + q, 0, t2));
        lemma_entries_tag(t1 + q, ws, close, raw);
        lemma_entries_tag(t2 + q, ws2, close, raw);
        lemma_lex_err_around(p, t1 + q, raw);
        lemma_lex_err_around(p, t2 + q, raw);
        assert(p + (t1 + q) =~= p + t1 + q);
        assert(p + (t2 + q) =~= p + t2 + q);
    }
}

} // verus!
