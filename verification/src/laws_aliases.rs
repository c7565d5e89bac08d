//! The tag table: the spellings of one color or style set the same thing.

use vstd::prelude::*;
use crate::color_context::{AttrsView, Color, default_attrs};
use crate::parse::tag::{
    item_attrs, style_index, styles_with, base_index, long_name_index, shortcut_index, link_item,
    call_arg, fg_color, is_lower, is_upper, lowered, upper_form, palette_arg,
    small_number, hex_color, hex_value, trimmed, skip_spaces, drop_spaces, lemma_skip_spaces,
    lemma_drop_spaces, is_digit, all_digits,
};

verus! {

/// A nonempty word of lowercase letters.
pub open spec fn lower_word(t: Seq<char>) -> bool {
    t.len() > 0 && forall|i: int| 0 <= i < t.len() ==> is_lower(#[trigger] t[i])
}

proof fn lemma_style_words()
    ensures
        lower_word("strong"@),
        lower_word("s"@),
        lower_word("em"@),
        lower_word("bold"@),
        lower_word("dim"@),
        lower_word("italics"@),
        lower_word("i"@),
        lower_word("italic"@),
        lower_word("underline"@),
        lower_word("u"@),
        lower_word("blink"@),
        lower_word("reverse"@),
        lower_word("rev"@),
        lower_word("conceal"@),
        lower_word("hide"@),
        lower_word("strike"@),
{
    reveal_strlit("strong");
    reveal_strlit("s");
    reveal_strlit("em");
    reveal_strlit("bold");
    reveal_strlit("dim");
    reveal_strlit("italics");
    reveal_strlit("i");
    reveal_strlit("italic");
    reveal_strlit("underline");
    reveal_strlit("u");
    reveal_strlit("blink");
    reveal_strlit("reverse");
    reveal_strlit("rev");
    reveal_strlit("conceal");
    reveal_strlit("hide");
    reveal_strlit("strike");
}

proof fn lemma_color_words()
    ensures
        lower_word("black"@),
        lower_word("red"@),
        lower_word("green"@),
        lower_word("yellow"@),
        lower_word("blue"@),
        lower_word("magenta"@),
        lower_word("cyan"@),
        lower_word("white"@),
        lower_word("k"@),
        lower_word("r"@),
        lower_word("g"@),
        lower_word("y"@),
        lower_word("b"@),
        lower_word("m"@),
        lower_word("c"@),
        lower_word("w"@),
{
    reveal_strlit("black");
    reveal_strlit("red");
    reveal_strlit("green");
    reveal_strlit("yellow");
    reveal_strlit("blue");
    reveal_strlit("magenta");
    reveal_strlit("cyan");
    reveal_strlit("white");
    reveal_strlit("k");
    reveal_strlit("r");
    reveal_strlit("g");
    reveal_strlit("y");
    reveal_strlit("b");
    reveal_strlit("m");
    reveal_strlit("c");
    reveal_strlit("w");
}

/// A spelling that is not a word of lowercase letters names no style and no basic color.
proof fn lemma_not_a_word(t: Seq<char>)
    requires
        !lower_word(t),
    ensures
        style_index(t) is None,
        long_name_index(t) is None,
        shortcut_index(t) is None,
        base_index(t) is None,
{
    lemma_style_words();
    lemma_color_words();
}

/// What a style entry sets.
pub open spec fn style_attrs(k: u8) -> AttrsView {
    AttrsView { styles: styles_with(k), ..default_attrs() }
}

/// The style aliases of the tag table set the same style: `strong`, `s`, `em` and `bold`;
/// `italics`, `i` and `italic`; `underline` and `u`; `reverse` and `rev`; `conceal` and `hide`.
pub proof fn law_style_aliases()
    ensures
        item_attrs("strong"@) == Some(style_attrs(0)),
        item_attrs("s"@) == Some(style_attrs(0)),
        item_attrs("em"@) == Some(style_attrs(0)),
        item_attrs("bold"@) == Some(style_attrs(0)),
        item_attrs("dim"@) == Some(style_attrs(1)),
        item_attrs("italics"@) == Some(style_attrs(2)),
        item_attrs("i"@) == Some(style_attrs(2)),
        item_attrs("italic"@) == Some(style_attrs(2)),
        item_attrs("underline"@) == Some(style_attrs(3)),
        item_attrs("u"@) == Some(style_attrs(3)),
        item_attrs("blink"@) == Some(style_attrs(4)),
        item_attrs("reverse"@) == Some(style_attrs(5)),
        item_attrs("rev"@) == Some(style_attrs(5)),
        item_attrs("conceal"@) == Some(style_attrs(6)),
        item_attrs("hide"@) == Some(style_attrs(6)),
        item_attrs("strike"@) == Some(style_attrs(7)),
{
    reveal_strlit("strong");
    reveal_strlit("s");
    reveal_strlit("em");
    reveal_strlit("bold");
    reveal_strlit("dim");
    reveal_strlit("italics");
    reveal_strlit("i");
    reveal_strlit("italic");
    reveal_strlit("underline");
    reveal_strlit("u");
    reveal_strlit("blink");
    reveal_strlit("reverse");
    reveal_strlit("rev");
    reveal_strlit("conceal");
    reveal_strlit("hide");
    reveal_strlit("strike");
}

/// What a foreground color entry sets.
pub open spec fn fg_attrs(c: Color) -> AttrsView {
    AttrsView { foreground: Some(c), ..default_attrs() }
}

/// What a background color entry sets.
pub open spec fn bg_attrs(c: Color) -> AttrsView {
    AttrsView { background: Some(c), ..default_attrs() }
}

proof fn lemma_no_style_black()
    ensures
        style_index("black"@) is None,
{
    assert("black"@ != "strong"@) by {
        reveal_strlit("black");
        reveal_strlit("strong");
        assert("black"@.len() == 5 && "strong"@.len() == 6);
    }
    assert("black"@ != "s"@) by {
        reveal_strlit("black");
        reveal_strlit("s");
        assert("black"@.len() == 5 && "s"@.len() == 1);
    }
    assert("black"@ != "em"@) by {
        reveal_strlit("black");
        reveal_strlit("em");
        assert("black"@.len() == 5 && "em"@.len() == 2);
    }
    assert("black"@ != "bold"@) by {
        reveal_strlit("black");
        reveal_strlit("bold");
        assert("black"@.len() == 5 && "bold"@.len() == 4);
    }
    assert("black"@ != "dim"@) by {
        reveal_strlit("black");
        reveal_strlit("dim");
        assert("black"@.len() == 5 && "dim"@.len() == 3);
    }
    assert("black"@ != "italics"@) by {
        reveal_strlit("black");
        reveal_strlit("italics");
        assert("black"@.len() == 5 && "italics"@.len() == 7);
    }
    assert("black"@ != "i"@) by {
        reveal_strlit("black");
        reveal_strlit("i");
        assert("black"@.len() == 5 && "i"@.len() == 1);
    }
    assert("black"@ != "italic"@) by {
        reveal_strlit("black");
        reveal_strlit("italic");
        assert("black"@.len() == 5 && "italic"@.len() == 6);
    }
    assert("black"@ != "underline"@) by {
        reveal_strlit("black");
        reveal_strlit("underline");
        assert("black"@.len() == 5 && "underline"@.len() == 9);
    }
    assert("black"@ != "u"@) by {
        reveal_strlit("black");
        reveal_strlit("u");
        assert("black"@.len() == 5 && "u"@.len() == 1);
    }
    assert("black"@ != "blink"@) by {
        reveal_strlit("black");
        reveal_strlit("blink");
        assert("black"@[2] == 'a' && "blink"@[2] == 'i');
    }
    assert("black"@ != "reverse"@) by {
        reveal_strlit("black");
        reveal_strlit("reverse");
        assert("black"@.len() == 5 && "reverse"@.len() == 7);
    }
    assert("black"@ != "rev"@) by {
        reveal_strlit("black");
        reveal_strlit("rev");
        assert("black"@.len() == 5 && "rev"@.len() == 3);
    }
    assert("black"@ != "conceal"@) by {
        reveal_strlit("black");
        reveal_strlit("conceal");
        assert("black"@.len() == 5 && "conceal"@.len() == 7);
    }
    assert("black"@ != "hide"@) by {
        reveal_strlit("black");
        reveal_strlit("hide");
        assert("black"@.len() == 5 && "hide"@.len() == 4);
    }
    assert("black"@ != "strike"@) by {
        reveal_strlit("black");
        reveal_strlit("strike");
        assert("black"@.len() == 5 && "strike"@.len() == 6);
    }
}

proof fn lemma_no_style_red()
    ensures
        style_index("red"@) is None,
{
    assert("red"@ != "strong"@) by {
        reveal_strlit("red");
        reveal_strlit("strong");
        assert("red"@.len() == 3 && "strong"@.len() == 6);
    }
    assert("red"@ != "s"@) by {
        reveal_strlit("red");
        reveal_strlit("s");
        assert("red"@.len() == 3 && "s"@.len() == 1);
    }
    assert("red"@ != "em"@) by {
        reveal_strlit("red");
        reveal_strlit("em");
        assert("red"@.len() == 3 && "em"@.len() == 2);
    }
    assert("red"@ != "bold"@) by {
        reveal_strlit("red");
        reveal_strlit("bold");
        assert("red"@.len() == 3 && "bold"@.len() == 4);
    }
    assert("red"@ != "dim"@) by {
        reveal_strlit("red");
        reveal_strlit("dim");
        assert("red"@[0] == 'r' && "dim"@[0] == 'd');
    }
    assert("red"@ != "italics"@) by {
        reveal_strlit("red");
        reveal_strlit("italics");
        assert("red"@.len() == 3 && "italics"@.len() == 7);
    }
    assert("red"@ != "i"@) by {
        reveal_strlit("red");
        reveal_strlit("i");
        assert("red"@.len() == 3 && "i"@.len() == 1);
    }
    assert("red"@ != "italic"@) by {
        reveal_strlit("red");
        reveal_strlit("italic");
        assert("red"@.len() == 3 && "italic"@.len() == 6);
    }
    assert("red"@ != "underline"@) by {
        reveal_strlit("red");
        reveal_strlit("underline");
        assert("red"@.len() == 3 && "underline"@.len() == 9);
    }
    assert("red"@ != "u"@) by {
        reveal_strlit("red");
        reveal_strlit("u");
        assert("red"@.len() == 3 && "u"@.len() == 1);
    }
    assert("red"@ != "blink"@) by {
        reveal_strlit("red");
        reveal_strlit("blink");
        assert("red"@.len() == 3 && "blink"@.len() == 5);
    }
    assert("red"@ != "reverse"@) by {
        reveal_strlit("red");
        reveal_strlit("reverse");
        assert("red"@.len() == 3 && "reverse"@.len() == 7);
    }
    assert("red"@ != "rev"@) by {
        reveal_strlit("red");
        reveal_strlit("rev");
        assert("red"@[2] == 'd' && "rev"@[2] == 'v');
    }
    assert("red"@ != "conceal"@) by {
        reveal_strlit("red");
        reveal_strlit("conceal");
        assert("red"@.len() == 3 && "conceal"@.len() == 7);
    }
    assert("red"@ != "hide"@) by {
        reveal_strlit("red");
        reveal_strlit("hide");
        assert("red"@.len() == 3 && "hide"@.len() == 4);
    }
    assert("red"@ != "strike"@) by {
        reveal_strlit("red");
        reveal_strlit("strike");
        assert("red"@.len() == 3 && "strike"@.len() == 6);
    }
}

proof fn lemma_no_style_green()
    ensures
        style_index("green"@) is None,
{
    assert("green"@ != "strong"@) by {
        reveal_strlit("green");
        reveal_strlit("strong");
        assert("green"@.len() == 5 && "strong"@.len() == 6);
    }
    assert("green"@ != "s"@) by {
        reveal_strlit("green");
        reveal_strlit("s");
        assert("green"@.len() == 5 && "s"@.len() == 1);
    }
    assert("green"@ != "em"@) by {
        reveal_strlit("green");
        reveal_strlit("em");
        assert("green"@.len() == 5 && "em"@.len() == 2);
    }
    assert("green"@ != "bold"@) by {
        reveal_strlit("green");
        reveal_strlit("bold");
        assert("green"@.len() == 5 && "bold"@.len() == 4);
    }
    assert("green"@ != "dim"@) by {
        reveal_strlit("green");
        reveal_strlit("dim");
        assert("green"@.len() == 5 && "dim"@.len() == 3);
    }
    assert("green"@ != "italics"@) by {
        reveal_strlit("green");
        reveal_strlit("italics");
        assert("green"@.len() == 5 && "italics"@.len() == 7);
    }
    assert("green"@ != "i"@) by {
        reveal_strlit("green");
        reveal_strlit("i");
        assert("green"@.len() == 5 && "i"@.len() == 1);
    }
    assert("green"@ != "italic"@) by {
        reveal_strlit("green");
        reveal_strlit("italic");
        assert("green"@.len() == 5 && "italic"@.len() == 6);
    }
    assert("green"@ != "underline"@) by {
        reveal_strlit("green");
        reveal_strlit("underline");
        assert("green"@.len() == 5 && "underline"@.len() == 9);
    }
    assert("green"@ != "u"@) by {
        reveal_strlit("green");
        reveal_strlit("u");
        assert("green"@.len() == 5 && "u"@.len() == 1);
    }
    assert("green"@ != "blink"@) by {
        reveal_strlit("green");
        reveal_strlit("blink");
        assert("green"@[0] == 'g' && "blink"@[0] == 'b');
    }
    assert("green"@ != "reverse"@) by {
        reveal_strlit("green");
        reveal_strlit("reverse");
        assert("green"@.len() == 5 && "reverse"@.len() == 7);
    }
    assert("green"@ != "rev"@) by {
        reveal_strlit("green");
        reveal_strlit("rev");
        assert("green"@.len() == 5 && "rev"@.len() == 3);
    }
    assert("green"@ != "conceal"@) by {
        reveal_strlit("green");
        reveal_strlit("conceal");
        assert("green"@.len() == 5 && "conceal"@.len() == 7);
    }
    assert("green"@ != "hide"@) by {
        reveal_strlit("green");
        reveal_strlit("hide");
        assert("green"@.len() == 5 && "hide"@.len() == 4);
    }
    assert("green"@ != "strike"@) by {
        reveal_strlit("green");
        reveal_strlit("strike");
        assert("green"@.len() == 5 && "strike"@.len() == 6);
    }
}

proof fn lemma_no_style_yellow()
    ensures
        style_index("yellow"@) is None,
{
    assert("yellow"@ != "strong"@) by {
        reveal_strlit("yellow");
        reveal_strlit("strong");
        assert("yellow"@[0] == 'y' && "strong"@[0] == 's');
    }
    assert("yellow"@ != "s"@) by {
        reveal_strlit("yellow");
        reveal_strlit("s");
        assert("yellow"@.len() == 6 && "s"@.len() == 1);
    }
    assert("yellow"@ != "em"@) by {
        reveal_strlit("yellow");
        reveal_strlit("em");
        assert("yellow"@.len() == 6 && "em"@.len() == 2);
    }
    assert("yellow"@ != "bold"@) by {
        reveal_strlit("yellow");
        reveal_strlit("bold");
        assert("yellow"@.len() == 6 && "bold"@.len() == 4);
    }
    assert("yellow"@ != "dim"@) by {
        reveal_strlit("yellow");
        reveal_strlit("dim");
        assert("yellow"@.len() == 6 && "dim"@.len() == 3);
    }
    assert("yellow"@ != "italics"@) by {
        reveal_strlit("yellow");
        reveal_strlit("italics");
        assert("yellow"@.len() == 6 && "italics"@.len() == 7);
    }
    assert("yellow"@ != "i"@) by {
        reveal_strlit("yellow");
        reveal_strlit("i");
        assert("yellow"@.len() == 6 && "i"@.len() == 1);
    }
    assert("yellow"@ != "italic"@) by {
        reveal_strlit("yellow");
        reveal_strlit("italic");
        assert("yellow"@[0] == 'y' && "italic"@[0] == 'i');
    }
    assert("yellow"@ != "underline"@) by {
        reveal_strlit("yellow");
        reveal_strlit("underline");
        assert("yellow"@.len() == 6 && "underline"@.len() == 9);
    }
    assert("yellow"@ != "u"@) by {
        reveal_strlit("yellow");
        reveal_strlit("u");
        assert("yellow"@.len() == 6 && "u"@.len() == 1);
    }
    assert("yellow"@ != "blink"@) by {
        reveal_strlit("yellow");
        reveal_strlit("blink");
        assert("yellow"@.len() == 6 && "blink"@.len() == 5);
    }
    assert("yellow"@ != "reverse"@) by {
        reveal_strlit("yellow");
        reveal_strlit("reverse");
        assert("yellow"@.len() == 6 && "reverse"@.len() == 7);
    }
    assert("yellow"@ != "rev"@) by {
        reveal_strlit("yellow");
        reveal_strlit("rev");
        assert("yellow"@.len() == 6 && "rev"@.len() == 3);
    }
    assert("yellow"@ != "conceal"@) by {
        reveal_strlit("yellow");
        reveal_strlit("conceal");
        assert("yellow"@.len() == 6 && "conceal"@.len() == 7);
    }
    assert("yellow"@ != "hide"@) by {
        reveal_strlit("yellow");
        reveal_strlit("hide");
        assert("yellow"@.len() == 6 && "hide"@.len() == 4);
    }
    assert("yellow"@ != "strike"@) by {
        reveal_strlit("yellow");
        reveal_strlit("strike");
        assert("yellow"@[0] == 'y' && "strike"@[0] == 's');
    }
}

proof fn lemma_no_style_blue()
    ensures
        style_index("blue"@) is None,
{
    assert("blue"@ != "strong"@) by {
        reveal_strlit("blue");
        reveal_strlit("strong");
        assert("blue"@.len() == 4 && "strong"@.len() == 6);
    }
    assert("blue"@ != "s"@) by {
        reveal_strlit("blue");
        reveal_strlit("s");
        assert("blue"@.len() == 4 && "s"@.len() == 1);
    }
    assert("blue"@ != "em"@) by {
        reveal_strlit("blue");
        reveal_strlit("em");
        assert("blue"@.len() == 4 && "em"@.len() == 2);
    }
    assert("blue"@ != "bold"@) by {
        reveal_strlit("blue");
        reveal_strlit("bold");
        assert("blue"@[1] == 'l' && "bold"@[1] == 'o');
    }
    assert("blue"@ != "dim"@) by {
        reveal_strlit("blue");
        reveal_strlit("dim");
        assert("blue"@.len() == 4 && "dim"@.len() == 3);
    }
    assert("blue"@ != "italics"@) by {
        reveal_strlit("blue");
        reveal_strlit("italics");
        assert("blue"@.len() == 4 && "italics"@.len() == 7);
    }
    assert("blue"@ != "i"@) by {
        reveal_strlit("blue");
        reveal_strlit("i");
        assert("blue"@.len() == 4 && "i"@.len() == 1);
    }
    assert("blue"@ != "italic"@) by {
        reveal_strlit("blue");
        reveal_strlit("italic");
        assert("blue"@.len() == 4 && "italic"@.len() == 6);
    }
    assert("blue"@ != "underline"@) by {
        reveal_strlit("blue");
        reveal_strlit("underline");
        assert("blue"@.len() == 4 && "underline"@.len() == 9);
    }
    assert("blue"@ != "u"@) by {
        reveal_strlit("blue");
        reveal_strlit("u");
        assert("blue"@.len() == 4 && "u"@.len() == 1);
    }
    assert("blue"@ != "blink"@) by {
        reveal_strlit("blue");
        reveal_strlit("blink");
        assert("blue"@.len() == 4 && "blink"@.len() == 5);
    }
    assert("blue"@ != "reverse"@) by {
        reveal_strlit("blue");
        reveal_strlit("reverse");
        assert("blue"@.len() == 4 && "reverse"@.len() == 7);
    }
    assert("blue"@ != "rev"@) by {
        reveal_strlit("blue");
        reveal_strlit("rev");
        assert("blue"@.len() == 4 && "rev"@.len() == 3);
    }
    assert("blue"@ != "conceal"@) by {
        reveal_strlit("blue");
        reveal_strlit("conceal");
        assert("blue"@.len() == 4 && "conceal"@.len() == 7);
    }
    assert("blue"@ != "hide"@) by {
        reveal_strlit("blue");
        reveal_strlit("hide");
        assert("blue"@[0] == 'b' && "hide"@[0] == 'h');
    }
    assert("blue"@ != "strike"@) by {
        reveal_strlit("blue");
        reveal_strlit("strike");
        assert("blue"@.len() == 4 && "strike"@.len() == 6);
    }
}

proof fn lemma_no_style_magenta()
    ensures
        style_index("magenta"@) is None,
{
    assert("magenta"@ != "strong"@) by {
        reveal_strlit("magenta");
        reveal_strlit("strong");
        assert("magenta"@.len() == 7 && "strong"@.len() == 6);
    }
    assert("magenta"@ != "s"@) by {
        reveal_strlit("magenta");
        reveal_strlit("s");
        assert("magenta"@.len() == 7 && "s"@.len() == 1);
    }
    assert("magenta"@ != "em"@) by {
        reveal_strlit("magenta");
        reveal_strlit("em");
        assert("magenta"@.len() == 7 && "em"@.len() == 2);
    }
    assert("magenta"@ != "bold"@) by {
        reveal_strlit("magenta");
        reveal_strlit("bold");
        assert("magenta"@.len() == 7 && "bold"@.len() == 4);
    }
    assert("magenta"@ != "dim"@) by {
        reveal_strlit("magenta");
        reveal_strlit("dim");
        assert("magenta"@.len() == 7 && "dim"@.len() == 3);
    }
    assert("magenta"@ != "italics"@) by {
        reveal_strlit("magenta");
        reveal_strlit("italics");
        assert("magenta"@[0] == 'm' && "italics"@[0] == 'i');
    }
    assert("magenta"@ != "i"@) by {
        reveal_strlit("magenta");
        reveal_strlit("i");
        assert("magenta"@.len() == 7 && "i"@.len() == 1);
    }
    assert("magenta"@ != "italic"@) by {
        reveal_strlit("magenta");
        reveal_strlit("italic");
        assert("magenta"@.len() == 7 && "italic"@.len() == 6);
    }
    assert("magenta"@ != "underline"@) by {
        reveal_strlit("magenta");
        reveal_strlit("underline");
        assert("magenta"@.len() == 7 && "underline"@.len() == 9);
    }
    assert("magenta"@ != "u"@) by {
        reveal_strlit("magenta");
        reveal_strlit("u");
        assert("magenta"@.len() == 7 && "u"@.len() == 1);
    }
    assert("magenta"@ != "blink"@) by {
        reveal_strlit("magenta");
        reveal_strlit("blink");
        assert("magenta"@.len() == 7 && "blink"@.len() == 5);
    }
    assert("magenta"@ != "reverse"@) by {
        reveal_strlit("magenta");
        reveal_strlit("reverse");
        assert("magenta"@[0] == 'm' && "reverse"@[0] == 'r');
    }
    assert("magenta"@ != "rev"@) by {
        reveal_strlit("magenta");
        reveal_strlit("rev");
        assert("magenta"@.len() == 7 && "rev"@.len() == 3);
    }
    assert("magenta"@ != "conceal"@) by {
        reveal_strlit("magenta");
        reveal_strlit("conceal");
        assert("magenta"@[0] == 'm' && "conceal"@[0] == 'c');
    }
    assert("magenta"@ != "hide"@) by {
        reveal_strlit("magenta");
        reveal_strlit("hide");
        assert("magenta"@.len() == 7 && "hide"@.len() == 4);
    }
    assert("magenta"@ != "strike"@) by {
        reveal_strlit("magenta");
        reveal_strlit("strike");
        assert("magenta"@.len() == 7 && "strike"@.len() == 6);
    }
}

proof fn lemma_no_style_cyan()
    ensures
        style_index("cyan"@) is None,
{
    assert("cyan"@ != "strong"@) by {
        reveal_strlit("cyan");
        reveal_strlit("strong");
        assert("cyan"@.len() == 4 && "strong"@.len() == 6);
    }
    assert("cyan"@ != "s"@) by {
        reveal_strlit("cyan");
        reveal_strlit("s");
        assert("cyan"@.len() == 4 && "s"@.len() == 1);
    }
    assert("cyan"@ != "em"@) by {
        reveal_strlit("cyan");
        reveal_strlit("em");
        assert("cyan"@.len() == 4 && "em"@.len() == 2);
    }
    assert("cyan"@ != "bold"@) by {
        reveal_strlit("cyan");
        reveal_strlit("bold");
        assert("cyan"@[0] == 'c' && "bold"@[0] == 'b');
    }
    assert("cyan"@ != "dim"@) by {
        reveal_strlit("cyan");
        reveal_strlit("dim");
        assert("cyan"@.len() == 4 && "dim"@.len() == 3);
    }
    assert("cyan"@ != "italics"@) by {
        reveal_strlit("cyan");
        reveal_strlit("italics");
        assert("cyan"@.len() == 4 && "italics"@.len() == 7);
    }
    assert("cyan"@ != "i"@) by {
        reveal_strlit("cyan");
        reveal_strlit("i");
        assert("cyan"@.len() == 4 && "i"@.len() == 1);
    }
    assert("cyan"@ != "italic"@) by {
        reveal_strlit("cyan");
        reveal_strlit("italic");
        assert("cyan"@.len() == 4 && "italic"@.len() == 6);
    }
    assert("cyan"@ != "underline"@) by {
        reveal_strlit("cyan");
        reveal_strlit("underline");
        assert("cyan"@.len() == 4 && "underline"@.len() == 9);
    }
    assert("cyan"@ != "u"@) by {
        reveal_strlit("cyan");
        reveal_strlit("u");
        assert("cyan"@.len() == 4 && "u"@.len() == 1);
    }
    assert("cyan"@ != "blink"@) by {
        reveal_strlit("cyan");
        reveal_strlit("blink");
        assert("cyan"@.len() == 4 && "blink"@.len() == 5);
    }
    assert("cyan"@ != "reverse"@) by {
        reveal_strlit("cyan");
        reveal_strlit("reverse");
        assert("cyan"@.len() == 4 && "reverse"@.len() == 7);
    }
    assert("cyan"@ != "rev"@) by {
        reveal_strlit("cyan");
        reveal_strlit("rev");
        assert("cyan"@.len() == 4 && "rev"@.len() == 3);
    }
    assert("cyan"@ != "conceal"@) by {
        reveal_strlit("cyan");
        reveal_strlit("conceal");
        assert("cyan"@.len() == 4 && "conceal"@.len() == 7);
    }
    assert("cyan"@ != "hide"@) by {
        reveal_strlit("cyan");
        reveal_strlit("hide");
        assert("cyan"@[0] == 'c' && "hide"@[0] == 'h');
    }
    assert("cyan"@ != "strike"@) by {
        reveal_strlit("cyan");
        reveal_strlit("strike");
        assert("cyan"@.len() == 4 && "strike"@.len() == 6);
    }
}

proof fn lemma_no_style_white()
    ensures
        style_index("white"@) is None,
{
    assert("white"@ != "strong"@) by {
        reveal_strlit("white");
        reveal_strlit("strong");
        assert("white"@.len() == 5 && "strong"@.len() == 6);
    }
    assert("white"@ != "s"@) by {
        reveal_strlit("white");
        reveal_strlit("s");
        assert("white"@.len() == 5 && "s"@.len() == 1);
    }
    assert("white"@ != "em"@) by {
        reveal_strlit("white");
        reveal_strlit("em");
        assert("white"@.len() == 5 && "em"@.len() == 2);
    }
    assert("white"@ != "bold"@) by {
        reveal_strlit("white");
        reveal_strlit("bold");
        assert("white"@.len() == 5 && "bold"@.len() == 4);
    }
    assert("white"@ != "dim"@) by {
        reveal_strlit("white");
        reveal_strlit("dim");
        assert("white"@.len() == 5 && "dim"@.len() == 3);
    }
    assert("white"@ != "italics"@) by {
        reveal_strlit("white");
        reveal_strlit("italics");
        assert("white"@.len() == 5 && "italics"@.len() == 7);
    }
    assert("white"@ != "i"@) by {
        reveal_strlit("white");
        reveal_strlit("i");
        assert("white"@.len() == 5 && "i"@.len() == 1);
    }
    assert("white"@ != "italic"@) by {
        reveal_strlit("white");
        reveal_strlit("italic");
        assert("white"@.len() == 5 && "italic"@.len() == 6);
    }
    assert("white"@ != "underline"@) by {
        reveal_strlit("white");
        reveal_strlit("underline");
        assert("white"@.len() == 5 && "underline"@.len() == 9);
    }
    assert("white"@ != "u"@) by {
        reveal_strlit("white");
        reveal_strlit("u");
        assert("white"@.len() == 5 && "u"@.len() == 1);
    }
    assert("white"@ != "blink"@) by {
        reveal_strlit("white");
        reveal_strlit("blink");
        assert("white"@[0] == 'w' && "blink"@[0] == 'b');
    }
    assert("white"@ != "reverse"@) by {
        reveal_strlit("white");
        reveal_strlit("reverse");
        assert("white"@.len() == 5 && "reverse"@.len() == 7);
    }
    assert("white"@ != "rev"@) by {
        reveal_strlit("white");
        reveal_strlit("rev");
        assert("white"@.len() == 5 && "rev"@.len() == 3);
    }
    assert("white"@ != "conceal"@) by {
        reveal_strlit("white");
        reveal_strlit("conceal");
        assert("white"@.len() == 5 && "conceal"@.len() == 7);
    }
    assert("white"@ != "hide"@) by {
        reveal_strlit("white");
        reveal_strlit("hide");
        assert("white"@.len() == 5 && "hide"@.len() == 4);
    }
    assert("white"@ != "strike"@) by {
        reveal_strlit("white");
        reveal_strlit("strike");
        assert("white"@.len() == 5 && "strike"@.len() == 6);
    }
}

proof fn lemma_no_style_short_k()
    ensures
        style_index("k"@) is None,
{
    assert("k"@ != "strong"@) by {
        reveal_strlit("k");
        reveal_strlit("strong");
        assert("k"@.len() == 1 && "strong"@.len() == 6);
    }
    assert("k"@ != "s"@) by {
        reveal_strlit("k");
        reveal_strlit("s");
        assert("k"@[0] == 'k' && "s"@[0] == 's');
    }
    assert("k"@ != "em"@) by {
        reveal_strlit("k");
        reveal_strlit("em");
        assert("k"@.len() == 1 && "em"@.len() == 2);
    }
    assert("k"@ != "bold"@) by {
        reveal_strlit("k");
        reveal_strlit("bold");
        assert("k"@.len() == 1 && "bold"@.len() == 4);
    }
    assert("k"@ != "dim"@) by {
        reveal_strlit("k");
        reveal_strlit("dim");
        assert("k"@.len() == 1 && "dim"@.len() == 3);
    }
    assert("k"@ != "italics"@) by {
        reveal_strlit("k");
        reveal_strlit("italics");
        assert("k"@.len() == 1 && "italics"@.len() == 7);
    }
    assert("k"@ != "i"@) by {
        reveal_strlit("k");
        reveal_strlit("i");
        assert("k"@[0] == 'k' && "i"@[0] == 'i');
    }
    assert("k"@ != "italic"@) by {
        reveal_strlit("k");
        reveal_strlit("italic");
        assert("k"@.len() == 1 && "italic"@.len() == 6);
    }
    assert("k"@ != "underline"@) by {
        reveal_strlit("k");
        reveal_strlit("underline");
        assert("k"@.len() == 1 && "underline"@.len() == 9);
    }
    assert("k"@ != "u"@) by {
        reveal_strlit("k");
        reveal_strlit("u");
        assert("k"@[0] == 'k' && "u"@[0] == 'u');
    }
    assert("k"@ != "blink"@) by {
        reveal_strlit("k");
        reveal_strlit("blink");
        assert("k"@.len() == 1 && "blink"@.len() == 5);
    }
    assert("k"@ != "reverse"@) by {
        reveal_strlit("k");
        reveal_strlit("reverse");
        assert("k"@.len() == 1 && "reverse"@.len() == 7);
    }
    assert("k"@ != "rev"@) by {
        reveal_strlit("k");
        reveal_strlit("rev");
        assert("k"@.len() == 1 && "rev"@.len() == 3);
    }
    assert("k"@ != "conceal"@) by {
        reveal_strlit("k");
        reveal_strlit("conceal");
        assert("k"@.len() == 1 && "conceal"@.len() == 7);
    }
    assert("k"@ != "hide"@) by {
        reveal_strlit("k");
        reveal_strlit("hide");
        assert("k"@.len() == 1 && "hide"@.len() == 4);
    }
    assert("k"@ != "strike"@) by {
        reveal_strlit("k");
        reveal_strlit("strike");
        assert("k"@.len() == 1 && "strike"@.len() == 6);
    }
}

proof fn lemma_no_style_short_r()
    ensures
        style_index("r"@) is None,
{
    assert("r"@ != "strong"@) by {
        reveal_strlit("r");
        reveal_strlit("strong");
        assert("r"@.len() == 1 && "strong"@.len() == 6);
    }
    assert("r"@ != "s"@) by {
        reveal_strlit("r");
        reveal_strlit("s");
        assert("r"@[0] == 'r' && "s"@[0] == 's');
    }
    assert("r"@ != "em"@) by {
        reveal_strlit("r");
        reveal_strlit("em");
        assert("r"@.len() == 1 && "em"@.len() == 2);
    }
    assert("r"@ != "bold"@) by {
        reveal_strlit("r");
        reveal_strlit("bold");
        assert("r"@.len() == 1 && "bold"@.len() == 4);
    }
    assert("r"@ != "dim"@) by {
        reveal_strlit("r");
        reveal_strlit("dim");
        assert("r"@.len() == 1 && "dim"@.len() == 3);
    }
    assert("r"@ != "italics"@) by {
        reveal_strlit("r");
        reveal_strlit("italics");
        assert("r"@.len() == 1 && "italics"@.len() == 7);
    }
    assert("r"@ != "i"@) by {
        reveal_strlit("r");
        reveal_strlit("i");
        assert("r"@[0] == 'r' && "i"@[0] == 'i');
    }
    assert("r"@ != "italic"@) by {
        reveal_strlit("r");
        reveal_strlit("italic");
        assert("r"@.len() == 1 && "italic"@.len() == 6);
    }
    assert("r"@ != "underline"@) by {
        reveal_strlit("r");
        reveal_strlit("underline");
        assert("r"@.len() == 1 && "underline"@.len() == 9);
    }
    assert("r"@ != "u"@) by {
        reveal_strlit("r");
        reveal_strlit("u");
        assert("r"@[0] == 'r' && "u"@[0] == 'u');
    }
    assert("r"@ != "blink"@) by {
        reveal_strlit("r");
        reveal_strlit("blink");
        assert("r"@.len() == 1 && "blink"@.len() == 5);
    }
    assert("r"@ != "reverse"@) by {
        reveal_strlit("r");
        reveal_strlit("reverse");
        assert("r"@.len() == 1 && "reverse"@.len() == 7);
    }
    assert("r"@ != "rev"@) by {
        reveal_strlit("r");
        reveal_strlit("rev");
        assert("r"@.len() == 1 && "rev"@.len() == 3);
    }
    assert("r"@ != "conceal"@) by {
        reveal_strlit("r");
        reveal_strlit("conceal");
        assert("r"@.len() == 1 && "conceal"@.len() == 7);
    }
    assert("r"@ != "hide"@) by {
        reveal_strlit("r");
        reveal_strlit("hide");
        assert("r"@.len() == 1 && "hide"@.len() == 4);
    }
    assert("r"@ != "strike"@) by {
        reveal_strlit("r");
        reveal_strlit("strike");
        assert("r"@.len() == 1 && "strike"@.len() == 6);
    }
}

proof fn lemma_no_style_short_g()
    ensures
        style_index("g"@) is None,
{
    assert("g"@ != "strong"@) by {
        reveal_strlit("g");
        reveal_strlit("strong");
        assert("g"@.len() == 1 && "strong"@.len() == 6);
    }
    assert("g"@ != "s"@) by {
        reveal_strlit("g");
        reveal_strlit("s");
        assert("g"@[0] == 'g' && "s"@[0] == 's');
    }
    assert("g"@ != "em"@) by {
        reveal_strlit("g");
        reveal_strlit("em");
        assert("g"@.len() == 1 && "em"@.len() == 2);
    }
    assert("g"@ != "bold"@) by {
        reveal_strlit("g");
        reveal_strlit("bold");
        assert("g"@.len() == 1 && "bold"@.len() == 4);
    }
    assert("g"@ != "dim"@) by {
        reveal_strlit("g");
        reveal_strlit("dim");
        assert("g"@.len() == 1 && "dim"@.len() == 3);
    }
    assert("g"@ != "italics"@) by {
        reveal_strlit("g");
        reveal_strlit("italics");
        assert("g"@.len() == 1 && "italics"@.len() == 7);
    }
    assert("g"@ != "i"@) by {
        reveal_strlit("g");
        reveal_strlit("i");
        assert("g"@[0] == 'g' && "i"@[0] == 'i');
    }
    assert("g"@ != "italic"@) by {
        reveal_strlit("g");
        reveal_strlit("italic");
        assert("g"@.len() == 1 && "italic"@.len() == 6);
    }
    assert("g"@ != "underline"@) by {
        reveal_strlit("g");
        reveal_strlit("underline");
        assert("g"@.len() == 1 && "underline"@.len() == 9);
    }
    assert("g"@ != "u"@) by {
        reveal_strlit("g");
        reveal_strlit("u");
        assert("g"@[0] == 'g' && "u"@[0] == 'u');
    }
    assert("g"@ != "blink"@) by {
        reveal_strlit("g");
        reveal_strlit("blink");
        assert("g"@.len() == 1 && "blink"@.len() == 5);
    }
    assert("g"@ != "reverse"@) by {
        reveal_strlit("g");
        reveal_strlit("reverse");
        assert("g"@.len() == 1 && "reverse"@.len() == 7);
    }
    assert("g"@ != "rev"@) by {
        reveal_strlit("g");
        reveal_strlit("rev");
        assert("g"@.len() == 1 && "rev"@.len() == 3);
    }
    assert("g"@ != "conceal"@) by {
        reveal_strlit("g");
        reveal_strlit("conceal");
        assert("g"@.len() == 1 && "conceal"@.len() == 7);
    }
    assert("g"@ != "hide"@) by {
        reveal_strlit("g");
        reveal_strlit("hide");
        assert("g"@.len() == 1 && "hide"@.len() == 4);
    }
    assert("g"@ != "strike"@) by {
        reveal_strlit("g");
        reveal_strlit("strike");
        assert("g"@.len() == 1 && "strike"@.len() == 6);
    }
}

proof fn lemma_no_style_short_y()
    ensures
        style_index("y"@) is None,
{
    assert("y"@ != "strong"@) by {
        reveal_strlit("y");
        reveal_strlit("strong");
        assert("y"@.len() == 1 && "strong"@.len() == 6);
    }
    assert("y"@ != "s"@) by {
        reveal_strlit("y");
        reveal_strlit("s");
        assert("y"@[0] == 'y' && "s"@[0] == 's');
    }
    assert("y"@ != "em"@) by {
        reveal_strlit("y");
        reveal_strlit("em");
        assert("y"@.len() == 1 && "em"@.len() == 2);
    }
    assert("y"@ != "bold"@) by {
        reveal_strlit("y");
        reveal_strlit("bold");
        assert("y"@.len() == 1 && "bold"@.len() == 4);
    }
    assert("y"@ != "dim"@) by {
        reveal_strlit("y");
        reveal_strlit("dim");
        assert("y"@.len() == 1 && "dim"@.len() == 3);
    }
    assert("y"@ != "italics"@) by {
        reveal_strlit("y");
        reveal_strlit("italics");
        assert("y"@.len() == 1 && "italics"@.len() == 7);
    }
    assert("y"@ != "i"@) by {
        reveal_strlit("y");
        reveal_strlit("i");
        assert("y"@[0] == 'y' && "i"@[0] == 'i');
    }
    assert("y"@ != "italic"@) by {
        reveal_strlit("y");
        reveal_strlit("italic");
        assert("y"@.len() == 1 && "italic"@.len() == 6);
    }
    assert("y"@ != "underline"@) by {
        reveal_strlit("y");
        reveal_strlit("underline");
        assert("y"@.len() == 1 && "underline"@.len() == 9);
    }
    assert("y"@ != "u"@) by {
        reveal_strlit("y");
        reveal_strlit("u");
        assert("y"@[0] == 'y' && "u"@[0] == 'u');
    }
    assert("y"@ != "blink"@) by {
        reveal_strlit("y");
        reveal_strlit("blink");
        assert("y"@.len() == 1 && "blink"@.len() == 5);
    }
    assert("y"@ != "reverse"@) by {
        reveal_strlit("y");
        reveal_strlit("reverse");
        assert("y"@.len() == 1 && "reverse"@.len() == 7);
    }
    assert("y"@ != "rev"@) by {
        reveal_strlit("y");
        reveal_strlit("rev");
        assert("y"@.len() == 1 && "rev"@.len() == 3);
    }
    assert("y"@ != "conceal"@) by {
        reveal_strlit("y");
        reveal_strlit("conceal");
        assert("y"@.len() == 1 && "conceal"@.len() == 7);
    }
    assert("y"@ != "hide"@) by {
        reveal_strlit("y");
        reveal_strlit("hide");
        assert("y"@.len() == 1 && "hide"@.len() == 4);
    }
    assert("y"@ != "strike"@) by {
        reveal_strlit("y");
        reveal_strlit("strike");
        assert("y"@.len() == 1 && "strike"@.len() == 6);
    }
}

proof fn lemma_no_style_short_b()
    ensures
        style_index("b"@) is None,
{
    assert("b"@ != "strong"@) by {
        reveal_strlit("b");
        reveal_strlit("strong");
        assert("b"@.len() == 1 && "strong"@.len() == 6);
    }
    assert("b"@ != "s"@) by {
        reveal_strlit("b");
        reveal_strlit("s");
        assert("b"@[0] == 'b' && "s"@[0] == 's');
    }
    assert("b"@ != "em"@) by {
        reveal_strlit("b");
        reveal_strlit("em");
        assert("b"@.len() == 1 && "em"@.len() == 2);
    }
    assert("b"@ != "bold"@) by {
        reveal_strlit("b");
        reveal_strlit("bold");
        assert("b"@.len() == 1 && "bold"@.len() == 4);
    }
    assert("b"@ != "dim"@) by {
        reveal_strlit("b");
        reveal_strlit("dim");
        assert("b"@.len() == 1 && "dim"@.len() == 3);
    }
    assert("b"@ != "italics"@) by {
        reveal_strlit("b");
        reveal_strlit("italics");
        assert("b"@.len() == 1 && "italics"@.len() == 7);
    }
    assert("b"@ != "i"@) by {
        reveal_strlit("b");
        reveal_strlit("i");
        assert("b"@[0] == 'b' && "i"@[0] == 'i');
    }
    assert("b"@ != "italic"@) by {
        reveal_strlit("b");
        reveal_strlit("italic");
        assert("b"@.len() == 1 && "italic"@.len() == 6);
    }
    assert("b"@ != "underline"@) by {
        reveal_strlit("b");
        reveal_strlit("underline");
        assert("b"@.len() == 1 && "underline"@.len() == 9);
    }
    assert("b"@ != "u"@) by {
        reveal_strlit("b");
        reveal_strlit("u");
        assert("b"@[0] == 'b' && "u"@[0] == 'u');
    }
    assert("b"@ != "blink"@) by {
        reveal_strlit("b");
        reveal_strlit("blink");
        assert("b"@.len() == 1 && "blink"@.len() == 5);
    }
    assert("b"@ != "reverse"@) by {
        reveal_strlit("b");
        reveal_strlit("reverse");
        assert("b"@.len() == 1 && "reverse"@.len() == 7);
    }
    assert("b"@ != "rev"@) by {
        reveal_strlit("b");
        reveal_strlit("rev");
        assert("b"@.len() == 1 && "rev"@.len() == 3);
    }
    assert("b"@ != "conceal"@) by {
        reveal_strlit("b");
        reveal_strlit("conceal");
        assert("b"@.len() == 1 && "conceal"@.len() == 7);
    }
    assert("b"@ != "hide"@) by {
        reveal_strlit("b");
        reveal_strlit("hide");
        assert("b"@.len() == 1 && "hide"@.len() == 4);
    }
    assert("b"@ != "strike"@) by {
        reveal_strlit("b");
        reveal_strlit("strike");
        assert("b"@.len() == 1 && "strike"@.len() == 6);
    }
}

proof fn lemma_no_style_short_m()
    ensures
        style_index("m"@) is None,
{
    assert("m"@ != "strong"@) by {
        reveal_strlit("m");
        reveal_strlit("strong");
        assert("m"@.len() == 1 && "strong"@.len() == 6);
    }
    assert("m"@ != "s"@) by {
        reveal_strlit("m");
        reveal_strlit("s");
        assert("m"@[0] == 'm' && "s"@[0] == 's');
    }
    assert("m"@ != "em"@) by {
        reveal_strlit("m");
        reveal_strlit("em");
        assert("m"@.len() == 1 && "em"@.len() == 2);
    }
    assert("m"@ != "bold"@) by {
        reveal_strlit("m");
        reveal_strlit("bold");
        assert("m"@.len() == 1 && "bold"@.len() == 4);
    }
    assert("m"@ != "dim"@) by {
        reveal_strlit("m");
        reveal_strlit("dim");
        assert("m"@.len() == 1 && "dim"@.len() == 3);
    }
    assert("m"@ != "italics"@) by {
        reveal_strlit("m");
        reveal_strlit("italics");
        assert("m"@.len() == 1 && "italics"@.len() == 7);
    }
    assert("m"@ != "i"@) by {
        reveal_strlit("m");
        reveal_strlit("i");
        assert("m"@[0] == 'm' && "i"@[0] == 'i');
    }
    assert("m"@ != "italic"@) by {
        reveal_strlit("m");
        reveal_strlit("italic");
        assert("m"@.len() == 1 && "italic"@.len() == 6);
    }
    assert("m"@ != "underline"@) by {
        reveal_strlit("m");
        reveal_strlit("underline");
        assert("m"@.len() == 1 && "underline"@.len() == 9);
    }
    assert("m"@ != "u"@) by {
        reveal_strlit("m");
        reveal_strlit("u");
        assert("m"@[0] == 'm' && "u"@[0] == 'u');
    }
    assert("m"@ != "blink"@) by {
        reveal_strlit("m");
        reveal_strlit("blink");
        assert("m"@.len() == 1 && "blink"@.len() == 5);
    }
    assert("m"@ != "reverse"@) by {
        reveal_strlit("m");
        reveal_strlit("reverse");
        assert("m"@.len() == 1 && "reverse"@.len() == 7);
    }
    assert("m"@ != "rev"@) by {
        reveal_strlit("m");
        reveal_strlit("rev");
        assert("m"@.len() == 1 && "rev"@.len() == 3);
    }
    assert("m"@ != "conceal"@) by {
        reveal_strlit("m");
        reveal_strlit("conceal");
        assert("m"@.len() == 1 && "conceal"@.len() == 7);
    }
    assert("m"@ != "hide"@) by {
        reveal_strlit("m");
        reveal_strlit("hide");
        assert("m"@.len() == 1 && "hide"@.len() == 4);
    }
    assert("m"@ != "strike"@) by {
        reveal_strlit("m");
        reveal_strlit("strike");
        assert("m"@.len() == 1 && "strike"@.len() == 6);
    }
}

proof fn lemma_no_style_short_c()
    ensures
        style_index("c"@) is None,
{
    assert("c"@ != "strong"@) by {
        reveal_strlit("c");
        reveal_strlit("strong");
        assert("c"@.len() == 1 && "strong"@.len() == 6);
    }
    assert("c"@ != "s"@) by {
        reveal_strlit("c");
        reveal_strlit("s");
        assert("c"@[0] == 'c' && "s"@[0] == 's');
    }
    assert("c"@ != "em"@) by {
        reveal_strlit("c");
        reveal_strlit("em");
        assert("c"@.len() == 1 && "em"@.len() == 2);
    }
    assert("c"@ != "bold"@) by {
        reveal_strlit("c");
        reveal_strlit("bold");
        assert("c"@.len() == 1 && "bold"@.len() == 4);
    }
    assert("c"@ != "dim"@) by {
        reveal_strlit("c");
        reveal_strlit("dim");
        assert("c"@.len() == 1 && "dim"@.len() == 3);
    }
    assert("c"@ != "italics"@) by {
        reveal_strlit("c");
        reveal_strlit("italics");
        assert("c"@.len() == 1 && "italics"@.len() == 7);
    }
    assert("c"@ != "i"@) by {
        reveal_strlit("c");
        reveal_strlit("i");
        assert("c"@[0] == 'c' && "i"@[0] == 'i');
    }
    assert("c"@ != "italic"@) by {
        reveal_strlit("c");
        reveal_strlit("italic");
        assert("c"@.len() == 1 && "italic"@.len() == 6);
    }
    assert("c"@ != "underline"@) by {
        reveal_strlit("c");
        reveal_strlit("underline");
        assert("c"@.len() == 1 && "underline"@.len() == 9);
    }
    assert("c"@ != "u"@) by {
        reveal_strlit("c");
        reveal_strlit("u");
        assert("c"@[0] == 'c' && "u"@[0] == 'u');
    }
    assert("c"@ != "blink"@) by {
        reveal_strlit("c");
        reveal_strlit("blink");
        assert("c"@.len() == 1 && "blink"@.len() == 5);
    }
    assert("c"@ != "reverse"@) by {
        reveal_strlit("c");
        reveal_strlit("reverse");
        assert("c"@.len() == 1 && "reverse"@.len() == 7);
    }
    assert("c"@ != "rev"@) by {
        reveal_strlit("c");
        reveal_strlit("rev");
        assert("c"@.len() == 1 && "rev"@.len() == 3);
    }
    assert("c"@ != "conceal"@) by {
        reveal_strlit("c");
        reveal_strlit("conceal");
        assert("c"@.len() == 1 && "conceal"@.len() == 7);
    }
    assert("c"@ != "hide"@) by {
        reveal_strlit("c");
        reveal_strlit("hide");
        assert("c"@.len() == 1 && "hide"@.len() == 4);
    }
    assert("c"@ != "strike"@) by {
        reveal_strlit("c");
        reveal_strlit("strike");
        assert("c"@.len() == 1 && "strike"@.len() == 6);
    }
}

proof fn lemma_no_style_short_w()
    ensures
        style_index("w"@) is None,
{
    assert("w"@ != "strong"@) by {
        reveal_strlit("w");
        reveal_strlit("strong");
        assert("w"@.len() == 1 && "strong"@.len() == 6);
    }
    assert("w"@ != "s"@) by {
        reveal_strlit("w");
        reveal_strlit("s");
        assert("w"@[0] == 'w' && "s"@[0] == 's');
    }
    assert("w"@ != "em"@) by {
        reveal_strlit("w");
        reveal_strlit("em");
        assert("w"@.len() == 1 && "em"@.len() == 2);
    }
    assert("w"@ != "bold"@) by {
        reveal_strlit("w");
        reveal_strlit("bold");
        assert("w"@.len() == 1 && "bold"@.len() == 4);
    }
    assert("w"@ != "dim"@) by {
        reveal_strlit("w");
        reveal_strlit("dim");
        assert("w"@.len() == 1 && "dim"@.len() == 3);
    }
    assert("w"@ != "italics"@) by {
        reveal_strlit("w");
        reveal_strlit("italics");
        assert("w"@.len() == 1 && "italics"@.len() == 7);
    }
    assert("w"@ != "i"@) by {
        reveal_strlit("w");
        reveal_strlit("i");
        assert("w"@[0] == 'w' && "i"@[0] == 'i');
    }
    assert("w"@ != "italic"@) by {
        reveal_strlit("w");
        reveal_strlit("italic");
        assert("w"@.len() == 1 && "italic"@.len() == 6);
    }
    assert("w"@ != "underline"@) by {
        reveal_strlit("w");
        reveal_strlit("underline");
        assert("w"@.len() == 1 && "underline"@.len() == 9);
    }
    assert("w"@ != "u"@) by {
        reveal_strlit("w");
        reveal_strlit("u");
        assert("w"@[0] == 'w' && "u"@[0] == 'u');
    }
    assert("w"@ != "blink"@) by {
        reveal_strlit("w");
        reveal_strlit("blink");
        assert("w"@.len() == 1 && "blink"@.len() == 5);
    }
    assert("w"@ != "reverse"@) by {
        reveal_strlit("w");
        reveal_strlit("reverse");
        assert("w"@.len() == 1 && "reverse"@.len() == 7);
    }
    assert("w"@ != "rev"@) by {
        reveal_strlit("w");
        reveal_strlit("rev");
        assert("w"@.len() == 1 && "rev"@.len() == 3);
    }
    assert("w"@ != "conceal"@) by {
        reveal_strlit("w");
        reveal_strlit("conceal");
        assert("w"@.len() == 1 && "conceal"@.len() == 7);
    }
    assert("w"@ != "hide"@) by {
        reveal_strlit("w");
        reveal_strlit("hide");
        assert("w"@.len() == 1 && "hide"@.len() == 4);
    }
    assert("w"@ != "strike"@) by {
        reveal_strlit("w");
        reveal_strlit("strike");
        assert("w"@.len() == 1 && "strike"@.len() == 6);
    }
}

proof fn lemma_color_names_are_no_styles(t: Seq<char>)
    requires
        base_index(t) is Some,
    ensures
        style_index(t) is None,
        link_item(t) is None,
{
    reveal_strlit("link(");
    assert("link("@.len() == 5 && "link("@[0] == 'l');
    if t == "black"@ {
        lemma_no_style_black();
        reveal_strlit("black");
        assert("black"@.len() == 5 && "black"@[0] == 'b');
    }
    if t == "red"@ {
        lemma_no_style_red();
        reveal_strlit("red");
        assert("red"@.len() == 3 && "red"@[0] == 'r');
    }
    if t == "green"@ {
        lemma_no_style_green();
        reveal_strlit("green");
        assert("green"@.len() == 5 && "green"@[0] == 'g');
    }
    if t == "yellow"@ {
        lemma_no_style_yellow();
        reveal_strlit("yellow");
        assert("yellow"@.len() == 6 && "yellow"@[0] == 'y');
    }
    if t == "blue"@ {
        lemma_no_style_blue();
        reveal_strlit("blue");
        assert("blue"@.len() == 4 && "blue"@[0] == 'b');
    }
    if t == "magenta"@ {
        lemma_no_style_magenta();
        reveal_strlit("magenta");
        assert("magenta"@.len() == 7 && "magenta"@[0] == 'm');
    }
    if t == "cyan"@ {
        lemma_no_style_cyan();
        reveal_strlit("cyan");
        assert("cyan"@.len() == 4 && "cyan"@[0] == 'c');
    }
    if t == "white"@ {
        lemma_no_style_white();
        reveal_strlit("white");
        assert("white"@.len() == 5 && "white"@[0] == 'w');
    }
    if t == "k"@ {
        lemma_no_style_short_k();
        reveal_strlit("k");
        assert("k"@.len() == 1 && "k"@[0] == 'k');
    }
    if t == "r"@ {
        lemma_no_style_short_r();
        reveal_strlit("r");
        assert("r"@.len() == 1 && "r"@[0] == 'r');
    }
    if t == "g"@ {
        lemma_no_style_short_g();
        reveal_strlit("g");
        assert("g"@.len() == 1 && "g"@[0] == 'g');
    }
    if t == "y"@ {
        lemma_no_style_short_y();
        reveal_strlit("y");
        assert("y"@.len() == 1 && "y"@[0] == 'y');
    }
    if t == "b"@ {
        lemma_no_style_short_b();
        reveal_strlit("b");
        assert("b"@.len() == 1 && "b"@[0] == 'b');
    }
    if t == "m"@ {
        lemma_no_style_short_m();
        reveal_strlit("m");
        assert("m"@.len() == 1 && "m"@[0] == 'm');
    }
    if t == "c"@ {
        lemma_no_style_short_c();
        reveal_strlit("c");
        assert("c"@.len() == 1 && "c"@[0] == 'c');
    }
    if t == "w"@ {
        lemma_no_style_short_w();
        reveal_strlit("w");
        assert("w"@.len() == 1 && "w"@[0] == 'w');
    }
}

/// A color's long name and its one-letter shortcut (`k` for black) set the same foreground.
pub proof fn law_color_names(t: Seq<char>)
    requires
        base_index(t) is Some,
    ensures
        item_attrs(t) == Some(fg_attrs(Color::Ansi(base_index(t)->0))),
{
    lemma_color_names_are_no_styles(t);
}


proof fn lemma_prefix_literals()
    ensures
        "link("@.len() == 5 && "link("@[0] == 'l',
        "bright-"@.len() == 7 && "bright-"@[0] == 'b' && "bright-"@[1] == 'r' && "bright-"@[6]
            == '-',
        "bg:"@.len() == 3 && "bg:"@[0] == 'b' && "bg:"@[1] == 'g' && "bg:"@[2] == ':',
        "palette("@.len() == 8 && "palette("@[0] == 'p' && "palette("@[1] == 'a' && "palette("@[3]
            == 'e' && "palette("@[7] == '(',
        "pal("@.len() == 4 && "pal("@[0] == 'p' && "pal("@[1] == 'a' && "pal("@[3] == '(',
        "p("@.len() == 2 && "p("@[0] == 'p' && "p("@[1] == '(',
        "rgb("@.len() == 4 && "rgb("@[0] == 'r',
{
    reveal_strlit("link(");
    reveal_strlit("bright-");
    reveal_strlit("bg:");
    reveal_strlit("palette(");
    reveal_strlit("pal(");
    reveal_strlit("p(");
    reveal_strlit("rgb(");
}

/// A name or shortcut followed by `!`, and `bright-` followed by a name, set the bright
/// variant of the color as the foreground.
pub proof fn law_bright_colors(u: Seq<char>)
    requires
        base_index(u) is Some,
    ensures
        item_attrs(u.push('!')) == Some(fg_attrs(Color::Ansi((base_index(u)->0 + 8) as u8))),
        long_name_index(u) is Some ==> item_attrs("bright-"@ + u) == Some(
            fg_attrs(Color::Ansi((base_index(u)->0 + 8) as u8)),
        ),
{
    lemma_prefix_literals();
    lemma_color_words();
    let t = u.push('!');
    assert(!lower_word(t)) by {
        assert(!is_lower(t[t.len() - 1]));
    }
    lemma_not_a_word(t);
    assert(t.drop_last() =~= u);
    if long_name_index(u) is Some {
        let t2 = "bright-"@ + u;
        assert(!lower_word(t2)) by {
            assert(t2[6] == '-');
        }
        lemma_not_a_word(t2);
        assert(lower_word(u));
        assert(t2.last() == u.last());
        assert(is_lower(u[u.len() - 1]));
        assert(t2.subrange(0, 7) =~= "bright-"@);
        assert(t2.skip(7) =~= u);
        assert(long_name_index(u) == base_index(u));
    }
}


/// `bg:` in front of any foreground spelling sets that color as the background.
pub proof fn law_bg_prefix(u: Seq<char>)
    requires
        fg_color(u) is Some,
    ensures
        item_attrs("bg:"@ + u) == Some(bg_attrs(fg_color(u)->0)),
{
    lemma_prefix_literals();
    let t = "bg:"@ + u;
    assert(t[0] == 'b' && t[1] == 'g' && t[2] == ':');
    assert(!lower_word(t)) by {
        assert(!is_lower(t[2]));
    }
    lemma_not_a_word(t);
    if t.len() > 0 && t.last() == '!' {
        let d = t.drop_last();
        assert(d.len() >= 3);
        assert(!lower_word(d)) by {
            assert(d[2] == ':');
        }
        lemma_not_a_word(d);
    }
    if t.len() > 5 {
        assert(t.subrange(0, 5)[0] != "link("@[0]);
    }
    if t.len() >= 7 {
        assert(t.subrange(0, 7)[1] != "bright-"@[1]);
    }
    if t.len() >= 8 {
        assert(t.subrange(0, 8)[0] != "palette("@[0]);
    }
    if t.len() >= 4 {
        assert(t.subrange(0, 4)[0] != "pal("@[0]);
        assert(t.subrange(0, 4)[0] != "rgb("@[0]);
    }
    assert(t.subrange(0, 2)[0] != "p("@[0]);
    assert(palette_arg(t) is None);
    assert(call_arg(t, "rgb("@) is None);
    assert(small_number(t) is None) by {
        lemma_skip_spaces(t, 0, t.len() as int);
        let a = skip_spaces(t, 0, t.len() as int);
        assert(a == 0);
        lemma_drop_spaces(t, a, t.len() as int);
        let e = drop_spaces(t, a, t.len() as int);
        assert(e > 0);
        let v = trimmed(t);
        assert(v[0] == 'b');
        assert(!is_digit(v[0]));
    }
    assert(hex_color(t) is None);
    assert(fg_color(t) is None);
    assert(t.subrange(0, 3) =~= "bg:"@);
    assert(t.skip(3) =~= u);
    assert(link_item(t) is None);
}


pub open spec fn to_upper(c: char) -> char {
    if is_lower(c) {
        (c as u32 - 32) as char
    } else {
        c
    }
}

/// `t` in capitals.
pub open spec fn uppered(t: Seq<char>) -> Seq<char> {
    t.map_values(|c: char| to_upper(c))
}

/// A foreground spelling written in capitals (`RED`, `R!`, `BRIGHT-RED`, `P(42)`,
/// `RGB(1,2,3)`; it must hold a letter, and `#rrggbb` is a foreground in any case) sets that
/// color as the background.
pub proof fn law_capitals_are_backgrounds(u: Seq<char>)
    requires
        fg_color(u) is Some,
        forall|i: int| 0 <= i < u.len() ==> !is_upper(#[trigger] u[i]),
        exists|i: int| 0 <= i < u.len() && is_lower(#[trigger] u[i]),
        u.len() > 0 && u[0] != '#',
    ensures
        item_attrs(uppered(u)) == Some(bg_attrs(fg_color(u)->0)),
{
    lemma_prefix_literals();
    let t = uppered(u);
    let w = choose|i: int| 0 <= i < u.len() && is_lower(#[trigger] u[i]);
    assert(is_upper(t[w]));
    assert forall|i: int| 0 <= i < t.len() implies !is_lower(#[trigger] t[i]) by {
        assert(t[i] == to_upper(u[i]));
    }
    assert(lowered(t) =~= u) by {
        assert forall|i: int| 0 <= i < u.len() implies #[trigger] lowered(t)[i] == u[i] by {
            assert(t[i] == to_upper(u[i]));
        }
    }
    assert(upper_form(t));
    assert(!lower_word(t)) by {
        assert(!is_lower(t[w]));
    }
    lemma_not_a_word(t);
    if t.last() == '!' {
        assert(!lower_word(t.drop_last())) by {
            if t.drop_last().len() > 0 {
                assert(!is_lower(t.drop_last()[0]));
            }
        }
        lemma_not_a_word(t.drop_last());
    }
    assert(!is_lower(t[0]));
    assert(t[0] != '#');
    if t.len() > 5 {
        assert(t.subrange(0, 5)[0] != "link("@[0]);
    }
    if t.len() >= 7 {
        assert(t.subrange(0, 7)[0] != "bright-"@[0]);
    }
    if t.len() >= 8 {
        assert(t.subrange(0, 8)[0] != "palette("@[0]);
    }
    if t.len() >= 4 {
        assert(t.subrange(0, 4)[0] != "pal("@[0]);
        assert(t.subrange(0, 4)[0] != "rgb("@[0]);
    }
    if t.len() >= 3 {
        assert(t.subrange(0, 3)[0] != "bg:"@[0]);
    }
    if t.len() >= 2 {
        assert(t.subrange(0, 2)[0] != "p("@[0]);
    }
    assert(palette_arg(t) is None);
    assert(call_arg(t, "rgb("@) is None);
    assert(small_number(t) is None) by {
        lemma_skip_spaces(t, 0, t.len() as int);
        let a = skip_spaces(t, 0, t.len() as int);
        lemma_drop_spaces(t, a, t.len() as int);
        let e = drop_spaces(t, a, t.len() as int);
        assert(a <= w < e);
        let v = trimmed(t);
        assert(v[w - a] == t[w]);
        assert(!is_digit(v[w - a]));
    }
    assert(hex_color(t) is None);
    assert(fg_color(t) is None);
    assert(link_item(t) is None);
}


/// A decimal number from 0 to 255.
pub open spec fn palette_number(u: Seq<char>) -> bool {
    u.len() > 0 && all_digits(u) && crate::parse::tag::digits_value(u) <= 255
}

proof fn lemma_number_is_small(u: Seq<char>)
    requires
        palette_number(u),
    ensures
        small_number(u) == Some(crate::parse::tag::digits_value(u) as u8),
{
    lemma_skip_spaces(u, 0, u.len() as int);
    assert(!crate::parse::tag::is_space(u[0]));
    lemma_drop_spaces(u, 0, u.len() as int);
    assert(!crate::parse::tag::is_space(u[u.len() - 1]));
    assert(trimmed(u) =~= u);
}

proof fn lemma_call_form(p: Seq<char>, u: Seq<char>)
    requires
        palette_number(u),
        p.len() > 0 && p[0] == 'p' && p.last() == '(',
    ensures
        style_index(p + u + seq![')']) is None,
        link_item(p + u + seq![')']) is None,
        base_index(p + u + seq![')']) is None,
        (p + u + seq![')']).last() == ')',
        call_arg(p + u + seq![')'], p) == Some(u),
{
    lemma_prefix_literals();
    let t = p + u + seq![')'];
    assert(!lower_word(t)) by {
        assert(!is_lower(t[t.len() - 1]));
    }
    lemma_not_a_word(t);
    if t.len() > 5 {
        assert(t.subrange(0, 5)[0] != "link("@[0]);
    }
    assert(t.subrange(0, p.len() as int) =~= p);
    assert(t.subrange(p.len() as int, t.len() - 1) =~= u);
}

/// The spellings of a palette color: `n`, `p(n)`, `pal(n)` and `palette(n)` set the same
/// foreground.
pub proof fn law_palette_aliases(u: Seq<char>)
    requires
        palette_number(u),
    ensures
        item_attrs(u) == Some(fg_attrs(Color::Palette(crate::parse::tag::digits_value(u) as u8))),
        item_attrs("p("@ + u + seq![')']) == item_attrs(u),
        item_attrs("pal("@ + u + seq![')']) == item_attrs(u),
        item_attrs("palette("@ + u + seq![')']) == item_attrs(u),
{
    lemma_prefix_literals();
    lemma_number_is_small(u);
    assert(!lower_word(u)) by {
        assert(is_digit(u[0]));
    }
    lemma_not_a_word(u);
    assert(!is_lower(u[0]));
    if u.len() > 5 {
        assert(u.subrange(0, 5)[0] != "link("@[0]);
    }
    if u.len() >= 7 {
        assert(u.subrange(0, 7)[0] != "bright-"@[0]);
    }
    if u.len() >= 8 {
        assert(u.subrange(0, 8)[0] != "palette("@[0]);
    }
    if u.len() >= 4 {
        assert(u.subrange(0, 4)[0] != "pal("@[0]);
    }
    if u.len() >= 2 {
        assert(u.subrange(0, 2)[0] != "p("@[0]);
    }
    assert(palette_arg(u) is None);
    assert(is_digit(u[u.len() - 1]));
    assert(link_item(u) is None);
    assert(fg_color(u) == Some(Color::Palette(crate::parse::tag::digits_value(u) as u8)));

    let t1 = "p("@ + u + seq![')'];
    lemma_call_form("p("@, u);
    if t1.len() >= 8 {
        assert(t1.subrange(0, 8)[1] != "palette("@[1]);
    }
    if t1.len() >= 4 {
        assert(t1.subrange(0, 4)[1] != "pal("@[1]);
    }
    if t1.len() >= 7 {
        assert(t1.subrange(0, 7)[0] != "bright-"@[0]);
    }
    assert(palette_arg(t1) == Some(u));

    let t2 = "pal("@ + u + seq![')'];
    lemma_call_form("pal("@, u);
    if t2.len() >= 8 {
        assert(t2.subrange(0, 8)[3] != "palette("@[3]);
    }
    if t2.len() >= 7 {
        assert(t2.subrange(0, 7)[0] != "bright-"@[0]);
    }
    assert(palette_arg(t2) == Some(u));

    let t3 = "palette("@ + u + seq![')'];
    lemma_call_form("palette("@, u);
    assert(t3.subrange(0, 7)[0] != "bright-"@[0]);
    assert(palette_arg(t3) == Some(u));
}

/// A hexadecimal digit, in either case.
pub open spec fn is_hex(c: char) -> bool {
    ('0' <= c <= '9') || ('a' <= c <= 'f') || ('A' <= c <= 'F')
}

/// The number a hexadecimal digit stands for: `0` to `9`, then `a` (or `A`) to `f` (or `F`)
/// for ten to fifteen.
pub open spec fn digit_number(c: char) -> int {
    if '0' <= c <= '9' {
        c as int - '0' as int
    } else if 'a' <= c <= 'f' {
        c as int - 'a' as int + 10
    } else {
        c as int - 'A' as int + 10
    }
}

/// Every hexadecimal digit is read, in either case, as the number it stands for: a lowercase
/// letter and its capital are the same digit.
pub proof fn law_hex_digits(c: char)
    requires
        is_hex(c),
    ensures
        hex_value(c) is Some,
        hex_value(c)->0 == digit_number(c),
        hex_value(to_upper(c)) == hex_value(c),
        'a' <= c <= 'f' ==> 'A' <= to_upper(c) <= 'F' && digit_number(to_upper(c)) == digit_number(c),
{
    if 'a' <= c <= 'f' {
        assert(is_lower(c));
        assert(to_upper(c) as int == c as int - 32);
    }
}

/// `#` followed by six hexadecimal digits: a true color.
pub open spec fn hash_color(t: Seq<char>) -> bool {
    &&& t.len() == 7
    &&& t[0] == '#'
    &&& forall|i: int| 1 <= i < 7 ==> is_hex(#[trigger] t[i])
}

proof fn lemma_hash_color_item(t: Seq<char>)
    requires
        hash_color(t),
    ensures
        hex_color(t) is Some,
        item_attrs(t) == Some(fg_attrs(hex_color(t)->0)),
{
    lemma_prefix_literals();
    assert forall|i: int| 1 <= i < 7 implies hex_value(#[trigger] t[i]) is Some by {
        law_hex_digits(t[i]);
    }
    assert(hex_value(t[1]) is Some && hex_value(t[2]) is Some);
    assert(hex_value(t[3]) is Some && hex_value(t[4]) is Some);
    assert(hex_value(t[5]) is Some && hex_value(t[6]) is Some);
    assert(!is_lower(t[0]));
    assert(!lower_word(t));
    lemma_not_a_word(t);
    assert(is_hex(t[6]));
    assert(t.last() != '!');
    assert(t.subrange(0, 5)[0] != "link("@[0]);
    assert(t.subrange(0, 7)[0] != "bright-"@[0]);
    assert(t.subrange(0, 4)[0] != "pal("@[0]);
    assert(t.subrange(0, 4)[0] != "rgb("@[0]);
    assert(t.subrange(0, 3)[0] != "bg:"@[0]);
    assert(t.subrange(0, 2)[0] != "p("@[0]);
    assert(palette_arg(t) is None);
    assert(call_arg(t, "rgb("@) is None);
    assert(small_number(t) is None) by {
        lemma_skip_spaces(t, 0, t.len() as int);
        let a = skip_spaces(t, 0, t.len() as int);
        assert(a == 0);
        lemma_drop_spaces(t, a, t.len() as int);
        let v = trimmed(t);
        if v.len() > 0 {
            assert(v[0] == t[0]);
            assert(!is_digit(v[0]));
        }
    }
    assert(fg_color(t) == hex_color(t));
    assert(link_item(t) is None);
}

/// `#RRGGBB` sets the foreground to the true color whose red, green and blue are the numbers
/// that the pairs of digits stand for, and the digits may be written in either case: the same
/// color in capitals is the same foreground (not a background, as other capitals are).
pub proof fn law_hex_colors(t: Seq<char>)
    requires
        hash_color(t),
    ensures
        item_attrs(t) == Some(
            fg_attrs(
                Color::Rgb(
                    (digit_number(t[1]) * 16 + digit_number(t[2])) as u8,
                    (digit_number(t[3]) * 16 + digit_number(t[4])) as u8,
                    (digit_number(t[5]) * 16 + digit_number(t[6])) as u8,
                ),
            ),
        ),
        hash_color(uppered(t)),
        item_attrs(uppered(t)) == item_attrs(t),
{
    let u = uppered(t);
    assert forall|i: int| 1 <= i < 7 implies #[trigger] hex_value(t[i]) == Some(
        digit_number(t[i]) as u8,
    ) by {
        law_hex_digits(t[i]);
    }
    assert(u[0] == '#');
    assert forall|i: int| 1 <= i < 7 implies is_hex(#[trigger] u[i]) && hex_value(u[i])
        == hex_value(t[i]) by {
        assert(u[i] == to_upper(t[i]));
        law_hex_digits(t[i]);
    }
    assert(hex_value(t[1]) == Some(digit_number(t[1]) as u8));
    assert(hex_value(t[2]) == Some(digit_number(t[2]) as u8));
    assert(hex_value(t[3]) == Some(digit_number(t[3]) as u8));
    assert(hex_value(t[4]) == Some(digit_number(t[4]) as u8));
    assert(hex_value(t[5]) == Some(digit_number(t[5]) as u8));
    assert(hex_value(t[6]) == Some(digit_number(t[6]) as u8));
    assert(hex_value(u[1]) == hex_value(t[1]) && hex_value(u[2]) == hex_value(t[2]));
    assert(hex_value(u[3]) == hex_value(t[3]) && hex_value(u[4]) == hex_value(t[4]));
    assert(hex_value(u[5]) == hex_value(t[5]) && hex_value(u[6]) == hex_value(t[6]));
    lemma_hash_color_item(t);
    lemma_hash_color_item(u);
}

} // verus!
