//! Terminal colors and styles written with an HTML-like tag syntax, turned into ANSI escape
//! sequences.
//!
//! The library turns tag markup (`"<red>Hi</red>"`) into the escape sequences that a
//! terminal understands (`"\u{1b}[31mHi\u{1b}[39m"`), emitting only the codes that change the
//! current style. Format strings keep their `{..}` placeholders untouched, so that the result can
//! be handed to `format!`-like machinery.

pub mod ansi_constants;
pub mod text;
pub mod parse;
pub mod color_context;
pub mod ansi;
pub mod untagged;
pub mod doc;
pub mod escapes;
pub mod laws;
pub mod laws_codes;
pub mod laws_text;
pub mod laws_output;
pub mod laws_aliases;
pub mod laws_tags;
pub mod laws_entries;
pub mod laws_pieces;
pub mod laws_dedent;
pub mod laws_terminal;

pub use ansi::{cformat, cstr};
pub use ansi_constants::{generate_ansi_code, generate_osc8_link};
pub use untagged::untagged;
pub use doc::cformatdoc;
