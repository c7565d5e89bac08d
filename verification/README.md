# clml

Terminal colors and styles written with an HTML-like tag syntax (`"Hello <green>world</>!"`),
turned into ANSI escape sequences.

- `src/` is the verified library (Verus): the tag grammar (`parse/`), the model of colors,
  styles and links and the sequences that move between two states (`color_context.rs`), the
  rendering of a format string (`ansi.rs`), tag removal (`untagged.rs`), dedenting
  (`doc.rs`), and the properties proved of the whole: `laws.rs` (no redundant codes, unclosed
  tags, tags become escape sequences, error positions), `laws_codes.rs` (SGR sequences read
  back), `laws_text.rs` (doubled brackets, braces, closing every open tag), `laws_output.rs`
  (the shape of the output), `laws_terminal.rs` (what the codes do to a terminal's state),
  `laws_aliases.rs` (the tag table's aliases), `laws_tags.rs` (tags that set the same thing are
  interchangeable in place), `laws_entries.rs` (any entry of a tag can be replaced by an alias) and `laws_pieces.rs` (how a string is cut into pieces), with
  `escapes.rs`, `parse/prefix.rs` and `parse/shift.rs`.
- `app/` holds what runs around it: the macros as functions on token streams (they read the
  format string, call the library, and write the `format!`-like call), the printing macros
  (through `anstream`, or through `std` with `Printer::Std`), and the codes read from the
  terminal's terminfo database.
- `tests/` runs the library on concrete strings.
