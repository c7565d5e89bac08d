use clml::cformatdoc;

#[test]
fn dedent_edges() {
    assert_eq!(cformatdoc("").unwrap(), "");
    assert_eq!(cformatdoc("a\n").unwrap(), "a\n");
    assert_eq!(cformatdoc("\n").unwrap(), "\n");
    // The first line keeps its indentation when the text starts on it.
    assert_eq!(cformatdoc("  a\n    b\n  c").unwrap(), "  a\n  b\nc");
    // Tabs count as indentation; lines of spaces do not set it.
    assert_eq!(cformatdoc("\n\tx\n\n\t\ty\n").unwrap(), "x\n\n\ty\n");
    assert_eq!(cformatdoc("\n    a\n  \n    b").unwrap(), "a\n\nb");
}

#[test]
fn dedent_after_tags() {
    assert_eq!(cformatdoc("\n  <red>a\n    b</>\n").unwrap(), "\u{1b}[31ma\n  b\u{1b}[39m\n");
    // Tags are processed first: the sequence that closes a tag left open lands on a last line of
    // its own, which has no indentation.
    assert_eq!(
        cformatdoc("\n  <red>a\n    b\n").unwrap(),
        "  \u{1b}[31ma\n    b\n\u{1b}[39m"
    );
}
