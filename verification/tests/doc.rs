use clml::cformatdoc;

fn doc(s: &str) -> String {
    cformatdoc(s).unwrap()
}

#[test]
fn format_doc_dedents() {
    assert_eq!(
        doc("
                <red>RED
                    indented</red>
                "),
        "\u{1b}[31mRED\n    indented\u{1b}[39m\n"
    );

    assert_eq!(doc("<red>{}</red>"), "\u{1b}[31m{}\u{1b}[39m");
    assert_eq!(format!("\u{1b}[31m{}\u{1b}[39m", "Hi"), "\u{1b}[31mHi\u{1b}[39m");

    // `cwritedoc!` writes the dedented, colored format string.
    let mut s = String::new();
    s.push_str(&doc("
            <bold>a
              b</bold>
            "));
    assert_eq!(s, "\u{1b}[1ma\n  b\u{1b}[22m\n");

    // `cwritelndoc!` adds a line break after it.
    let mut s = String::new();
    s.push_str(&doc("
            <bold>a
              b</bold>"));
    s.push('\n');
    assert_eq!(s, "\u{1b}[1ma\n  b\u{1b}[22m\n");
}

#[test]
fn print_doc_macros_compile_and_run() {
    println!("{}", doc("
            <green>ok</green>
            "));
    println!("{}", doc("
            <green>ok</green>"));
    println!("{}", doc("
            <red>note</red>
            "));
    println!("{}", doc("
            <red>note</red>"));
}
