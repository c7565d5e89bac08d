use clml::{cformat, cstr, generate_ansi_code, generate_osc8_link};

fn fmt(s: &str) -> String {
    cformat(s).unwrap()
}

#[test]
fn ansi_code() {
    assert_eq!(generate_ansi_code(&[0]), "\u{1b}[0m");
    assert_eq!(generate_ansi_code(&[31]), "\u{1b}[31m");
    assert_eq!(generate_ansi_code(&[38, 5, 1]), "\u{1b}[38;5;1m");
}

#[test]
fn osc8_link() {
    assert_eq!(
        generate_osc8_link("https://example.com"),
        "\u{1b}]8;;https://example.com\u{1b}\\"
    );
    assert_eq!(generate_osc8_link(""), "\u{1b}]8;;\u{1b}\\");
}

#[test]
fn format_no_arg() {
    assert_eq!(fmt(""), "");
    println!("{}", fmt(""));
    println!("{}", fmt(""));
}

#[test]
fn format_no_color() {
    assert_eq!(fmt(""), "");
    assert_eq!(fmt("Hi"), "Hi");
    // The placeholders stay for `format!`.
    assert_eq!(fmt("Hi {}"), "Hi {}");
    assert_eq!(format!("Hi {}", 12), "Hi 12");
    assert_eq!(fmt("Hi {n} {}"), "Hi {n} {}");
    assert_eq!(format!("Hi {n} {}", 12, n = 24), "Hi 24 12");
}

#[test]
fn format_basic() {
    assert_eq!(fmt("<red>Hi</red>"), "\u{1b}[31mHi\u{1b}[39m");
    assert_eq!(fmt("<red>Hi</r>"), "\u{1b}[31mHi\u{1b}[39m");
    assert_eq!(fmt("<red>Hi</>"), "\u{1b}[31mHi\u{1b}[39m");

    assert_eq!(fmt("<bg:red>Hi</bg:red>"), "\u{1b}[41mHi\u{1b}[49m");
    assert_eq!(fmt("<bg:red>Hi</R>"), "\u{1b}[41mHi\u{1b}[49m");
    assert_eq!(fmt("<bg:red>Hi</>"), "\u{1b}[41mHi\u{1b}[49m");

    assert_eq!(fmt("Hi <bold>word</bold> !"), "Hi \u{1b}[1mword\u{1b}[22m !");
    assert_eq!(fmt("Hi <em>word</em> !"), "Hi \u{1b}[1mword\u{1b}[22m !");
    assert_eq!(fmt("Hi <em>word</> !"), "Hi \u{1b}[1mword\u{1b}[22m !");

    assert_eq!(
        fmt("
                <bold>bold</>
                <dim>dim</>
                <underline>underline</>
                <strike>strike</>
                <reverse>reverse</>
                <conceal>conceal</>
                <italics>italics</>
                <blink>blink</>
            "),
        "
                \u{1b}[1mbold\u{1b}[22m
                \u{1b}[2mdim\u{1b}[22m
                \u{1b}[4munderline\u{1b}[24m
                \u{1b}[9mstrike\u{1b}[29m
                \u{1b}[7mreverse\u{1b}[27m
                \u{1b}[8mconceal\u{1b}[28m
                \u{1b}[3mitalics\u{1b}[23m
                \u{1b}[5mblink\u{1b}[25m
            "
    );

    let template = fmt("Hi <r>{v}</> {}");
    assert_eq!(template, "Hi \u{1b}[31m{v}\u{1b}[39m {}");
    assert_eq!(format!("Hi \u{1b}[31m{v}\u{1b}[39m {}", 12, v = "Hi"), "Hi \u{1b}[31mHi\u{1b}[39m 12");

    let template = fmt("Hi <r>{v} {}");
    assert_eq!(template, "Hi \u{1b}[31m{v} {}\u{1b}[39m");
    let mut s = String::new();
    s.push_str(&format!("Hi \u{1b}[31m{v} {}\u{1b}[39m", 12, v = "Hi"));
    s.push('\n');
    assert_eq!(s, "Hi \u{1b}[31mHi 12\u{1b}[39m\n");
}

#[test]
fn format_link() {
    assert_eq!(
        fmt("<link(https://example.com)>Click</link(https://example.com)>"),
        "\u{1b}]8;;https://example.com\u{1b}\\Click\u{1b}]8;;\u{1b}\\"
    );
    assert_eq!(
        fmt("<link(https://example.com)>Click</>"),
        "\u{1b}]8;;https://example.com\u{1b}\\Click\u{1b}]8;;\u{1b}\\"
    );
    assert_eq!(
        fmt("<link( https://example.com )>Click</>"),
        "\u{1b}]8;;https://example.com\u{1b}\\Click\u{1b}]8;;\u{1b}\\"
    );
    assert_eq!(
        fmt("<link(https://example.com),bold>Click</>"),
        "\u{1b}[1m\u{1b}]8;;https://example.com\u{1b}\\Click\u{1b}[22m\u{1b}]8;;\u{1b}\\"
    );
}

#[test]
fn format_multiple() {
    assert_eq!(
        fmt("Hi <bold>word</bold> <red>red</red> !"),
        "Hi \u{1b}[1mword\u{1b}[22m \u{1b}[31mred\u{1b}[39m !"
    );
}

#[test]
fn format_optimization() {
    assert_eq!(
        fmt("<red>RED<blue>BLUE</>RED</>"),
        "\u{1b}[31mRED\u{1b}[34mBLUE\u{1b}[31mRED\u{1b}[39m"
    );
    assert_eq!(fmt("<red><blue>BLUE</>RED</>"), "\u{1b}[34mBLUE\u{1b}[31mRED\u{1b}[39m");
    assert_eq!(fmt("<red></>Text"), "Text");
}

#[test]
fn format_auto_close_tag() {
    assert_eq!(fmt("<red>RED<blue>BLUE"), "\u{1b}[31mRED\u{1b}[34mBLUE\u{1b}[39m");
    assert!(
        fmt("<red>RED<em>BOLD") == "\u{1b}[31mRED\u{1b}[1mBOLD\u{1b}[22m\u{1b}[39m"
            || fmt("<red>RED<em>BOLD") == "\u{1b}[31mRED\u{1b}[1mBOLD\u{1b}[39m\u{1b}[22m"
    );
}

fn wrapped_cformat(s: &str) -> String {
    cformat(s).unwrap()
}

fn wrapped_untagged(s: &str) -> String {
    clml::untagged(s).unwrap()
}

fn wrapped_cstr(s: &str) -> String {
    cstr(s).unwrap()
}

#[test]
fn implicit_capture_through_macro_rules_wrapper() {
    let msg = "hello";
    let count = 2;

    assert_eq!(wrapped_cformat("{msg}"), "{msg}");
    assert_eq!(format!("{msg}"), "hello");
    assert_eq!(wrapped_cformat("{msg} {count}"), "{msg} {count}");
    assert_eq!(format!("{msg} {count}"), "hello 2");
    assert_eq!(wrapped_cformat("<red>{msg}</red> {msg}"), "\u{1b}[31m{msg}\u{1b}[39m {msg}");
    assert_eq!(format!("\u{1b}[31m{msg}\u{1b}[39m {msg}").matches(msg).count(), 2);
    assert_eq!(wrapped_untagged("<red>hi</red>"), "hi");
    assert_eq!(wrapped_cformat("<red>{msg}</red>"), "\u{1b}[31m{msg}\u{1b}[39m");
    assert_eq!(format!("\u{1b}[31m{msg}\u{1b}[39m"), "\u{1b}[31mhello\u{1b}[39m");
    assert_eq!(wrapped_cstr("<red>hi</red>"), "\u{1b}[31mhi\u{1b}[39m");
}
