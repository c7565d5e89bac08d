use clml::{cformat, cstr, generate_ansi_code};

/// Takes SGR (`ESC [ .. m`) and OSC (`ESC ] .. ESC \`) sequences out.
fn strip_escapes(s: &str) -> String {
    let chars: Vec<char> = s.chars().collect();
    let mut out = String::new();
    let mut i = 0;
    while i < chars.len() {
        if chars[i] == '\u{1b}' && i + 1 < chars.len() && chars[i + 1] == '[' {
            let mut j = i + 2;
            while chars[j] != 'm' {
                j += 1;
            }
            i = j + 1;
        } else if chars[i] == '\u{1b}' && i + 1 < chars.len() && chars[i + 1] == ']' {
            let mut j = i + 2;
            while chars[j] != '\u{1b}' {
                j += 1;
            }
            i = j + 2;
        } else {
            out.push(chars[i]);
            i += 1;
        }
    }
    out
}

#[test]
fn unclosed_tags_close_at_end() {
    assert_eq!(cformat("<green><bold>Hello").unwrap(), cformat("<green><bold>Hello</></>").unwrap());
    assert_eq!(cformat("<green><bold>Hello").unwrap(), cformat("<green><bold>Hello</>").unwrap());
    assert_eq!(cstr("<link(u)>a<red>b").unwrap(), cstr("<link(u)>a<red>b</>").unwrap());
}

#[test]
fn anonymous_close_is_a_named_close() {
    assert_eq!(cformat("<green>x</green>y").unwrap(), cformat("<green>x</>y").unwrap());
    assert_eq!(cformat("<R!>x</bg:bright-red>y").unwrap(), cformat("<R!>x</>y").unwrap());
}

#[test]
fn plain_text_unchanged() {
    for s in ["", "plain", "with {} and {{ and }}", "é ü ✓"] {
        assert_eq!(cformat(s).unwrap(), s);
        assert_eq!(cstr(s).unwrap(), s);
        assert_eq!(clml::untagged(s).unwrap(), s);
    }
}

#[test]
fn tags_become_escape_sequences() {
    for s in [
        "Hi <bold>word</bold> <red>red</red> !",
        "<link(https://example.com),bold>Click</>",
        "<dim>a<bold>b</>c <<x>> <rgb(1,2,3)>z",
    ] {
        assert_eq!(strip_escapes(&cstr(s).unwrap()), clml::untagged(s).unwrap());
    }
}

#[test]
fn errors_point_into_the_string() {
    for s in ["<", "a>", "<x>", "</>", "<red>a</blue>", "<,>"] {
        let e = cstr(s).unwrap_err();
        assert!(e.input < s.chars().count());
    }
}

#[test]
fn no_change_no_code() {
    assert_eq!(cformat("<red>a</><red>b</>").unwrap(), "\u{1b}[31mab\u{1b}[39m");
}

#[test]
fn sgr_reads_back() {
    let inputs: [&[u8]; 7] = [&[], &[0], &[1, 2], &[12], &[1, 22], &[38, 5, 200], &[255, 0, 7]];
    for p in inputs {
        let code = generate_ansi_code(p);
        let middle = &code[2..code.len() - 1];
        let back: Vec<u8> = if middle.is_empty() {
            Vec::new()
        } else {
            middle.split(';').map(|t| t.parse::<u8>().unwrap()).collect()
        };
        assert_eq!(back, p.to_vec());
        for q in inputs {
            assert_eq!(generate_ansi_code(q) == code, q == p);
        }
    }
}

#[test]
fn doubled_brackets_stand_for_themselves() {
    assert_eq!(cformat("a << b >> c").unwrap(), "a < b > c");
    assert_eq!(cformat("<<{x}>> {{<<").unwrap(), "<{x}> {{<");
    assert_eq!(cstr("<<{>>").unwrap(), "<{>");
    assert_eq!(clml::untagged("<<{>>").unwrap(), "<{>");
}

#[test]
fn braces_only_matter_to_format_strings() {
    for s in ["<red>a}b</>", "x }} y", "<bold>no braces</bold>"] {
        assert_eq!(cformat(s).unwrap(), cstr(s).unwrap());
    }
    assert_eq!(cstr("{<red>}{{</>").unwrap(), "{\u{1b}[31m}{{\u{1b}[39m");
    assert!(cformat("{<red>").is_err());
}

#[test]
fn unclosed_tags_close_at_end_all() {
    let s = "<red><bold><u>x";
    let want = cstr(s).unwrap();
    assert_eq!(cstr("<red><bold><u>x</>").unwrap(), want);
    assert_eq!(cstr("<red><bold><u>x</></>").unwrap(), want);
    assert_eq!(cstr("<red><bold><u>x</></></>").unwrap(), want);
    assert!(cstr("<red><bold><u>x</></></></>").is_err());
}

#[test]
fn output_ends_in_the_default_state() {
    assert_eq!(
        cstr("<red,bold,u,BLUE>x").unwrap(),
        "\u{1b}[31m\u{1b}[44m\u{1b}[1m\u{1b}[4mx\u{1b}[39m\u{1b}[49m\u{1b}[22m\u{1b}[24m"
    );
    assert_eq!(cstr("<link(u)>x").unwrap(), "\u{1b}]8;;u\u{1b}\\x\u{1b}]8;;\u{1b}\\");
}

#[test]
fn codes_only_between_different_styles() {
    assert_eq!(
        cstr("<bold><bold> A <bold,blue> B </> C </></>").unwrap(),
        "\u{1b}[1m A \u{1b}[34m B \u{1b}[39m C \u{1b}[22m"
    );
    assert_eq!(cstr("<red>a<red>b</>c</>").unwrap(), "\u{1b}[31mabc\u{1b}[39m");
}

#[test]
fn aliases_in_place() {
    let groups: [&[&str]; 6] = [
        &["bold", "strong", "s", "em"],
        &["b", "blue"],
        &["r", "red"],
        &["R!", "bg:bright-red", "RED!", "bg:red!", "BRIGHT-RED"],
        &["5", "p(5)", "pal(5)", "palette(5)"],
        &["rev", "reverse"],
    ];
    for group in groups {
        let want = cstr(&format!("a<{}>x</{}>y", group[0], group[0])).unwrap();
        for w in group {
            assert_eq!(cstr(&format!("a<{w}>x</{w}>y")).unwrap(), want);
            assert_eq!(cstr(&format!("a<{w}>x</{}>y", group[0])).unwrap(), want);
        }
    }
}

#[test]
fn untagged_concat() {
    let pairs = [("a<red>b", "c</>d"), ("<<x", ">>y"), ("", "<bold>z"), ("p{", "}q")];
    for (s, t) in pairs {
        let joined = format!("{s}{t}");
        assert_eq!(
            clml::untagged(&joined).unwrap(),
            format!("{}{}", clml::untagged(s).unwrap(), clml::untagged(t).unwrap())
        );
    }
    let e = clml::untagged("ab<x>").unwrap_err();
    let e2 = clml::untagged("<x>").unwrap_err();
    assert_eq!(e.input, e2.input + 2);
}

#[test]
fn same_tags_interchangeable() {
    let pairs = [
        ("<red,bold>", "<bold,red>"),
        ("<rgb(255,0,0)>", "<#ff0000>"),
        ("<bg:rgb(1,2,3)>", "<RGB(1,2,3)>"),
        ("< red >", "<r>"),
    ];
    for (a, b) in pairs {
        assert_eq!(cstr(&format!("x{a}y</>z")).unwrap(), cstr(&format!("x{b}y</>z")).unwrap());
    }
    assert_eq!(
        cstr("<red>x</red>y").unwrap(),
        cstr("<red>x</r>y").unwrap()
    );
}

#[test]
fn entries_in_place() {
    let cases = [
        ("a<red,bold>b</>c", "a<r,strong>b</>c"),
        ("a<bold, red>b", "a<bold, r>b"),
        ("<red>x<bold,R!>y</bold,bg:bright-red>z", "<red>x<bold,RED!>y</em,BRIGHT-RED>z"),
        ("<i,u,p(5)>x", "<italic,underline,pal(5)>x"),
        ("<dim,rev,hide>x</>", "<dim,reverse,conceal>x</>"),
    ];
    for (a, b) in cases {
        assert_eq!(cstr(a).unwrap(), cstr(b).unwrap());
        assert_eq!(cformat(a).unwrap(), cformat(b).unwrap());
    }
    assert!(cstr("<red,,b>x").is_err());
    assert!(cstr("<r,,b>x").is_err());
}

#[test]
fn braces_kept() {
    for (s, c, t) in [("a<red>b", '{', "c</>"), ("", '}', "<bold>x"), ("<<", '{', "}>>")] {
        let joined = format!("{s}{c}{t}");
        assert_eq!(
            clml::untagged(&joined).unwrap(),
            format!("{}{c}{}", clml::untagged(s).unwrap(), clml::untagged(t).unwrap())
        );
    }
    assert_eq!(cstr("{<red>}</>").unwrap(), "{\u{1b}[31m}\u{1b}[39m");
}
