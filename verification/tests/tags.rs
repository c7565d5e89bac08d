use clml::{cformat, cstr, generate_ansi_code};

fn fmt(s: &str) -> String {
    cformat(s).unwrap()
}

#[test]
fn nested_bold_writes_one_sequence() {
    assert_eq!(
        fmt("<bold><bold> A <bold,blue> B </> C </></>"),
        "\u{1b}[1m A \u{1b}[34m B \u{1b}[39m C \u{1b}[22m"
    );
}

#[test]
fn combined_tags() {
    assert_eq!(
        fmt("<green,bold>Finished</> building <cyan>{target}</cyan>"),
        "\u{1b}[32m\u{1b}[1mFinished\u{1b}[39m\u{1b}[22m building \u{1b}[36m{target}\u{1b}[39m"
    );
    assert_eq!(fmt("<green, bold>x</green,bold>"), "\u{1b}[32m\u{1b}[1mx\u{1b}[39m\u{1b}[22m");
    assert_eq!(fmt("<green,bold>x</bold,green>"), "\u{1b}[32m\u{1b}[1mx\u{1b}[39m\u{1b}[22m");
}

#[test]
fn doubled_angle_brackets() {
    assert_eq!(fmt("a << b >> c"), "a < b > c");
    assert_eq!(cstr("<<red>>").unwrap(), "<red>");
}

#[test]
fn placeholders_are_not_tags() {
    assert_eq!(fmt("{:<5}|{:>5}"), "{:<5}|{:>5}");
    assert_eq!(fmt("{{<red>x"), "{{\u{1b}[31mx\u{1b}[39m");
    assert_eq!(fmt("}}"), "}}");
    // Without placeholders, braces are plain characters.
    assert_eq!(cstr("{<red>}").unwrap(), "{\u{1b}[31m}\u{1b}[39m");
}

#[test]
fn basic_colors() {
    let names = ["black", "red", "green", "yellow", "blue", "magenta", "cyan", "white"];
    let shortcuts = ["k", "r", "g", "y", "b", "m", "c", "w"];
    for i in 0..8 {
        let n = i as u8;
        let fg = generate_ansi_code(&[30 + n]);
        let bright = generate_ansi_code(&[90 + n]);
        let bg = generate_ansi_code(&[40 + n]);
        let bright_bg = generate_ansi_code(&[100 + n]);
        let name = names[i];
        let short = shortcuts[i];
        let upper = name.to_uppercase();
        let short_upper = short.to_uppercase();
        for (tag, code, reset) in [
            (name.to_string(), &fg, "\u{1b}[39m"),
            (short.to_string(), &fg, "\u{1b}[39m"),
            (format!("{name}!"), &bright, "\u{1b}[39m"),
            (format!("{short}!"), &bright, "\u{1b}[39m"),
            (format!("bright-{name}"), &bright, "\u{1b}[39m"),
            (format!("bg:{name}"), &bg, "\u{1b}[49m"),
            (format!("bg:{short}"), &bg, "\u{1b}[49m"),
            (upper.clone(), &bg, "\u{1b}[49m"),
            (short_upper.clone(), &bg, "\u{1b}[49m"),
            (format!("bg:bright-{name}"), &bright_bg, "\u{1b}[49m"),
            (format!("bg:{name}!"), &bright_bg, "\u{1b}[49m"),
            (format!("bg:{short}!"), &bright_bg, "\u{1b}[49m"),
            (format!("{upper}!"), &bright_bg, "\u{1b}[49m"),
            (format!("{short_upper}!"), &bright_bg, "\u{1b}[49m"),
            (format!("BRIGHT-{upper}"), &bright_bg, "\u{1b}[49m"),
        ] {
            assert_eq!(fmt(&format!("<{tag}>x</>")), format!("{code}x{reset}"), "tag {tag}");
        }
    }
}

#[test]
fn palette_and_true_colors() {
    assert_eq!(fmt("<42>x"), "\u{1b}[38;5;42mx\u{1b}[39m");
    assert_eq!(fmt("<palette(42)>x"), "\u{1b}[38;5;42mx\u{1b}[39m");
    assert_eq!(fmt("<pal( 7 )>x"), "\u{1b}[38;5;7mx\u{1b}[39m");
    assert_eq!(fmt("<p(255)>x"), "\u{1b}[38;5;255mx\u{1b}[39m");
    assert_eq!(fmt("<P(0)>x"), "\u{1b}[48;5;0mx\u{1b}[49m");
    assert_eq!(fmt("<PALETTE(9)>x"), "\u{1b}[48;5;9mx\u{1b}[49m");
    assert_eq!(fmt("<bg:pal(9)>x"), "\u{1b}[48;5;9mx\u{1b}[49m");
    assert_eq!(fmt("<rgb(10,20,30)>x"), "\u{1b}[38;2;10;20;30mx\u{1b}[39m");
    assert_eq!(fmt("<rgb(10, 20, 30)>x"), "\u{1b}[38;2;10;20;30mx\u{1b}[39m");
    assert_eq!(fmt("<RGB(1,2,3)>x"), "\u{1b}[48;2;1;2;3mx\u{1b}[49m");
    assert_eq!(fmt("<bg:rgb(1,2,3)>x"), "\u{1b}[48;2;1;2;3mx\u{1b}[49m");
    assert_eq!(fmt("<#a0b0c0>x"), "\u{1b}[38;2;160;176;192mx\u{1b}[39m");
    assert_eq!(fmt("<#A0B0C0>x"), "\u{1b}[38;2;160;176;192mx\u{1b}[39m");
    assert_eq!(fmt("<bg:#ffffff>x"), "\u{1b}[48;2;255;255;255mx\u{1b}[49m");
    assert_eq!(fmt("<rgb(1,2,3),bold>x"), "\u{1b}[38;2;1;2;3m\u{1b}[1mx\u{1b}[39m\u{1b}[22m");
}

#[test]
fn style_aliases() {
    for (tags, on, off) in [
        (&["strong", "s", "em", "bold"][..], "1", "22"),
        (&["dim"][..], "2", "22"),
        (&["underline", "u"][..], "4", "24"),
        (&["strike"][..], "9", "29"),
        (&["reverse", "rev"][..], "7", "27"),
        (&["conceal", "hide"][..], "8", "28"),
        (&["italics", "i", "italic"][..], "3", "23"),
        (&["blink"][..], "5", "25"),
    ] {
        for tag in tags {
            assert_eq!(
                fmt(&format!("<{tag}>x</{tag}>")),
                format!("\u{1b}[{on}mx\u{1b}[{off}m"),
                "tag {tag}"
            );
        }
    }
}

#[test]
fn bold_and_dim_share_their_reset() {
    // Switching bold off resets dim too, so dim is set again.
    assert_eq!(fmt("<dim>a<bold>b</>c"), "\u{1b}[2ma\u{1b}[1mb\u{1b}[22m\u{1b}[2mc\u{1b}[22m");
    assert_eq!(fmt("<bold>BOLD</><dim>DIM</>"), "\u{1b}[1mBOLD\u{1b}[22m\u{1b}[2mDIM\u{1b}[22m");
}

#[test]
fn later_entries_win() {
    assert_eq!(fmt("<red,blue>x"), "\u{1b}[34mx\u{1b}[39m");
}

#[test]
fn nested_links() {
    assert_eq!(
        fmt("<link(a)>x<link(b)>y</>z"),
        "\u{1b}]8;;a\u{1b}\\x\u{1b}]8;;b\u{1b}\\y\u{1b}]8;;a\u{1b}\\z\u{1b}]8;;\u{1b}\\"
    );
}

#[test]
fn sgr_codes() {
    assert_eq!(generate_ansi_code(&[]), "\u{1b}[m");
    assert_eq!(generate_ansi_code(&[255, 100, 9, 10]), "\u{1b}[255;100;9;10m");
}

#[test]
fn unicode_text_passes_through() {
    assert_eq!(fmt("héllo <red>wörld</>"), "héllo \u{1b}[31mwörld\u{1b}[39m");
}
