use clml::parse::types::{Error, ErrorDetail, ErrorKind};
use clml::{cformat, cstr};

fn failure(result: Result<String, Error>) -> (usize, ErrorKind, String, String) {
    let e = result.unwrap_err();
    let d = e.detail.unwrap();
    (e.input, e.code, d.input, d.message)
}

#[test]
fn unclosed_tag() {
    let (pos, kind, input, message) = failure(cformat("ab<red"));
    assert_eq!((pos, kind), (2, ErrorKind::UnclosedTag));
    assert_eq!(input, "<");
    assert_eq!(message, "unclosed tag: a `>` is missing");
}

#[test]
fn unescaped_greater_than() {
    let (pos, kind, input, _) = failure(cformat("a>b"));
    assert_eq!((pos, kind, input.as_str()), (1, ErrorKind::UnescapedGreaterThan, ">"));
}

#[test]
fn unclosed_placeholder() {
    let (pos, kind, _, _) = failure(cformat("x {abc"));
    assert_eq!((pos, kind), (2, ErrorKind::UnclosedPlaceholder));
    // No placeholders without formatting.
    assert_eq!(cstr("x {abc").unwrap(), "x {abc");
}

#[test]
fn empty_tags() {
    let (pos, kind, input, _) = failure(cformat("<>"));
    assert_eq!((pos, kind, input.as_str()), (1, ErrorKind::EmptyTag, ">"));
    let (pos, kind, _, message) = failure(cformat("<red,>x"));
    assert_eq!((pos, kind), (5, ErrorKind::EmptyTag));
    assert_eq!(message, "empty tag");
}

#[test]
fn unknown_tags() {
    let (pos, kind, input, message) = failure(cformat("é<foo>"));
    assert_eq!((pos, kind, input.as_str()), (2, ErrorKind::UnknownTag, "f"));
    assert_eq!(message, "unknown tag");
    assert_eq!(failure(cformat("<red, nope>")).0, 6);
    assert_eq!(failure(cformat("<256>")).1, ErrorKind::UnknownTag);
    assert_eq!(failure(cformat("<S>")).1, ErrorKind::UnknownTag);
    assert_eq!(failure(cformat("<rgb(1,2)>")).1, ErrorKind::UnknownTag);
    assert_eq!(failure(cformat("<#12345g>")).1, ErrorKind::UnknownTag);
    assert_eq!(failure(cformat("<link()>")).1, ErrorKind::UnknownTag);
    assert_eq!(failure(cformat("<bright-r>")).1, ErrorKind::UnknownTag);
}

#[test]
fn nothing_to_close() {
    let (pos, kind, _, message) = failure(cformat("a</>"));
    assert_eq!((pos, kind), (1, ErrorKind::NothingToClose));
    assert_eq!(message, "closing tag while no tag is open");
    assert_eq!(failure(cformat("<red>x</></>")).0, 9);
}

#[test]
fn mismatched_close_tag() {
    let (pos, kind, _, message) = failure(cformat("<red>x</blue>"));
    assert_eq!((pos, kind), (6, ErrorKind::MismatchedCloseTag));
    assert_eq!(message, "closing tag does not match the last open tag");
    // A closing tag names the innermost open tag only.
    assert_eq!(failure(cformat("<red><bold>x</red>")).1, ErrorKind::MismatchedCloseTag);
}

#[test]
fn syntax_errors_come_before_nesting_errors() {
    assert_eq!(failure(cformat("</>a<b")).1, ErrorKind::UnclosedTag);
}

#[test]
fn error_detail_keeps_the_first_character() {
    let d = ErrorDetail::new("abc", String::from("message"));
    assert_eq!(d.input, "a");
    assert_eq!(d.message, "message");
    let d = ErrorDetail::new("", String::from("end"));
    assert_eq!(d.input, "");
}

#[test]
fn error_constructors() {
    let e = Error::new(3, ErrorKind::UnknownTag, None);
    assert_eq!((e.input, e.code), (3, ErrorKind::UnknownTag));
    assert!(e.detail.is_none());
    let e2 = e.with_detail(ErrorDetail::new("x", String::from("m")));
    assert_eq!((e2.input, e2.code), (3, ErrorKind::UnknownTag));
    assert_eq!(e2.detail.unwrap().input, "x");
}

#[test]
fn error_detail_text_is_its_message() {
    let e = cformat("<nope>").unwrap_err();
    assert_eq!(e.detail.unwrap().to_string(), "unknown tag");
}
