use clml::parse::types::ErrorKind;

#[test]
fn untagged_escapes_and_braces() {
    assert_eq!(clml::untagged("<<x>> {y}").unwrap(), "<x> {y}");
    assert_eq!(clml::untagged("<rgb(1,2,3)>a</>b").unwrap(), "ab");
}

#[test]
fn untagged_checks_tag_syntax_but_not_nesting() {
    assert_eq!(clml::untagged("<nope>x").unwrap_err().code, ErrorKind::UnknownTag);
    assert_eq!(clml::untagged("</>x").unwrap(), "x");
}
