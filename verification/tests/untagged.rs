#[test]
fn untagged() {
    assert_eq!(clml::untagged("").unwrap(), "");
    assert_eq!(clml::untagged("hi").unwrap(), "hi");
    assert_eq!(clml::untagged("<red>hi").unwrap(), "hi");
    assert_eq!(clml::untagged("<red>hi</>").unwrap(), "hi");
    assert_eq!(clml::untagged("<red>hi <em,blue>all").unwrap(), "hi all");
    assert_eq!(clml::untagged("<red>hi <em>all</></>").unwrap(), "hi all");
}

