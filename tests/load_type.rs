use rulepack::error::ErrorKind;
use rulepack::load_type::RuleLoadType;
use rulepack::processor::ProcessMode;

#[test]
fn tags_round_trip() {
    for tag in ["dir", "name", "file", "class"] {
        let t = RuleLoadType::parse(tag).unwrap();
        assert_eq!(t.render(), tag);
    }
}

#[test]
fn tags_map_to_variants() {
    assert_eq!(RuleLoadType::parse("dir"), Ok(RuleLoadType::Directory));
    assert_eq!(RuleLoadType::parse("name"), Ok(RuleLoadType::Name));
    assert_eq!(RuleLoadType::parse("file"), Ok(RuleLoadType::File));
    assert_eq!(RuleLoadType::parse("class"), Ok(RuleLoadType::Class));
}

#[test]
fn bogus_tag_is_invalid() {
    assert_eq!(RuleLoadType::parse("bogus"), Err(ErrorKind::InvalidLoadType));
}

#[test]
fn tags_are_case_sensitive() {
    assert_eq!(RuleLoadType::parse("DIR"), Err(ErrorKind::InvalidLoadType));
    assert_eq!(RuleLoadType::parse(""), Err(ErrorKind::InvalidLoadType));
    assert_eq!(RuleLoadType::parse("files"), Err(ErrorKind::InvalidLoadType));
}

#[test]
fn mode_tags() {
    assert_eq!(ProcessMode::parse("summarize"), Ok(ProcessMode::Summarize));
    assert_eq!(ProcessMode::parse("normalize"), Ok(ProcessMode::Normalize));
    assert_eq!(ProcessMode::parse("other"), Err(ErrorKind::InvalidMode));
}

#[test]
fn error_messages_are_not_empty() {
    assert_eq!(ErrorKind::SourceNotFound.message(), "rule source not found");
    assert_eq!(ErrorKind::InvalidMode.message(), "invalid processing mode");
}
