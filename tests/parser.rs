use rulepack::error::ErrorKind;
use rulepack::load_type::RuleLoadType;
use rulepack::parser::{parse, parse_text};
use rulepack::source::{RawContent, RawRuleSource};

fn raw(text: &str) -> RawRuleSource {
    RawRuleSource {
        identifier: "pack".to_string(),
        load_type: RuleLoadType::Name,
        loaded_at: 7,
        content: RawContent::Text(text.to_string()),
    }
}

#[test]
fn empty_source_gives_empty_pack() {
    let pack = parse(raw("")).unwrap();
    assert_eq!(pack.entries.len(), 0);
    assert_eq!(pack.source, "pack");
    assert_eq!(pack.loaded_at, 7);
}

#[test]
fn blank_only_source_gives_empty_pack() {
    let pack = parse(raw("\n  \n\t\n")).unwrap();
    assert_eq!(pack.entries.len(), 0);
}

#[test]
fn duplicate_ids_are_refused() {
    let r = parse(raw("R1 a\n\nR1 b"));
    assert!(matches!(r, Err(ErrorKind::DuplicateRuleId)));
}

#[test]
fn block_without_identifier_is_malformed() {
    assert!(matches!(parse_text("  indented"), Err(ErrorKind::MalformedRule)));
    assert!(matches!(parse_text("R1\n\nkey=value"), Err(ErrorKind::MalformedRule)));
}

#[test]
fn malformed_comes_before_duplicate() {
    assert!(matches!(parse_text("R1\n\nR1\n\n x"), Err(ErrorKind::MalformedRule)));
}

#[test]
fn blocks_give_ids_patterns_and_metadata() {
    let es = parse_text("R1 match  this\npattern=foo\nmore text\nlevel=high=1\n\n\nR2\r\npattern=bar").unwrap();
    assert_eq!(es.len(), 2);
    assert_eq!(es[0].id, "R1");
    assert_eq!(es[0].pattern, "match  this\nmore text");
    assert_eq!(
        es[0].metadata,
        vec![
            ("pattern".to_string(), "foo".to_string()),
            ("level".to_string(), "high=1".to_string())
        ]
    );
    assert_eq!(es[1].id, "R2");
    assert_eq!(es[1].pattern, "");
    assert_eq!(es[1].metadata, vec![("pattern".to_string(), "bar".to_string())]);
}

#[test]
fn structured_content_passes_through() {
    let inner = parse(raw("A x\n\nB y")).unwrap();
    let source = RawRuleSource {
        identifier: "other".to_string(),
        load_type: RuleLoadType::Class,
        loaded_at: 1,
        content: RawContent::Structured(inner),
    };
    let pack = parse(source).unwrap();
    assert_eq!(pack.source, "pack");
    assert_eq!(pack.entries.len(), 2);
    assert_eq!(pack.entries[1].pattern, "y");
}
