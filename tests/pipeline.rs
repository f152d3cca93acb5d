use rulepack::binding::{sum_as_string, Base};
use rulepack::error::ErrorKind;
use rulepack::pipeline::resolve_and_process;
use rulepack::source::{Resolver, StoreRead};

#[test]
fn end_to_end_file_summary() {
    let store = StoreRead::File("R1\npattern=foo\n\nR2\npattern=bar".to_string());
    let out = resolve_and_process(&Resolver::new(), "rules.txt", "file", "summarize", 0, store).unwrap();
    assert_eq!(out, "Processed rule pack: rules.txt (2 entries): R1, R2");
    assert!(out.find("R1").unwrap() < out.find("R2").unwrap());
}

#[test]
fn end_to_end_missing_file() {
    let r = resolve_and_process(&Resolver::new(), "missing.txt", "file", "summarize", 0, StoreRead::Missing);
    assert_eq!(r, Err(ErrorKind::SourceNotFound));
}

#[test]
fn end_to_end_bad_tags() {
    let r = resolve_and_process(&Resolver::new(), "x", "bogus", "summarize", 0, StoreRead::Missing);
    assert_eq!(r, Err(ErrorKind::InvalidLoadType));
    let r = resolve_and_process(&Resolver::new(), "x", "file", "bogus", 0, StoreRead::Missing);
    assert_eq!(r, Err(ErrorKind::InvalidMode));
}

#[test]
fn end_to_end_duplicate() {
    let store = StoreRead::File("R1\n\nR1".to_string());
    let r = resolve_and_process(&Resolver::new(), "dup.txt", "file", "summarize", 0, store);
    assert_eq!(r, Err(ErrorKind::DuplicateRuleId));
}

#[test]
fn end_to_end_named_normalize() {
    let mut resolver = Resolver::new();
    resolver.named.push(("base".to_string(), "R1  Foo   BAR\nsev=2\n\nR2 x".to_string()));
    let out = resolve_and_process(&resolver, "base", "name", "normalize", 0, StoreRead::Missing).unwrap();
    assert_eq!(out, "R1 foo bar\nsev=2\n\nR2 x");
}

#[test]
fn sum_as_string_writes_decimal() {
    assert_eq!(sum_as_string(2, 40), "42");
    assert_eq!(sum_as_string(0, 0), "0");
}

#[test]
fn base_keeps_its_value() {
    assert_eq!(Base::new(-5).value, -5);
}
