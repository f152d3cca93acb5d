use rulepack::load_type::RuleLoadType;
use rulepack::number::decimal_text;
use rulepack::pack::{RuleEntry, RulePack};
use rulepack::parser::parse_text;
use rulepack::pipeline::render_pack;
use rulepack::processor::{canonical_pattern, normalize, process, summarize, ProcessMode, ProcessedResult};

fn pack_of(text: &str) -> RulePack {
    RulePack::new("rules.txt".to_string(), RuleLoadType::File, 0, parse_text(text).unwrap()).unwrap()
}

#[test]
fn summary_is_deterministic_and_lists_ids_in_order() {
    let pack = pack_of("B first\n\nA second\n\nC third");
    let one = summarize(&pack);
    let two = summarize(&pack);
    assert_eq!(one, two);
    assert_eq!(one, "Processed rule pack: rules.txt (3 entries): B, A, C");
    let b = one.find(": B").unwrap();
    let a = one.find(", A").unwrap();
    let c = one.find(", C").unwrap();
    assert!(b < a && a < c);
}

#[test]
fn summary_of_empty_pack() {
    let pack = pack_of("");
    assert_eq!(summarize(&pack), "Processed rule pack: rules.txt (0 entries)");
}

#[test]
fn process_summarize_matches_summary() {
    let pack = pack_of("R1 x");
    match process(&pack, ProcessMode::Summarize) {
        ProcessedResult::Summary(s) => assert_eq!(s, "Processed rule pack: rules.txt (1 entries): R1"),
        ProcessedResult::Normalized(_) => panic!("expected a summary"),
    }
}

#[test]
fn canonical_form_collapses_gaps_and_folds_case() {
    assert_eq!(canonical_pattern("  Foo\t BAR\n\nbaz  "), "foo bar baz");
    assert_eq!(canonical_pattern(""), "");
    assert_eq!(canonical_pattern(" \t "), "");
    assert_eq!(canonical_pattern("ÄÖ Zz"), "ÄÖ zz");
}

#[test]
fn normalize_keeps_ids_metadata_and_order() {
    let pack = pack_of("R2 Hello   WORLD\nk=V\n\nR1 a\nSecond Line");
    let n = normalize(&pack);
    assert_eq!(n.entries.len(), 2);
    assert_eq!(n.entries[0].id, "R2");
    assert_eq!(n.entries[0].pattern, "hello world");
    assert_eq!(n.entries[0].metadata, vec![("k".to_string(), "V".to_string())]);
    assert_eq!(n.entries[1].id, "R1");
    assert_eq!(n.entries[1].pattern, "a second line");
    assert_eq!(n.source, "rules.txt");
    assert_eq!(pack.entries[0].pattern, "Hello   WORLD");
}

#[test]
fn render_writes_rule_text() {
    let pack = pack_of("R1\npattern=foo\n\nR2 x  y\nk=v");
    assert_eq!(render_pack(&pack), "R1\npattern=foo\n\nR2 x  y\nk=v");
}

#[test]
fn new_pack_refuses_duplicates() {
    let e = RuleEntry { id: "X".to_string(), pattern: String::new(), metadata: Vec::new() };
    let f = RuleEntry { id: "X".to_string(), pattern: "p".to_string(), metadata: Vec::new() };
    assert!(RulePack::new("s".to_string(), RuleLoadType::Name, 0, vec![e, f]).is_err());
}

#[test]
fn decimal_numbers() {
    assert_eq!(decimal_text(0), "0");
    assert_eq!(decimal_text(9), "9");
    assert_eq!(decimal_text(10), "10");
    assert_eq!(decimal_text(1203), "1203");
    assert_eq!(decimal_text(usize::MAX), usize::MAX.to_string());
}
