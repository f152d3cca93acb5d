use rulepack::error::ErrorKind;
use rulepack::load_type::RuleLoadType;
use rulepack::pack::RulePack;
use rulepack::parser::parse_text;
use rulepack::source::{sort_by_name, DirFile, RawContent, Resolver, StoreRead};

fn text_of(content: &RawContent) -> String {
    match content {
        RawContent::Text(t) => t.clone(),
        RawContent::Structured(_) => panic!("expected text"),
    }
}

fn file(name: &str, text: &str) -> DirFile {
    DirFile { name: name.to_string(), content: Some(text.to_string()) }
}

#[test]
fn missing_file_is_not_found() {
    let r = Resolver::new().resolve("missing.txt", RuleLoadType::File, 0, StoreRead::Missing);
    assert!(matches!(r, Err(ErrorKind::SourceNotFound)));
}

#[test]
fn missing_directory_is_not_found() {
    let r = Resolver::new().resolve("rules", RuleLoadType::Directory, 0, StoreRead::Missing);
    assert!(matches!(r, Err(ErrorKind::SourceNotFound)));
    let r = Resolver::new().resolve("rules", RuleLoadType::Directory, 0, StoreRead::File("x".to_string()));
    assert!(matches!(r, Err(ErrorKind::SourceNotFound)));
}

#[test]
fn empty_file_resolves_to_empty_source() {
    let raw = Resolver::new()
        .resolve("empty.txt", RuleLoadType::File, 3, StoreRead::File(String::new()))
        .unwrap();
    assert_eq!(text_of(&raw.content), "");
    assert_eq!(raw.identifier, "empty.txt");
    assert_eq!(raw.load_type, RuleLoadType::File);
    assert_eq!(raw.loaded_at, 3);
}

#[test]
fn file_text_is_read_verbatim() {
    let raw = Resolver::new()
        .resolve("a.txt", RuleLoadType::File, 0, StoreRead::File("R1 x\n".to_string()))
        .unwrap();
    assert_eq!(text_of(&raw.content), "R1 x\n");
}

#[test]
fn read_faults_map_to_errors() {
    let r = Resolver::new();
    assert!(matches!(r.resolve("a", RuleLoadType::File, 0, StoreRead::Unreadable), Err(ErrorKind::SourceUnreadable)));
    assert!(matches!(r.resolve("a", RuleLoadType::File, 0, StoreRead::TimedOut), Err(ErrorKind::SourceTimeout)));
    assert!(matches!(r.resolve("a", RuleLoadType::Directory, 0, StoreRead::TimedOut), Err(ErrorKind::SourceTimeout)));
    assert!(matches!(
        r.resolve("a", RuleLoadType::File, 0, StoreRead::Directory(Vec::new())),
        Err(ErrorKind::SourceUnreadable)
    ));
}

#[test]
fn directory_files_join_in_name_order() {
    let files = vec![file("c.rules", "C\n\n"), file("a.rules", "A\n\n"), file("b.rules", "B\n\n")];
    let raw = Resolver::new()
        .resolve("dir", RuleLoadType::Directory, 0, StoreRead::Directory(files))
        .unwrap();
    assert_eq!(text_of(&raw.content), "A\n\nB\n\nC\n\n");
}

#[test]
fn unreadable_directory_file_fails() {
    let files = vec![file("a", "A"), DirFile { name: "b".to_string(), content: None }];
    let r = Resolver::new().resolve("dir", RuleLoadType::Directory, 0, StoreRead::Directory(files));
    assert!(matches!(r, Err(ErrorKind::SourceUnreadable)));
}

#[test]
fn empty_directory_gives_empty_source() {
    let raw = Resolver::new()
        .resolve("dir", RuleLoadType::Directory, 0, StoreRead::Directory(Vec::new()))
        .unwrap();
    assert_eq!(text_of(&raw.content), "");
}

#[test]
fn sort_orders_by_name() {
    let sorted = sort_by_name(vec![file("b", "2"), file("a2", "3"), file("a", "1"), file("B", "0")]);
    let names: Vec<String> = sorted.iter().map(|f| f.name.clone()).collect();
    assert_eq!(names, vec!["B", "a", "a2", "b"]);
}

#[test]
fn named_registry_lookup() {
    let mut r = Resolver::new();
    r.named.push(("core".to_string(), "R1 x".to_string()));
    r.named.push(("core".to_string(), "shadowed".to_string()));
    let raw = r.resolve("core", RuleLoadType::Name, 0, StoreRead::Missing).unwrap();
    assert_eq!(text_of(&raw.content), "R1 x");
    assert!(matches!(r.resolve("other", RuleLoadType::Name, 0, StoreRead::Missing), Err(ErrorKind::SourceNotFound)));
}

#[test]
fn class_registry_returns_structured_pack() {
    let pack = RulePack::new("pkg.Rules".to_string(), RuleLoadType::Class, 5, parse_text("Z z").unwrap()).unwrap();
    let mut r = Resolver::new();
    r.classes.push(("pkg.Rules".to_string(), pack));
    let raw = r.resolve("pkg.Rules", RuleLoadType::Class, 0, StoreRead::Missing).unwrap();
    match raw.content {
        RawContent::Structured(p) => {
            assert_eq!(p.entries.len(), 1);
            assert_eq!(p.entries[0].id, "Z");
            assert_eq!(p.loaded_at, 5);
        }
        RawContent::Text(_) => panic!("expected a structured pack"),
    }
    assert!(matches!(r.resolve("pkg.Other", RuleLoadType::Class, 0, StoreRead::Missing), Err(ErrorKind::SourceNotFound)));
}
