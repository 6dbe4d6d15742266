use pls::entry::ConfigurationEntry;
use pls::entry::is_section_header;

fn as_pair(entry: &ConfigurationEntry) -> (&str, &str) {
    match entry {
        ConfigurationEntry::Pair(pattern, value) => (pattern, value),
        ConfigurationEntry::Flag(name) => panic!("expected a pair, got flag {}", name),
    }
}

fn as_flag(entry: &ConfigurationEntry) -> &str {
    match entry {
        ConfigurationEntry::Pair(pattern, value) => {
            panic!("expected a flag, got pair {}={}", pattern, value)
        }
        ConfigurationEntry::Flag(name) => name,
    }
}

#[test]
fn splits_on_equals() {
    let entry = ConfigurationEntry::new("*.md=#112233");
    assert_eq!(as_pair(&entry), ("*.md", "#112233"));
}

#[test]
fn splits_on_first_equals_only() {
    let entry = ConfigurationEntry::new("a=b=c");
    assert_eq!(as_pair(&entry), ("a", "b=c"));
}

#[test]
fn line_without_equals_is_flag() {
    let entry = ConfigurationEntry::new("no_permissions");
    assert_eq!(as_flag(&entry), "no_permissions");
}

#[test]
fn empty_value_is_still_pair() {
    let entry = ConfigurationEntry::new("key=");
    assert_eq!(as_pair(&entry), ("key", ""));
}

#[test]
fn empty_key_is_still_pair() {
    let entry = ConfigurationEntry::new("=value");
    assert_eq!(as_pair(&entry), ("", "value"));
}

#[test]
fn is_pair_distinguishes_variants() {
    assert!(ConfigurationEntry::new("a=b").is_pair());
    assert!(!ConfigurationEntry::new("a").is_pair());
}

#[test]
fn renders_pair_and_flag() {
    assert_eq!(ConfigurationEntry::new("a=b").to_line(), "a=b");
    assert_eq!(ConfigurationEntry::new("flagname").to_line(), "flagname");
}

#[test]
fn header_shapes() {
    assert!(is_section_header("[colours]"));
    assert!(is_section_header("[flags]"));
    assert!(is_section_header(" xx [ yy ] zz "));
    assert!(!is_section_header("no brackets"));
    assert!(!is_section_header("only [ open"));
    assert!(!is_section_header("only ] close"));
    assert!(!is_section_header("] reversed ["));
    assert!(!is_section_header(""));
}
