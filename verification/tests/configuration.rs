use pls::configuration::Configuration;
use pls::configuration::resolve_path;
use pls::entry::ConfigurationEntry;

fn lines(raw: &[&str]) -> Vec<String> {
    raw.iter().map(|l| l.to_string()).collect()
}

fn entry_text(entry: &ConfigurationEntry) -> String {
    match entry {
        ConfigurationEntry::Pair(pattern, value) => format!("{}={}", pattern, value),
        ConfigurationEntry::Flag(name) => name.clone(),
    }
}

fn entry_texts(config: &Configuration) -> Vec<String> {
    config.entries().iter().map(entry_text).collect()
}

const DEFAULT_TEXTS: [&str; 6] = [
    ".*.js$=#ffff00",
    ".*.java$=#efe232",
    "Cargo.toml$=#ffa500",
    "Cargo.lock$=#ffa500",
    ".*.rs=#ffa500",
    "no_permissions",
];

#[test]
fn resolves_path_under_home() {
    let path = resolve_path(Some("/home/someone"));
    assert_eq!(path.as_deref(), Some("/home/someone/.pls/conf"));
}

#[test]
fn no_home_no_path() {
    assert_eq!(resolve_path(None), None);
}

#[test]
fn missing_file_installs_defaults_dirty() {
    let config = Configuration::new(Some("/tmp/conf".to_string()), None);
    assert_eq!(entry_texts(&config), DEFAULT_TEXTS);
    assert!(config.dirty());
}

#[test]
fn empty_file_installs_defaults_dirty() {
    let config = Configuration::new(Some("/tmp/conf".to_string()), Some(&lines(&[])));
    assert_eq!(entry_texts(&config), DEFAULT_TEXTS);
    assert!(config.dirty());
}

#[test]
fn file_of_headers_and_blanks_installs_defaults() {
    let file = lines(&["[colours]", "", "[flags]", ""]);
    let config = Configuration::new(Some("/tmp/conf".to_string()), Some(&file));
    assert_eq!(entry_texts(&config), DEFAULT_TEXTS);
    assert!(config.dirty());
}

#[test]
fn loaded_file_is_clean() {
    let file = lines(&["[colours]", "*.md=#112233", "", "[flags]", "no_permissions"]);
    let config = Configuration::new(Some("/tmp/conf".to_string()), Some(&file));
    assert_eq!(entry_texts(&config), ["*.md=#112233", "no_permissions"]);
    assert!(!config.dirty());
}

#[test]
fn add_entry_marks_dirty() {
    let file = lines(&["a=b"]);
    let mut config = Configuration::new(Some("/tmp/conf".to_string()), Some(&file));
    assert!(!config.dirty());
    config.add_entry("*.txt=#ffffff");
    assert!(config.dirty());
    assert_eq!(entry_texts(&config), ["a=b", "*.txt=#ffffff"]);
}

#[test]
fn get_value_first_match_wins() {
    let file = lines(&["readme=#111111", "me=#222222"]);
    let config = Configuration::new(Some("/tmp/conf".to_string()), Some(&file));
    let value = config.get_value("readme.md").unwrap();
    assert_eq!(value.as_deref(), Some("#111111"));
}

#[test]
fn get_value_skips_earlier_nonmatching() {
    let file = lines(&["nothing=#111111", "me=#222222"]);
    let config = Configuration::new(Some("/tmp/conf".to_string()), Some(&file));
    let value = config.get_value("readme.md").unwrap();
    assert_eq!(value.as_deref(), Some("#222222"));
}

#[test]
fn get_value_ignores_flags() {
    let file = lines(&["readme", "me=#222222"]);
    let config = Configuration::new(Some("/tmp/conf".to_string()), Some(&file));
    let value = config.get_value("readme.md").unwrap();
    assert_eq!(value.as_deref(), Some("#222222"));
}

#[test]
fn get_value_no_match_is_none() {
    let file = lines(&["^xyz$=#222222"]);
    let config = Configuration::new(Some("/tmp/conf".to_string()), Some(&file));
    let value = config.get_value("readme.md").unwrap();
    assert_eq!(value, None);
}

#[test]
fn get_value_search_is_unanchored() {
    let file = lines(&["adm=#222222"]);
    let config = Configuration::new(Some("/tmp/conf".to_string()), Some(&file));
    let value = config.get_value("readme.md").unwrap();
    assert_eq!(value.as_deref(), Some("#222222"));
}

#[test]
fn get_value_bad_pattern_is_error() {
    let file = lines(&["*.md=#112233", "me=#222222"]);
    let config = Configuration::new(Some("/tmp/conf".to_string()), Some(&file));
    let err = config.get_value("readme.md").unwrap_err();
    assert_eq!(err.pattern, "*.md");
}

#[test]
fn sync_writes_fixed_section_layout() {
    let file = lines(&["a=b", "flagname", "c=d"]);
    let config = Configuration::new(Some("/tmp/conf".to_string()), Some(&file));
    let written = config.sync();
    assert_eq!(written, ["[colours]", "a=b", "c=d", "", "[flags]", "flagname"]);
}

#[test]
fn sync_then_load_round_trips_grouped() {
    let file = lines(&["a=b", "flagname", "c=d"]);
    let config = Configuration::new(Some("/tmp/conf".to_string()), Some(&file));
    let written = config.sync();
    let reloaded = Configuration::new(Some("/tmp/conf".to_string()), Some(&written));
    assert_eq!(entry_texts(&reloaded), ["a=b", "c=d", "flagname"]);
    assert!(!reloaded.dirty());
    // A second trip is the identity: the entries are already grouped.
    let rewritten = reloaded.sync();
    assert_eq!(rewritten, written);
}

#[test]
fn finalize_clean_config_writes_nothing() {
    let file = lines(&["a=b"]);
    let config = Configuration::new(Some("/tmp/conf".to_string()), Some(&file));
    assert!(!config.dirty());
    assert_eq!(config.finalize(), None);
}

#[test]
fn finalize_without_path_writes_nothing() {
    let mut config = Configuration::new(None, None);
    config.add_entry("*.txt=#ffffff");
    assert!(config.dirty());
    assert_eq!(config.finalize(), None);
}

#[test]
fn finalize_dirty_config_writes_default_layout() {
    let config = Configuration::new(Some("/tmp/conf".to_string()), Some(&lines(&[])));
    let written = config.finalize().expect("a dirty configuration with a path must persist");
    assert_eq!(
        written,
        [
            "[colours]",
            ".*.js$=#ffff00",
            ".*.java$=#efe232",
            "Cargo.toml$=#ffa500",
            "Cargo.lock$=#ffa500",
            ".*.rs=#ffa500",
            "",
            "[flags]",
            "no_permissions",
        ]
    );
}

#[test]
fn path_is_kept() {
    let config = Configuration::new(Some("/tmp/conf".to_string()), None);
    assert_eq!(config.path().as_deref(), Some("/tmp/conf"));
    let homeless = Configuration::new(None, None);
    assert_eq!(homeless.path(), &None);
}
