use pls::configuration::Configuration;
use pls::lookup::ConfigurationLookup;

fn lines(raw: &[&str]) -> Vec<String> {
    raw.iter().map(|l| l.to_string()).collect()
}

fn lookup_over(raw: &[&str]) -> ConfigurationLookup {
    let file = lines(raw);
    ConfigurationLookup::new(Configuration::new(Some("/tmp/conf".to_string()), Some(&file)))
}

const GRAY: (u8, u8, u8) = (200, 200, 200);

#[test]
fn default_rules_color_js_files() {
    // A fresh configuration: no file to read, so the defaults apply.
    let classifier = ConfigurationLookup::new(Configuration::new(None, None));
    assert_eq!(classifier.get_color("index.js"), (255, 255, 0));
    assert_ne!(classifier.get_color("index.js"), GRAY);
}

#[test]
fn matching_rule_resolves_its_value() {
    let classifier = lookup_over(&[".*.md=#112233", "no_permissions"]);
    assert_eq!(classifier.get_color("readme.md"), (17, 34, 51));
}

#[test]
fn no_matching_rule_is_default() {
    let classifier = lookup_over(&["^xyz$=#112233", "no_permissions"]);
    assert_eq!(classifier.get_color("readme.md"), GRAY);
}

#[test]
fn first_matching_rule_wins() {
    let classifier = lookup_over(&["readme=#010203", "me=#040506"]);
    assert_eq!(classifier.get_color("readme.md"), (1, 2, 3));
}

#[test]
fn matching_is_case_sensitive() {
    let classifier = lookup_over(&[".*\\.java$=#112233"]);
    assert_eq!(classifier.get_color("Test.JAVA"), GRAY);
    assert_eq!(classifier.get_color("Test.java"), (17, 34, 51));
}

#[test]
fn bad_rule_degrades_to_default() {
    let classifier = lookup_over(&["*.md=#112233"]);
    assert_eq!(classifier.get_color("readme.md"), GRAY);
    // The embedding program can still name the offending rule.
    let err = classifier.configuration().get_value("readme.md").unwrap_err();
    assert_eq!(err.pattern, "*.md");
}

#[test]
fn matching_rule_with_bad_value_is_gray() {
    let classifier = lookup_over(&["readme=notacolor"]);
    assert_eq!(classifier.get_color("readme.md"), GRAY);
}

#[test]
fn flags_never_color() {
    let classifier = lookup_over(&["readme.md"]);
    assert_eq!(classifier.get_color("readme.md"), GRAY);
}
