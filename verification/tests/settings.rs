//! User settings.

use presguel::settings::Settings;

#[test]
fn default_is_full_mode() {
    let s = Settings::default();
    assert!(!s.simple_mode);
}

#[test]
fn parse_basic() {
    let s = Settings::parse("simple_mode = true\nhangul_entry=0\nlatin_entry = 1\n");
    assert!(s.simple_mode);
    assert_eq!(s.hangul_entry, 0);
    assert_eq!(s.latin_entry, 1);
}

#[test]
fn parse_ignores_comments_and_unknown() {
    let s = Settings::parse("# 주석\nsimple_mode=on\nfoo=bar\n\n");
    assert!(s.simple_mode);
    assert_eq!(s.hangul_entry, 0);
}

#[test]
fn parse_empty_is_default() {
    assert_eq!(Settings::parse(""), Settings::default());
}

#[test]
fn bool_forms() {
    assert!(Settings::parse("simple_mode=1").simple_mode);
    assert!(Settings::parse("simple_mode=yes").simple_mode);
    assert!(!Settings::parse("simple_mode=off").simple_mode);
    assert!(!Settings::parse("simple_mode=garbage").simple_mode);
}
