//! Texts, files and the bus.

use presguel::bus::{address_file, display_name, find_address, Factory};
use presguel::paths::{find_config_home, resolve_config_path};
use presguel::settings::{debug_keys_enabled, Settings};
use presguel::text::{
    chars_of, parse_i64, parse_unsigned, parse_usize, same, split_at_each, starts_with, string_of,
    strip, to_lowercase, trim, write_numeral,
};

fn v(s: &str) -> Vec<char> {
    s.chars().collect()
}

#[test]
fn strings_and_characters() {
    assert_eq!(chars_of("가a"), ['가', 'a']);
    assert_eq!(string_of(&v("가나다라"), 1, 3), "나다");
    assert!(same("가", "가") && !same("가", "가나") && !same("가", "나"));
    assert!(starts_with("presguel:us", "presguel:") && !starts_with("pres", "presguel"));
    assert_eq!(to_lowercase(&v("AbZ[가Ä")), v("abz[가Ä"));
}

#[test]
fn cutting() {
    assert_eq!(trim(&v("\u{a0}\t a b \u{3000}\r\n")), v("a b"));
    assert_eq!(trim(&v("  ")), v(""));
    assert_eq!(strip(&v("__a_b_"), '_'), v("a_b"));
    assert_eq!(split_at_each(&v("a||b"), '|'), [v("a"), v(""), v("b")]);
    assert_eq!(split_at_each(&v(""), '|'), [v("")]);
}

#[test]
fn integers_are_read_as_rust_reads_them() {
    for s in ["0", "-0", "+5", "-5", "007", "9223372036854775807", "-9223372036854775808",
        "9223372036854775808", "-9223372036854775809", "", "+", "-", "--1", "1 ", "１"] {
        assert_eq!(parse_i64(&v(s)), s.parse().ok(), "{s:?}");
    }
    for s in ["0", "+5", "-5", "-0", "18446744073709551615", "18446744073709551616", "", "+", "a"] {
        assert_eq!(parse_usize(&v(s)), s.parse().ok(), "{s:?}");
    }
}

#[test]
fn numerals() {
    for n in [0u64, 9, 10, 255, 4096, u64::MAX] {
        let mut s = String::from(">");
        write_numeral(&mut s, n, 10);
        assert_eq!(s, format!(">{n}"));
        let mut s = String::new();
        write_numeral(&mut s, n, 16);
        assert_eq!(s, format!("{n:X}"));
        assert_eq!(parse_unsigned(&v(&s), 16, u64::MAX), Some(n));
    }
}

#[test]
fn settings_lines() {
    let s = Settings::parse("  simple_mode=TRUE\r\n#hangul_entry=5\r\nhangul_entry = +3 \rlatin\nlatin_entry==1\n=\nhangul_entry");
    assert_eq!(s, Settings { simple_mode: true, hangul_entry: 0, latin_entry: 1 });
    let s = Settings::parse("latin_entry=1\nlatin_entry=4\nlatin_entry=x\nhangul_entry=2");
    assert_eq!(s, Settings { simple_mode: false, hangul_entry: 2, latin_entry: 4 });
    assert_eq!(Settings::load(None), Settings::default());
    assert_eq!(Settings::load(Some("simple_mode=On")), Settings { simple_mode: true, ..Settings::default() });
    assert!(!Settings::parse("simple_mode=1\nsimple_mode=NO").simple_mode);
}

#[test]
fn paths_of_files() {
    let path = |g, x, h| Settings::path(g, x, h);
    assert_eq!(path(Some("/a"), Some("/x"), None).as_deref(), Some("/a"));
    assert_eq!(path(Some(""), Some("/x"), None).as_deref(), Some("/x/presguel/config.ini"));
    assert_eq!(path(None, Some(""), Some("/h/")).as_deref(), Some("/h/.config/presguel/config.ini"));
    assert_eq!(path(None, None, Some("")).as_deref(), Some(".config/presguel/config.ini"));
    assert_eq!(path(None, Some(""), None), None);
    assert_eq!(
        resolve_config_path(None, None, Some("/h")).as_deref(),
        Ok("/h/.config/presguel/nalgaeset.xml")
    );
    assert_eq!(
        resolve_config_path(None, None, None),
        Err("HOME/XDG_CONFIG_HOME 가 없음".to_string())
    );
    assert_eq!(find_config_home(Some("/x"), Some("/h")).as_deref(), Some("/x"));
}

#[test]
fn the_debug_variable() {
    for s in ["1", "true", "yes", "on"] {
        assert!(debug_keys_enabled(Some(s)));
    }
    for s in ["", "0", "TRUE", "off"] {
        assert!(!debug_keys_enabled(Some(s)));
    }
    assert!(!debug_keys_enabled(None));
}

#[test]
fn the_address_of_the_bus() {
    assert_eq!(display_name(Some("wayland-0"), ":1"), "wayland-0");
    assert_eq!(display_name(None, ":1.0"), "1");
    assert_eq!(display_name(None, "host:12"), "12");
    assert_eq!(display_name(None, ""), "0");
    assert_eq!(
        address_file("/h/.config", "abc", "0"),
        "/h/.config/ibus/bus/abc-unix-0"
    );
    assert_eq!(
        find_address("# comment\nIBUS_DAEMON_PID=1\n IBUS_ADDRESS= unix:path=/x \nIBUS_ADDRESS=y").as_deref(),
        Some("unix:path=/x")
    );
    assert_eq!(find_address("IBUS_ADDRES=1"), None);
}

#[test]
fn engine_objects_are_numbered() {
    let mut f = Factory::new();
    assert_eq!(f.create_engine("presguel").as_deref(), Ok("/org/freedesktop/IBus/Engine/1"));
    assert_eq!(f.create_engine("other"), Err("알 수 없는 엔진: other".to_string()));
    assert_eq!(f.create_engine("presguel:us:dvorak").as_deref(), Ok("/org/freedesktop/IBus/Engine/2"));
    assert!(Factory::accepts("presguel") && !Factory::accepts("presguel2"));
}
