//! Letters, units, syllables and physical keys.

use presguel::jamo::compose;
use presguel::ngs_seq::ngs_seq;
use presguel::unit::{
    parse_int, resolve_mnemonic, resolve_numeric, resolve_operand, Category, Jamo, Unit, TOGGLE,
};
use presguel::us_qwerty_ascii;

fn cho(cp: u32) -> Option<Unit> {
    Some(Unit::Jamo(Jamo::new(Category::Cho, cp)))
}

fn jung(cp: u32) -> Option<Unit> {
    Some(Unit::Jamo(Jamo::new(Category::Jung, cp)))
}

fn jong(cp: u32) -> Option<Unit> {
    Some(Unit::Jamo(Jamo::new(Category::Jong, cp)))
}

#[test]
fn numbers_in_two_radixes() {
    assert_eq!(parse_int("500"), Some(500));
    assert_eq!(parse_int("0x1F4"), Some(500));
    assert_eq!(parse_int("0X1f4"), Some(500));
    assert_eq!(parse_int("+7"), Some(7));
    assert_eq!(parse_int("4294967295"), Some(u32::MAX));
    assert_eq!(parse_int("0xFFFFFFFF"), Some(u32::MAX));
    for s in ["", "-1", "4294967296", "0x100000000", "0x", "1F", " 1", "x"] {
        assert_eq!(parse_int(s), None, "{s:?}");
    }
}

#[test]
fn units_by_number() {
    assert_eq!(resolve_numeric(TOGGLE), Some(Unit::Toggle));
    assert_eq!(resolve_numeric(0x1100), cho(0x1100));
    assert_eq!(resolve_numeric(0xA960), cho(0xA960));
    assert_eq!(resolve_numeric(0x1161), jung(0x1161));
    assert_eq!(resolve_numeric(0xD7B0), jung(0xD7B0));
    assert_eq!(resolve_numeric(0x11C2), jong(0x11C2));
    assert_eq!(resolve_numeric(0xD7CB), jong(0xD7CB));
    assert_eq!(resolve_numeric(0x10000), Some(Unit::Virtual(1)));
    assert_eq!(resolve_numeric(0x10001), None);
    assert_eq!(resolve_numeric(0), None);
    assert_eq!(resolve_numeric(0xAC00), None);
}

#[test]
fn units_by_name() {
    assert_eq!(resolve_mnemonic("G_", None), cho(0x1100));
    assert_eq!(resolve_mnemonic("Q", None), cho(0x110B));
    assert_eq!(resolve_mnemonic("H_", None), cho(0x1112));
    assert_eq!(resolve_mnemonic("A_", None), jung(0x1161));
    assert_eq!(resolve_mnemonic("OE", None), jung(0x116C));
    assert_eq!(resolve_mnemonic("OI", None), jung(0x116C));
    assert_eq!(resolve_mnemonic("I_", None), jung(0x1175));
    assert_eq!(resolve_mnemonic("_G", None), jong(0x11A8));
    assert_eq!(resolve_mnemonic("_RH", None), jong(0x11B6));
    assert_eq!(resolve_mnemonic("_H", None), jong(0x11C2));
    assert_eq!(resolve_mnemonic("R_", Some(Category::Jong)), jong(0x11AF));
    assert_eq!(resolve_mnemonic("G_", Some(Category::Jung)), None);
    assert_eq!(resolve_mnemonic("_A", None), None);
    assert_eq!(resolve_mnemonic("g_", None), None);
    assert_eq!(resolve_mnemonic("", None), None);
}

#[test]
fn operands_are_numbers_or_names() {
    assert_eq!(resolve_operand("500", Some(Category::Cho)), Some(Unit::Toggle));
    assert_eq!(resolve_operand("0x11A8", Some(Category::Cho)), jong(0x11A8));
    assert_eq!(resolve_operand("GG", Some(Category::Jong)), jong(0x11A9));
    assert_eq!(resolve_operand("1", None), None);
}

#[test]
fn names_agree_with_numbers() {
    for name in ["G_", "SS", "YAE", "_NJ", "_BS", "WEO"] {
        match resolve_mnemonic(name, None) {
            Some(Unit::Jamo(j)) => assert_eq!(resolve_numeric(j.cp), Some(Unit::Jamo(j))),
            other => panic!("{name}: {other:?}"),
        }
    }
}

#[test]
fn compatibility_letters() {
    let compat = |cat, cp| Jamo::new(cat, cp).default_compat();
    assert_eq!(compat(Category::Cho, 0x1100), Some('ㄱ' as u32));
    assert_eq!(compat(Category::Cho, 0x1112), Some('ㅎ' as u32));
    assert_eq!(compat(Category::Jung, 0x1161), Some('ㅏ' as u32));
    assert_eq!(compat(Category::Jung, 0x1175), Some('ㅣ' as u32));
    assert_eq!(compat(Category::Jong, 0x11AA), Some('ㄳ' as u32));
    assert_eq!(compat(Category::Jong, 0x11B9), Some('ㅄ' as u32));
    assert_eq!(compat(Category::Jong, 0x11C2), Some('ㅎ' as u32));
    assert_eq!(compat(Category::Cho, 0x114C), None);
    assert_eq!(compat(Category::Jung, 0x1100), None);
}

#[test]
fn modern_letters_compose() {
    assert_eq!(compose(0x1100, 0x1161, None), Some('가'));
    assert_eq!(compose(0x1100, 0x1161, Some(0x11A8)), Some('각'));
    assert_eq!(compose(0x1112, 0x1175, Some(0x11C2)), Some('힣'));
    assert_eq!(compose(0x110B, 0x116F, None), Some('워'));
    assert_eq!(compose(0x114C, 0x1161, None), None);
    assert_eq!(compose(0x1100, 0x1176, None), None);
    assert_eq!(compose(0x1100, 0x1161, Some(0x11A7)), None);
}

#[test]
fn syllables_differ_where_letters_do() {
    let mut seen = std::collections::HashSet::new();
    for l in 0x1100..0x1113 {
        for v in 0x1161..0x1176 {
            assert!(seen.insert(compose(l, v, None).unwrap()));
            for t in 0x11A8..0x11C3 {
                assert!(seen.insert(compose(l, v, Some(t)).unwrap()));
            }
        }
    }
    assert_eq!(seen.len(), 11172);
    assert!(seen.iter().all(|c| ('가'..='힣').contains(c)));
}

#[test]
fn sequence_numbers() {
    assert_eq!(ngs_seq(Category::Cho, 0x1100), Some(1));
    assert_eq!(ngs_seq(Category::Cho, 0x110F), Some(176));
    assert_eq!(ngs_seq(Category::Cho, 0x1112), Some(185));
    assert_eq!(ngs_seq(Category::Cho, 0x114C), None);
    assert_eq!(ngs_seq(Category::Jung, 0x1161), Some(1));
    assert_eq!(ngs_seq(Category::Jong, 0x11C2), Some(27));
    for (cat, first, n) in [(Category::Cho, 0x1100, 19), (Category::Jung, 0x1161, 21), (Category::Jong, 0x11A8, 27)] {
        let all: Vec<u16> = (first..first + n).map(|cp| ngs_seq(cat, cp).unwrap()).collect();
        assert!(all.windows(2).all(|w| w[0] < w[1]));
    }
}

#[test]
fn physical_keys() {
    let row = |codes: std::ops::RangeInclusive<u32>, shift| -> String {
        codes.map(|k| us_qwerty_ascii(k, shift).unwrap() as char).collect()
    };
    assert_eq!(row(2..=13, false), "1234567890-=");
    assert_eq!(row(2..=13, true), "!@#$%^&*()_+");
    assert_eq!(row(16..=27, false), "qwertyuiop[]");
    assert_eq!(row(16..=27, true), "QWERTYUIOP{}");
    assert_eq!(row(30..=41, false), "asdfghjkl;'`");
    assert_eq!(row(30..=41, true), "ASDFGHJKL:\"~");
    assert_eq!(row(43..=53, false), "\\zxcvbnm,./");
    assert_eq!(row(43..=53, true), "|ZXCVBNM<>?");
    assert_eq!(us_qwerty_ascii(57, true), Some(b' '));
    for k in [0, 1, 14, 15, 28, 29, 42, 54, 55, 56, 58, 1000] {
        assert_eq!(us_qwerty_ascii(k, false), None);
    }
}
