//! Settings documents: errors, defaults, and elements one by one.

use presguel::config::compile::parse_bksp_value;
use presguel::config::document::{Attr, Draft, Section};
use presguel::config::{BkspUnit, Config, ConfigError};
use presguel::expr::ExprError;
use presguel::unit::{Category, Jamo, TOGGLE};
use quick_xml::errors::{Error, IllFormedError, SyntaxError};
use quick_xml::escape::EscapeError;
use quick_xml::events::attributes::AttrError;

fn attrs(pairs: &[(&str, &str)]) -> Vec<Attr> {
    pairs
        .iter()
        .map(|(k, v)| Attr { key: k.as_bytes().to_vec(), value: v.to_string() })
        .collect()
}

fn open(d: &mut Draft, tag: &str, pairs: &[(&str, &str)]) -> Result<(), ConfigError> {
    d.open(&tag.as_bytes().to_vec(), &attrs(pairs))
}

#[test]
fn markup_faults() {
    assert!(matches!(Config::parse("<a></b>"), Err(ConfigError::Xml(_))));
    assert!(matches!(Config::parse("<a"), Err(ConfigError::Xml(_))));
    assert!(matches!(Config::parse("<a b=\"1\" b=\"2\"/>"), Err(ConfigError::Attr(_))));
    assert!(matches!(Config::parse("<a b=1/>"), Err(ConfigError::Attr(_))));
    assert!(matches!(Config::parse("<a b=\"&nope;\"/>"), Err(ConfigError::Xml(_))));
}

#[test]
fn faults_are_handed_on() {
    assert!(matches!(
        Config::parse("<a></b>"),
        Err(ConfigError::Xml(Error::IllFormed(IllFormedError::MismatchedEndTag { expected, found })))
            if expected == "a" && found == "b"
    ));
    assert!(matches!(
        Config::parse("<a/><b"),
        Err(ConfigError::Xml(Error::Syntax(SyntaxError::UnclosedTag)))
    ));
    assert!(matches!(
        Config::parse("<a b=\"x&nope;\"/>"),
        Err(ConfigError::Xml(Error::Escape(EscapeError::UnrecognizedEntity(at, name))))
            if at == (2..6) && name == "nope"
    ));
    assert!(matches!(
        Config::parse("<a b=\"1\" b=\"2\"/>"),
        Err(ConfigError::Attr(AttrError::Duplicated(8, 2)))
    ));
    assert!(matches!(Config::parse("<a b=1/>"), Err(ConfigError::Attr(AttrError::UnquotedValue(4)))));
}

#[test]
fn the_first_fault_counts() {
    assert!(matches!(
        Config::parse("<FinalConv from=\"x\" to=\"1\"/><a"),
        Err(ConfigError::BadInt(s)) if s == "x"
    ));
    assert!(matches!(Config::parse("<a b=\"&nope;\" c=1/>"), Err(ConfigError::Xml(_))));
    assert!(matches!(Config::parse("<a c=1 b=\"&nope;\"/>"), Err(ConfigError::Attr(_))));
}

#[test]
fn faults_in_elements() {
    assert!(matches!(
        Config::parse("<FinalConv from=\"1\" to=\"y\"/>"),
        Err(ConfigError::BadInt(s)) if s == "y"
    ));
    assert!(matches!(
        Config::parse("<InputSchemeSetting><Key at=\"0x41\" value=\"1 +\"/></InputSchemeSetting>"),
        Err(ConfigError::KeyExpr { at, source: ExprError::UnexpectedEnd }) if at == "0x41"
    ));
    assert!(matches!(
        Config::parse("<UnitMix unit=\"X\"/>"),
        Err(ConfigError::BadCategory(s)) if s == "X"
    ));
    assert!(matches!(
        Config::parse("<VirtualUnit unit=\"\"/>"),
        Err(ConfigError::BadCategory(s)) if s.is_empty()
    ));
    assert!(matches!(
        Config::parse("<InputEntry/><VirtualUnit unit=\"CHO\" from=\"q\"/>"),
        Err(ConfigError::BadInt(s)) if s == "q"
    ));
    assert!(Config::parse("<VirtualUnit unit=\"CHO\" from=\"q\"/>").is_ok());
}

#[test]
fn an_empty_document_sets_nothing() {
    let cfg = Config::parse("").unwrap();
    assert_eq!(cfg.version, "");
    assert!(cfg.entries.is_empty());
    assert!(cfg.editor.flags.is_empty());
    assert_eq!(cfg.first_hangul_entry(), None);
    assert!(matches!(cfg.compile(0), Err(ConfigError::NoEntry(0))));
}

#[test]
fn entities_are_resolved() {
    let cfg = Config::parse(
        "<EditContextSetting version=\"a&amp;b&lt;&#44032;&#x41;\"/>\
         <EditorLayer flag='X | Y|'/>",
    )
    .unwrap();
    assert_eq!(cfg.version, "a&b<가A");
    assert_eq!(cfg.editor.flags, ["X", "Y", ""]);
}

#[test]
fn texts_and_comments_mean_nothing() {
    let cfg = Config::parse(
        "<?xml version=\"1.0\"?><!-- <InputEntry/> --> text <![CDATA[<InputEntry/>]]>\
         <EditContextSetting version=\"1\"> text </EditContextSetting>",
    )
    .unwrap();
    assert_eq!(cfg.version, "1");
    assert!(cfg.entries.is_empty());
}

#[test]
fn elements_fill_a_draft() {
    let mut d = Draft::new();
    open(&mut d, "Bksp", &[("key", "1")]).unwrap();
    assert!(d.config.entries.is_empty());
    open(&mut d, "InputEntry", &[]).unwrap();
    open(&mut d, "GeneratorSetting", &[("object", "CNgsImeEx")]).unwrap();
    assert_eq!(d.section, Section::Generator);
    open(&mut d, "Key", &[("at", "nonsense")]).unwrap();
    d.close(&b"GeneratorSetting".to_vec());
    assert_eq!(d.section, Section::Outside);
    open(&mut d, "InputSchemeSetting", &[("object", "S")]).unwrap();
    open(&mut d, "Key", &[("at", "65"), ("value", "1")]).unwrap();
    assert!(d.config.entries[0].key_table.is_none());
    open(&mut d, "KeyTable", &[("name", "n"), ("from", "q")]).unwrap();
    open(&mut d, "Key", &[("at", "65"), ("value", "1")]).unwrap();
    open(&mut d, "Key", &[("at", "0x41"), ("value", "2")]).unwrap();
    open(&mut d, "Bksp", &[("key", "2"), ("value1", "v")]).unwrap();
    open(&mut d, "Automata", &[("state", "3"), ("value", "1"), ("default", "2"), ("remark", "r")]).unwrap();
    open(&mut d, "AutomataTable", &[("default", " 4 ")]).unwrap();
    open(&mut d, "Unheard", &[("a", "b")]).unwrap();
    let e = &d.config.entries[0];
    assert_eq!((e.scheme_object.as_str(), e.generator_object.as_str()), ("S", "CNgsImeEx"));
    let t = e.key_table.as_ref().unwrap();
    assert_eq!((t.name.as_str(), t.from, t.to, t.keys.len()), ("n", 33, 126, 1));
    assert_eq!(t.keys[&65].raw, "2");
    assert_eq!((e.bksp[0].key, e.bksp[0].value1.as_str()), (2, "v"));
    assert_eq!((e.automata[0].state, e.automata[0].remark.as_str()), (3, "r"));
    let l = d.config.compile(0).unwrap();
    assert_eq!(l.automata_start, 4);
    assert_eq!(l.bksp.composing, BkspUnit::LastKey);
}

#[test]
fn earlier_entries_are_left_alone() {
    let mut d = Draft::new();
    open(&mut d, "InputEntry", &[]).unwrap();
    open(&mut d, "InputEntry", &[]).unwrap();
    open(&mut d, "UnitMix", &[("unit", "CHO"), ("a", "G_"), ("b", "G_"), ("to", "GG")]).unwrap();
    assert_eq!(d.config.entries.len(), 2);
    assert!(d.config.entries[0].unit_mix.is_empty());
    assert_eq!(d.config.entries[1].unit_mix.len(), 1);
}

fn with_rows(rows: &str) -> Config {
    Config::parse(&format!("<InputEntry>{rows}</InputEntry>")).unwrap()
}

#[test]
fn rows_that_do_not_compile() {
    for (row, text) in [
        ("<UnitMix unit=\"CHO\" a=\"?\" b=\"G_\" to=\"GG\"/>", "?"),
        ("<UnitMix unit=\"CHO\" a=\"G_\" b=\"!\" to=\"GG\"/>", "!"),
        ("<UnitMix unit=\"CHO\" a=\"G_\" b=\"0x820000\" to=\"GG\"/>", "0x820000"),
        ("<UnitMix unit=\"CHO\" a=\"500\" b=\"G_\" to=\"GG\"/>", "500"),
        ("<UnitMix unit=\"CHO\" a=\"G_\" b=\"1\" to=\"2\"/>", "2"),
        ("<VirtualUnit unit=\"JUNG\" from=\"1\" to=\"G_\"/>", "G_"),
    ] {
        match with_rows(row).compile(0) {
            Err(ConfigError::BadUnit(s)) => assert_eq!(s, text, "{row}"),
            other => panic!("{row}: {other:?}"),
        }
    }
    assert!(matches!(
        with_rows("<Automata state=\"7\" value=\"1\" default=\"\"/>").compile(0),
        Err(ConfigError::AutomataExpr { state: 7, source: ExprError::UnexpectedEnd })
    ));
    assert!(matches!(with_rows("").compile(1), Err(ConfigError::NoEntry(1))));
}

#[test]
fn later_rows_override_earlier_ones() {
    let l = with_rows(
        "<UnitMix unit=\"CHO\" a=\"G_\" b=\"500\" to=\"GG\"/>\
         <UnitMix unit=\"CHO\" a=\"G_\" b=\"500\" to=\"K_\"/>\
         <VirtualUnit unit=\"JUNG\" from=\"128\" to=\"O_\"/>\
         <VirtualUnit unit=\"JUNG\" from=\"128\" to=\"U_\"/>",
    )
    .compile(0)
    .unwrap();
    assert_eq!(l.combine(Category::Cho, 0x1100, TOGGLE), Some(0x110F));
    assert_eq!(l.combine(Category::Jong, 0x1100, TOGGLE), None);
    assert_eq!(l.combine(Category::Cho, TOGGLE, 0x1100), None);
    assert_eq!(l.virtual_units.get(&128), Some(&Jamo::new(Category::Jung, 0x116E)));
}

#[test]
fn letters_on_their_own() {
    let cfg = Config::parse(
        "<FinalConv from=\"0x1100\" to=\"0x41\"/><FinalConv from=\"0x1102\" to=\"0xD800\"/><InputEntry/>",
    )
    .unwrap();
    let l = cfg.compile(0).unwrap();
    assert_eq!(l.standalone(Jamo::new(Category::Cho, 0x1100)), Some('A'));
    assert_eq!(l.standalone(Jamo::new(Category::Cho, 0x1102)), None);
    assert_eq!(l.standalone(Jamo::new(Category::Cho, 0x1103)), Some('ㄷ'));
    assert_eq!(l.standalone(Jamo::new(Category::Cho, 0x1140)), None);
}

#[test]
fn flags_of_the_deleting_key() {
    assert_eq!(parse_bksp_value("ByUnitStep|BkspAttach"), (BkspUnit::LastKey, true));
    assert_eq!(parse_bksp_value(" 1 "), (BkspUnit::LowestLastKey, false));
    assert_eq!(parse_bksp_value("2"), (BkspUnit::LowestWhole, false));
    assert_eq!(parse_bksp_value("3"), (BkspUnit::Syllable, false));
    assert_eq!(parse_bksp_value("2|0"), (BkspUnit::LastKey, false));
    assert_eq!(parse_bksp_value("BkspAttach|BySyllable|?"), (BkspUnit::Syllable, true));
    assert_eq!(parse_bksp_value(""), (BkspUnit::LastKey, false));
}

#[test]
fn either_value_can_attach() {
    let l = with_rows("<Bksp key=\"0\"/><Bksp key=\"1\" value1=\"2\" value2=\"BkspAttach\"/><Bksp key=\"1\"/>")
        .compile(0)
        .unwrap();
    assert_eq!((l.bksp.composing, l.bksp.idle), (BkspUnit::LowestWhole, BkspUnit::LastKey));
    assert!(l.bksp.attach);
}

#[test]
fn starting_states() {
    for (text, n) in [("5", 5), (" -3 ", -3), ("", 0), ("x", 0), ("9223372036854775808", 0)] {
        let l = with_rows(&format!("<AutomataTable default=\"{text}\"/>")).compile(0).unwrap();
        assert_eq!(l.automata_start, n, "{text:?}");
    }
    let low = with_rows("<AutomataTable default=\"-9223372036854775808\"/>");
    assert_eq!(low.compile(0).unwrap().automata_start, i64::MIN);
}
