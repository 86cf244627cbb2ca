//! Composing with whole layouts: typing, deleting, and what holds of both.

use presguel::config::{BkspUnit, Config};
use presguel::engine::{Engine, KeyOutcome};

/// A layout with an automaton, virtual units, combinations and conditional keys.
const THREE_SET: &str = r#"<EditContextSetting version="0x500">
  <InputLayer default="0" current="0"><InputEntry>
    <InputSchemeSetting object="CBasicInputScheme"><KeyTable name="three">
      <Key at="0x6B" value="H3|G_"/><Key at="0x68" value="H3|N_"/><Key at="0x75" value="H3|D_"/>
      <Key at="0x79" value="H3|R_"/><Key at="0x69" value="H3|M_"/><Key at="0x6E" value="H3|S_"/>
      <Key at="0x6A" value="H3|Q_"/><Key at="0x6C" value="H3|J_"/>
      <Key at="0x66" value="H3|A_"/><Key at="0x74" value="H3|EO"/><Key at="0x64" value="H3|I_"/>
      <Key at="0x2F" value="H3|O_"/><Key at="0x39" value="H3|U_"/><Key at="0x38" value="H3|YI"/>
      <Key at="0x76" value="H3|0x800000"/><Key at="0x62" value="H3|0x810000"/><Key at="0x67" value="H3|0x820000"/>
      <Key at="0x78" value="H3|_G"/><Key at="0x73" value="H3|_N"/><Key at="0x77" value="H3|_R"/>
      <Key at="0x71" value="H3|_S"/><Key at="0x57" value="H3|_T"/><Key at="0x51" value="H3|_P"/>
      <Key at="0x46" value="H3|_RM"/><Key at="0x56" value="H3|_GS"/><Key at="0x53" value="H3|_NH"/>
      <Key at="0x58" value="H3|_BS"/>
      <Key at="0x40" value="T ? H3|_RG : 0x40"/><Key at="0x24" value="T ? H3|0x1F4 : 0x24"/>
      <Key at="0x23" value="C0|0x82"/><Key at="0x25" value="Z"/><Key at="0x26" value="-1"/>
      <Key at="0x5A" value="97^(P&amp;1)&lt;&lt;5"/>
    </KeyTable></InputSchemeSetting>
    <GeneratorSetting object="CNgsImeEx">
      <UnitMixTable>
        <UnitMix unit="CHO" a="G_" b="G_" to="GG"/><UnitMix unit="CHO" a="G_" b="500" to="GG"/>
        <UnitMix unit="CHO" a="GG" b="500" to="G_"/><UnitMix unit="CHO" a="D_" b="500" to="DD"/>
        <UnitMix unit="CHO" a="S_" b="500" to="SS"/><UnitMix unit="CHO" a="J_" b="500" to="JJ"/>
        <UnitMix unit="JUNG" a="O_" b="A_" to="WA"/><UnitMix unit="JUNG" a="U_" b="EO" to="WEO"/>
        <UnitMix unit="JUNG" a="O_" b="I_" to="OE"/><UnitMix unit="JUNG" a="U_" b="I_" to="WI"/>
        <UnitMix unit="JONG" a="R_" b="S_" to="RS"/><UnitMix unit="JONG" a="R_" b="T_" to="RT"/>
      </UnitMixTable>
      <VirtualUnitTable>
        <VirtualUnit unit="JUNG" from="128" to="O_"/><VirtualUnit unit="JUNG" from="129" to="U_"/>
        <VirtualUnit unit="JUNG" from="130" to="EU"/>
      </VirtualUnitTable>
      <AutomataTable default="0">
        <Automata state="0" value="1" default="0"/>
        <Automata state="1" value="A || B || C ? (A || D)&amp;&amp;(B || E) ? 2 : 1 : -2" default="-1"/>
        <Automata state="2" value="A&amp;&amp;A!=500 ? 0 : B||C||A==500 ? 2 : -2" default="0"/>
      </AutomataTable>
    </GeneratorSetting>
  </InputEntry></InputLayer>
</EditContextSetting>"#;

fn three_set() -> Engine {
    Engine::new(Config::parse(THREE_SET).unwrap().compile(0).unwrap())
}

/// A layout of four keys (a: an initial, b: a vowel, c: a final, d: an old initial) with the
/// given rows for its generator.
fn small(rows: &str) -> Engine {
    let xml = format!(
        r#"<InputEntry><InputSchemeSetting><KeyTable>
            <Key at="97" value="H3|G_"/><Key at="98" value="H3|A_"/><Key at="99" value="H3|_N"/>
            <Key at="100" value="H3|0x114C"/><Key at="101" value="H3|500"/><Key at="102" value="H3|0x10000"/>
            <Key at="65" value="65"/>
        </KeyTable></InputSchemeSetting><GeneratorSetting>{rows}</GeneratorSetting></InputEntry>"#
    );
    Engine::new(Config::parse(&xml).unwrap().compile(0).unwrap())
}

fn type_keys(e: &mut Engine, keys: &str) -> String {
    let mut out = String::new();
    for k in keys.bytes() {
        assert!(e.press_defined(k, false));
        let o = e.press(k, false);
        assert_eq!(o.preedit, e.preedit());
        assert_eq!(o.delete_before, 0);
        assert!(o.consumed || e.is_empty());
        out.push_str(&o.commit);
    }
    out
}

fn written(mut e: Engine, keys: &str) -> String {
    let mut out = type_keys(&mut e, keys);
    out.push_str(&e.flush());
    out
}

#[test]
fn a_three_set_layout_writes() {
    for (keys, text) in [
        ("kf", "가"),
        ("hf", "나"),
        ("uf", "다"),
        ("kfx", "각"),
        ("kfs", "간"),
        ("ifs", "만"),
        ("k/f", "과"),
        ("k9t", "궈"),
        ("j9t", "워"),
        ("j/d", "외"),
        ("j9d", "위"),
        ("j8", "의"),
        ("kf@", "갉"),
        ("ufF", "닮"),
        ("kfV", "갃"),
        ("jfS", "않"),
        ("kkf", "까"),
        ("k$f", "까"),
        ("n$f", "싸"),
        ("k$$f", "가"),
        ("u$f", "따"),
        ("l$f", "짜"),
        ("kfkf", "가가"),
        ("kfhf", "가나"),
        ("k", "ㄱ"),
        ("f", "ㅏ"),
        ("x", "ㄱ"),
        ("@", "@"),
        ("X", "ㅄ"),
        ("yfw", "랄"),
        ("yfwq", "랈"),
        ("yfwW", "랉"),
        ("ifQ", "맢"),
        ("kfxf", "각"),
        ("kvf", "과"),
        ("jg", "으"),
        ("kg", "그"),
    ] {
        assert_eq!(written(three_set(), keys), text, "{keys}");
    }
}

#[test]
fn literals_commands_and_failures() {
    let mut e = three_set();
    type_keys(&mut e, "kf");
    let command = e.press(b'#', false);
    assert_eq!((command.commit.as_str(), command.consumed), ("가", true));
    type_keys(&mut e, "k");
    let failure = e.press(b'%', false);
    assert_eq!((failure.commit.as_str(), failure.consumed), ("ㄱ", false));
    let none = e.press(b'&', false);
    assert_eq!((none.commit.as_str(), none.consumed), ("", true));
    assert_eq!(e.press(b'Z', false).commit, "a");
    assert_eq!(e.press(b'Z', true).commit, "A");
}

#[test]
fn unknown_keys_commit_with_their_character() {
    let mut e = small("");
    assert_eq!(e.press(b'?', false), KeyOutcome::default());
    type_keys(&mut e, "ab");
    let o = e.press(b'?', false);
    assert_eq!((o.commit.as_str(), o.consumed), ("가?", true));
    assert!(e.is_empty());
}

#[test]
fn rules_without_an_automaton() {
    for (keys, text) in [
        ("ab", "가"),
        ("abc", "간"),
        ("abab", "가가"),
        ("aab", "ㄱ가"),
        ("abb", "가ㅏ"),
        ("abcb", "간ㅏ"),
        ("abcc", "간ㄴ"),
        ("c", "ㄴ"),
        ("ac", "ㄱㄴ"),
        ("bc", "ㅏㄴ"),
        ("cb", "ㄴㅏ"),
        ("ba", "ㅏㄱ"),
        ("db", "\u{114C}\u{1161}"),
        ("dbc", "\u{114C}\u{1161}\u{11AB}"),
        ("d", "\u{114C}"),
        ("e", ""),
        ("f", ""),
        ("afb", "가"),
        ("abA", "가A"),
    ] {
        assert_eq!(written(small(""), keys), text, "{keys}");
    }
}

#[test]
fn a_state_without_rules_falls_back() {
    let rows = "<Automata state=\"1\" value=\"1\" default=\"1\"/>";
    assert_eq!(written(small(rows), "abab"), "가가");
    let rows = "<Automata state=\"0\" value=\"H3|G_\" default=\"Z\"/>";
    assert_eq!(written(small(rows), "abc"), "간");
    let rows = "<Automata state=\"0\" value=\"Z\" default=\"-2\"/>";
    assert_eq!(written(small(rows), "aba"), "가");
}

#[test]
fn codes_of_the_automaton() {
    let mut ignore = small("<Automata state=\"0\" value=\"B ? -1 : 0\" default=\"0\"/>");
    assert_eq!(type_keys(&mut ignore, "ab"), "");
    assert_eq!(ignore.preedit(), "ㄱ");
    let mut next = small("<Automata state=\"0\" value=\"-7\" default=\"0\"/>");
    assert_eq!(type_keys(&mut next, "ab"), "ㄱ");
    assert_eq!(next.preedit(), "ㅏ");
    assert_eq!(next.auto_state(), 0);
    let mut go = small("<Automata state=\"0\" value=\"9\" default=\"0\"/><Automata state=\"9\" value=\"0\" default=\"0\"/>");
    type_keys(&mut go, "a");
    assert_eq!(go.auto_state(), 9);
    assert_eq!(type_keys(&mut go, "b"), "ㄱ");
    assert_eq!(go.auto_state(), 9);
}

#[test]
fn old_letters_go_by_the_rules() {
    let rows = "<Automata state=\"0\" value=\"-1\" default=\"0\"/>";
    assert_eq!(written(small(rows), "ad"), "\u{114C}");
}

#[test]
fn deleting_undoes_typing() {
    let mut e = three_set();
    let mut shown = vec![String::new()];
    for k in "k$/fx".bytes() {
        e.press(k, false);
        shown.push(e.preedit());
    }
    assert_eq!(shown, ["", "ㄱ", "ㄲ", "꼬", "꽈", "꽉"]);
    for want in shown.iter().rev().skip(1) {
        assert!(e.backspace_defined());
        let o = e.backspace();
        assert_eq!((&o.preedit, o.commit.as_str(), o.consumed), (want, "", true));
    }
    assert!(e.is_empty());
    assert!(!e.backspace().consumed);
}

#[test]
fn a_run_of_deleting_keeps_its_unit() {
    let mut e = three_set();
    type_keys(&mut e, "kfx");
    e.backspace();
    assert_eq!(e.bksp_streak(), Some(BkspUnit::LastKey));
    e.backspace();
    assert_eq!(e.bksp_streak(), Some(BkspUnit::LastKey));
    type_keys(&mut e, "f");
    assert_eq!(e.bksp_streak(), None);
}

#[test]
fn units_of_deleting() {
    let mix = "<UnitMix unit=\"JONG\" a=\"_N\" b=\"_N\" to=\"_NH\"/>";
    let delete = |unit: &str, keys: &str| {
        let mut e = small(&format!("{mix}<Bksp key=\"1\" value1=\"{unit}\"/>"));
        type_keys(&mut e, keys);
        e.backspace().preedit
    };
    assert_eq!(delete("0", "abcc"), "간");
    assert_eq!(delete("1", "abcc"), "간");
    assert_eq!(delete("2", "abcc"), "가");
    assert_eq!(delete("3", "abcc"), "");
    assert_eq!(delete("1", "abe"), "ㄱ");
    assert_eq!(delete("1", "abef"), "ㄱ");
    assert_eq!(delete("2", "ae"), "");
}

#[test]
fn committed_syllables_are_taken_up_within_a_limit() {
    let mut e = small("<Bksp key=\"1\" value1=\"3|BkspAttach\"/>");
    for _ in 0..41 {
        type_keys(&mut e, "ab");
    }
    assert_eq!(e.backspace().delete_before, 0);
    let mut revived = 0;
    loop {
        let o = e.backspace();
        if !o.consumed {
            break;
        }
        assert_eq!(o.delete_before, 1);
        revived += 1;
    }
    assert_eq!(revived, 32);
}

#[test]
fn text_keeps_syllables_from_coming_back() {
    let mut e = small("<Bksp key=\"1\" value1=\"BkspAttach\"/>");
    type_keys(&mut e, "abaA");
    let o = e.backspace();
    assert_eq!(o, KeyOutcome::default());
}

#[test]
fn flush_and_reset_start_afresh() {
    let mut e = three_set();
    type_keys(&mut e, "kf");
    assert_eq!(e.auto_state(), 2);
    assert_eq!(e.flush(), "가");
    assert_eq!((e.auto_state(), e.is_empty(), e.preedit().as_str()), (0, true, ""));
    type_keys(&mut e, "kf");
    e.reset();
    assert_eq!((e.auto_state(), e.is_empty()), (0, true));
    assert_eq!(e.flush(), "");
}

#[test]
fn expressions_without_a_result_are_known_beforehand() {
    let mut e = small("<Automata state=\"0\" value=\"B ? 1/0 : 1\" default=\"0\"/><Automata state=\"1\" value=\"0\" default=\"0\"/>");
    assert!(e.press_defined(b'a', false));
    assert!(!e.press_defined(b'b', false));
    e.press(b'a', false);
    assert!(!e.press_defined(b'b', false));
    assert!(e.press_defined(b'a', false));
    assert!(e.press_defined(b'?', false));
    let e = small("<Automata state=\"0\" value=\"Z\" default=\"1%0\"/>");
    assert!(!e.press_defined(b'a', false));
    assert!(e.press_defined(b'd', false));
    let xml = "<InputEntry><InputSchemeSetting><KeyTable><Key at=\"97\" value=\"1/T\"/></KeyTable></InputSchemeSetting></InputEntry>";
    let e = Engine::new(Config::parse(xml).unwrap().compile(0).unwrap());
    assert!(!e.press_defined(b'a', false));
}

#[test]
fn deleting_without_a_result_is_known_beforehand() {
    let mut e = small(
        "<UnitMix unit=\"CHO\" a=\"G_\" b=\"G_\" to=\"GG\"/>\
         <Automata state=\"0\" value=\"1\" default=\"0\"/>\
         <Automata state=\"1\" value=\"D == 1 &amp;&amp; B ? 1/0 : 1\" default=\"0\"/>\
         <Bksp key=\"1\" value1=\"1\"/>",
    );
    type_keys(&mut e, "aab");
    assert_eq!(e.preedit(), "까");
    assert!(e.backspace_defined());
    let mut e = small(
        "<UnitMix unit=\"CHO\" a=\"G_\" b=\"500\" to=\"GG\"/>\
         <Automata state=\"0\" value=\"1\" default=\"0\"/>\
         <Automata state=\"1\" value=\"D == 1 &amp;&amp; B ? 1/0 : 1\" default=\"0\"/>\
         <Bksp key=\"1\" value1=\"0\"/>",
    );
    type_keys(&mut e, "aeb");
    e.press(b'e', false);
    assert!(e.backspace_defined());
}

#[test]
fn empty_exactly_where_nothing_is_shown() {
    let table = r#"<FinalConv from="0x1100" to="0xD800"/>"#;
    for rows in [
        "",
        table,
        r#"<Bksp key="1" value1="0|BkspAttach" value2="0"/>"#,
        r#"<Bksp key="1" value1="1|BkspAttach" value2="0"/>"#,
        r#"<Bksp key="1" value1="2" value2="0"/><UnitMix unit="CHO" a="G_" b="500" to="GG"/>"#,
        r#"<AutomataTable default="0"><Automata state="0" value="A ? 1 : 0" default="0"/>
           <Automata state="1" value="B || C ? 1 : A ? 0 : -1" default="0"/></AutomataTable>"#,
    ] {
        let mut e = small(rows);
        assert!(e.is_empty() && e.preedit().is_empty());
        for k in "aabc<d<bcef<<cba<A<abab<<<<e<d?c<<".bytes() {
            if k == b'<' {
                assert!(e.backspace_defined());
                e.backspace();
            } else {
                assert!(e.press_defined(k, false));
                e.press(k, false);
            }
            assert_eq!(e.is_empty(), e.preedit().is_empty());
        }
        e.press(b'a', false);
        assert!(!e.is_empty() && !e.preedit().is_empty());
        e.flush();
        assert!(e.is_empty() && e.preedit().is_empty());
        e.press(b'a', false);
        e.reset();
        assert!(e.is_empty() && e.preedit().is_empty());
    }
}

#[test]
fn deleting_restores_what_every_key_showed() {
    for rows in [
        r#"<UnitMix unit="CHO" a="G_" b="500" to="GG"/><UnitMix unit="CHO" a="GG" b="500" to="G_"/>"#,
        r#"<Bksp key="1" value1="0|BkspAttach" value2="0"/><VirtualUnit unit="JUNG" from="1" to="O_"/>
           <UnitMix unit="JUNG" a="O_" b="A_" to="WA"/>"#,
    ] {
        let mut e = small(rows);
        for k in "aeebcafbcdbc<<abfb<<".bytes() {
            if k == b'<' {
                e.backspace();
                continue;
            }
            let before = e.preedit();
            let pressed = e.press(k, false);
            if e.is_empty() {
                continue;
            }
            let mut undone = e.clone();
            let o = undone.backspace();
            let shown = if pressed.commit.is_empty() { before } else { String::new() };
            assert_eq!((o.preedit, o.commit, o.consumed, o.delete_before), (shown, String::new(), true, 0));
        }
    }
}

#[test]
fn deleting_twice_reaches_the_syllable_before() {
    let mut e = small(r#"<Bksp key="1" value1="0|BkspAttach" value2="0"/>"#);
    assert_eq!(type_keys(&mut e, "abca"), "간");
    let first = e.backspace();
    assert_eq!((first.preedit.as_str(), first.delete_before), ("", 0));
    let second = e.backspace();
    assert_eq!((second.preedit.as_str(), second.delete_before), ("가", 1));
    let third = e.backspace();
    assert_eq!((third.preedit.as_str(), third.delete_before), ("ㄱ", 0));
}

#[test]
fn an_automaton_has_no_variable_for_the_final() {
    let mut e = small(
        r#"<AutomataTable default="0"><Automata state="0" value="F ? 7 : 1" default="A ? 5 : 6"/></AutomataTable>"#,
    );
    type_keys(&mut e, "a");
    assert_eq!((e.preedit().as_str(), e.auto_state()), ("ㄱ", 5));
}
