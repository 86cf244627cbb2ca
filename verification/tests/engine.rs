//! Composing.

use presguel::config::Config;
use presguel::engine::Engine;

const MINI: &str = r#"<?xml version="1.0" encoding="utf-8"?>
<EditContextSetting version="0x500">
  <EditorLayer flag="0">
    <FinalConvTable>
      <FinalConv from="0x1100" to="0x3131"/>
      <FinalConv from="0x1102" to="0x3134"/>
      <FinalConv from="0x1161" to="0x314F"/>
      <FinalConv from="0x11A8" to="0x3131"/>
    </FinalConvTable>
  </EditorLayer>
  <InputLayer default="0" current="0">
    <InputEntry>
      <InputSchemeSetting object="CBasicInputScheme">
        <KeyTable name="mini" flag="0" from="33" to="126">
          <Key at="0x6B" value="H3|G_"/>   <!-- k = 초성 ㄱ -->
          <Key at="0x68" value="H3|N_"/>   <!-- h = 초성 ㄴ -->
          <Key at="0x66" value="H3|A_"/>   <!-- f = 중성 ㅏ -->
          <Key at="0x2F" value="H3|O_"/>   <!-- / = 중성 ㅗ -->
          <Key at="0x78" value="H3|_G"/>   <!-- x = 종성 ㄱ -->
          <Key at="0x73" value="H3|_N"/>   <!-- s = 종성 ㄴ -->
          <Key at="0x24" value="T ? H3|0x1F4 : 0x24"/> <!-- $ = 갈마 토글 -->
          <Key at="0x21" value="0x21"/>    <!-- ! = 리터럴 '!' -->
        </KeyTable>
      </InputSchemeSetting>
      <GeneratorSetting object="CNgsImeEx">
        <UnitMixTable>
          <UnitMix unit="CHO" a="G_" b="500" to="GG"/>
          <UnitMix unit="CHO" a="GG" b="500" to="G_"/>
          <UnitMix unit="JUNG" a="O_" b="A_" to="WA"/>
        </UnitMixTable>
        <VirtualUnitTable/>
        <AutomataTable default="0"/>
      </GeneratorSetting>
    </InputEntry>
  </InputLayer>
</EditContextSetting>"#;

fn engine() -> Engine {
    let cfg = Config::parse(MINI).unwrap();
    Engine::new(cfg.compile(0).unwrap())
}

fn typ(e: &mut Engine, keys: &str) -> (String, String) {
    let mut committed = String::new();
    let mut preedit = String::new();
    for ch in keys.chars() {
        let out = e.press(ch as u8, false);
        committed.push_str(&out.commit);
        preedit = out.preedit;
    }
    (committed, preedit)
}

#[test]
fn simple_syllable() {
    let mut e = engine();
    let (c, p) = typ(&mut e, "kf");
    assert_eq!(c, "");
    assert_eq!(p, "가");
    assert_eq!(e.flush(), "가");
}

#[test]
fn syllable_with_jong() {
    let mut e = engine();
    let (_c, p) = typ(&mut e, "kfx");
    assert_eq!(p, "각");
}

#[test]
fn new_cho_commits_previous() {
    let mut e = engine();
    let (c, p) = typ(&mut e, "kfhf");
    assert_eq!(c, "가");
    assert_eq!(p, "나");
}

#[test]
fn compound_vowel() {
    let mut e = engine();
    let (_c, p) = typ(&mut e, "k/f");
    assert_eq!(p, "과");
}

#[test]
fn galma_toggle_tense() {
    let mut e = engine();
    let (_c, p) = typ(&mut e, "k$f");
    assert_eq!(p, "까");
    let mut e2 = engine();
    let (_c2, p2) = typ(&mut e2, "k$$f");
    assert_eq!(p2, "가");
}

#[test]
fn lone_jamo_finalconv() {
    let mut e = engine();
    let (_c, p) = typ(&mut e, "k");
    assert_eq!(p, "ㄱ");
    assert_eq!(e.flush(), "ㄱ");
}

#[test]
fn literal_commits_and_breaks() {
    let mut e = engine();
    e.press(b'k', false);
    let out = e.press(b'!', false);
    assert_eq!(out.commit, "ㄱ!");
    assert_eq!(out.preedit, "");
    assert!(out.consumed);
}

#[test]
fn backspace_unit_step() {
    let mut e = engine();
    typ(&mut e, "kfx");
    let o1 = e.backspace();
    assert_eq!(o1.preedit, "가");
    let o2 = e.backspace();
    assert_eq!(o2.preedit, "ㄱ");
    let o3 = e.backspace();
    assert_eq!(o3.preedit, "");
    let o4 = e.backspace();
    assert!(!o4.consumed);
}

#[test]
fn backspace_decomposes_compound() {
    let mut e = engine();
    typ(&mut e, "k$");
    assert_eq!(e.preedit(), "ㄲ");
    let o = e.backspace();
    assert_eq!(o.preedit, "ㄱ");
}

const OLD: &str = r#"<?xml version="1.0" encoding="utf-8"?>
<EditContextSetting version="0x500">
  <EditorLayer flag="0">
    <FinalConvTable>
      <FinalConv from="0x114C" to="0x3181"/>
      <FinalConv from="0x1161" to="0x314F"/>
    </FinalConvTable>
  </EditorLayer>
  <InputLayer default="0" current="0">
    <InputEntry>
      <InputSchemeSetting object="CBasicInputScheme">
        <KeyTable name="old" flag="0" from="33" to="126">
          <Key at="0x61" value="H3|0x114C"/> <!-- a = 옛이응 초성 (현대 밖) -->
          <Key at="0x62" value="H3|A_"/>      <!-- b = 중성 ㅏ -->
        </KeyTable>
      </InputSchemeSetting>
      <GeneratorSetting object="CNgsImeEx">
        <UnitMixTable/><VirtualUnitTable/><AutomataTable default="0"/>
      </GeneratorSetting>
    </InputEntry>
  </InputLayer>
</EditContextSetting>"#;

fn old_engine() -> Engine {
    let cfg = Config::parse(OLD).unwrap();
    Engine::new(cfg.compile(0).unwrap())
}

#[test]
fn old_hangul_lone_jamo_via_finalconv() {
    let mut e = old_engine();
    let (_c, p) = typ(&mut e, "a");
    assert_eq!(p, "\u{3181}");
}

#[test]
fn old_hangul_syllable_emits_conjoining() {
    let mut e = old_engine();
    let (_c, p) = typ(&mut e, "ab");
    assert_eq!(p, "\u{114C}\u{1161}");
    assert_eq!(p.chars().count(), 2);
}

#[test]
fn space_not_in_table_commits_and_consumes() {
    let mut e = engine();
    typ(&mut e, "kf");
    let out = e.press(b' ', false);
    assert_eq!(out.commit, "가 ");
    assert!(out.consumed);
}

const AUTO: &str = r#"<?xml version="1.0" encoding="utf-8"?>
<EditContextSetting version="0x500">
  <EditorLayer flag="0"><FinalConvTable/></EditorLayer>
  <InputLayer default="0" current="0">
    <InputEntry>
      <InputSchemeSetting object="CBasicInputScheme">
        <KeyTable name="auto" flag="0" from="33" to="126">
          <Key at="0x67" value="H3|G_"/>  <!-- g 초 ㄱ -->
          <Key at="0x6E" value="H3|N_"/>  <!-- n 초 ㄴ -->
          <Key at="0x63" value="H3|S_"/>  <!-- c 초 ㅅ -->
          <Key at="0x6B" value="H3|K_"/>  <!-- k 초 ㅋ -->
          <Key at="0x68" value="H3|H_"/>  <!-- h 초 ㅎ -->
          <Key at="0x61" value="H3|A_"/>  <!-- a 중 ㅏ -->
          <Key at="0x65" value="H3|EO"/>  <!-- e 중 ㅓ -->
          <Key at="0x6F" value="H3|O_"/>  <!-- o 중 ㅗ -->
          <Key at="0x6D" value="H3|_N"/>  <!-- m 종 ㄴ -->
          <Key at="0x69" value="H3|AE"/> <!-- i 중 ㅐ -->
        </KeyTable>
      </InputSchemeSetting>
      <GeneratorSetting object="CNgsImeEx">
        <UnitMixTable>
          <UnitMix unit="JUNG" a="O_" b="A_" to="WA"/>
        </UnitMixTable>
        <VirtualUnitTable/>
        <AutomataTable default="0">
          <Automata state="0" value="1" default="0" remark="초기"/>
          <Automata state="1" value="D==176&amp;&amp;A==176 || D==185&amp;&amp;A==185 ? 0 : A || B || C ? (A || D)&amp;&amp;(B || E) ? 2 : 1 : -2" default="-1" remark="미완성"/>
          <Automata state="2" value="A&amp;&amp;A!=500 ? 0 : B||C||A==500 ? 2 : -2" default="0" remark="완성"/>
        </AutomataTable>
      </GeneratorSetting>
    </InputEntry>
  </InputLayer>
</EditContextSetting>"#;

fn auto_engine() -> Engine {
    let cfg = Config::parse(AUTO).unwrap();
    Engine::new(cfg.compile(0).unwrap())
}

#[test]
fn automaton_loads() {
    let e = auto_engine();
    assert_eq!(e.layout().automata.len(), 3);
    assert_eq!(e.auto_state(), 0);
}

#[test]
fn infinite_jamo_edit_replaces_jung() {
    let mut e = auto_engine();
    let (c, p) = typ(&mut e, "cam");
    assert_eq!(c, "");
    assert_eq!(p, "산");
    let out = e.press(b'e', false);
    assert_eq!(out.commit, "");
    assert_eq!(out.preedit, "선");
}

#[test]
fn infinite_jamo_edit_jong() {
    let mut e = auto_engine();
    typ(&mut e, "gam");
    assert_eq!(e.preedit(), "간");
    let out = e.press(b'o', false);
    assert_eq!(out.preedit, "곤");
}

#[test]
fn kk_breaks_to_next_syllable() {
    let mut e = auto_engine();
    let o1 = e.press(b'k', false);
    assert_eq!(o1.preedit, "ㅋ");
    let o2 = e.press(b'k', false);
    assert_eq!(o2.commit, "ㅋ");
    assert_eq!(o2.preedit, "ㅋ");
}

#[test]
fn automaton_compound_vowel() {
    let mut e = auto_engine();
    let (_c, p) = typ(&mut e, "goa");
    assert_eq!(p, "과");
}

#[test]
fn automaton_new_cho_commits() {
    let mut e = auto_engine();
    typ(&mut e, "ga");
    let out = e.press(b'n', false);
    assert_eq!(out.commit, "가");
    assert_eq!(out.preedit, "ㄴ");
}

#[test]
fn backspace_after_infinite_edit() {
    let mut e = auto_engine();
    typ(&mut e, "ga");
    let o1 = e.press(b'i', false);
    assert_eq!(o1.preedit, "개");
    let o2 = e.backspace();
    assert_eq!(o2.preedit, "ㄱ");
}

#[test]
fn backspace_after_compound_keeps_steps() {
    let mut e = auto_engine();
    typ(&mut e, "goa");
    assert_eq!(e.preedit(), "과");
    let o = e.backspace();
    assert_eq!(o.preedit, "고");
}

fn bksp_engine(value1: &str) -> Engine {
    let xml = format!(
        r#"<?xml version="1.0" encoding="utf-8"?>
<EditContextSetting version="0x500">
  <EditorLayer flag="0"><FinalConvTable/></EditorLayer>
  <InputLayer default="0" current="0">
    <InputEntry>
      <InputSchemeSetting object="CBasicInputScheme">
        <KeyTable name="b" flag="0" from="33" to="126">
          <Key at="0x67" value="H3|G_"/><Key at="0x61" value="H3|A_"/>
          <Key at="0x6D" value="H3|_N"/><Key at="0x73" value="H3|_S"/>
        </KeyTable>
      </InputSchemeSetting>
      <GeneratorSetting object="CNgsImeEx">
        <UnitMixTable><UnitMix unit="JONG" a="_N" b="_S" to="_NJ"/></UnitMixTable>
        <VirtualUnitTable/>
        <AutomataTable default="0">
          <Automata state="0" value="1" default="0"/>
          <Automata state="1" value="A||B||C ? (A||D)&amp;&amp;(B||E) ? 2 : 1 : -2" default="-1"/>
          <Automata state="2" value="A&amp;&amp;A!=500 ? 0 : B||C||A==500 ? 2 : -2" default="0"/>
        </AutomataTable>
        <Extra><Bksp key="1" value1="{value1}" value2="BySyllable" condition1="0" condition2="0"/></Extra>
      </GeneratorSetting>
    </InputEntry>
  </InputLayer>
</EditContextSetting>"#
    );
    let cfg = Config::parse(&xml).unwrap();
    Engine::new(cfg.compile(0).unwrap())
}

#[test]
fn bksp_mode_lastkey() {
    let mut e = bksp_engine("ByUnitStep");
    typ(&mut e, "gam");
    let o = e.backspace();
    assert_eq!(o.preedit, "가");
}

#[test]
fn bksp_mode_syllable() {
    let mut e = bksp_engine("BySyllable");
    typ(&mut e, "gam");
    let o = e.backspace();
    assert_eq!(o.preedit, "");
}

#[test]
fn bksp_mode_lowest_whole() {
    let mut e = bksp_engine("2");
    typ(&mut e, "gams");
    assert_eq!(e.preedit(), "갅");
    let o = e.backspace();
    assert_eq!(o.preedit, "가");
}

#[test]
fn bksp_mode_lowest_lastkey() {
    let mut e = bksp_engine("1");
    typ(&mut e, "gams");
    assert_eq!(e.preedit(), "갅");
    let o = e.backspace();
    assert_eq!(o.preedit, "간");
}

#[test]
fn bksp_streak_keeps_initial_unit() {
    let mut e = bksp_engine("BySyllable");
    typ(&mut e, "gam");
    let o1 = e.backspace();
    assert_eq!(o1.preedit, "");
}

#[test]
fn bksp_streak_broken_by_press() {
    let mut e = bksp_engine("ByUnitStep");
    typ(&mut e, "ga");
    let _ = e.backspace();
    assert_eq!(e.preedit(), "ㄱ");
    typ(&mut e, "a");
    assert_eq!(e.preedit(), "가");
    assert!(e.bksp_streak().is_none());
}

fn attach_engine() -> Engine {
    let xml = r#"<?xml version="1.0" encoding="utf-8"?>
<EditContextSetting version="0x500">
  <EditorLayer flag="0"><FinalConvTable/></EditorLayer>
  <InputLayer default="0" current="0">
    <InputEntry>
      <InputSchemeSetting object="CBasicInputScheme">
        <KeyTable name="b" flag="0" from="33" to="126">
          <Key at="0x67" value="H3|G_"/><Key at="0x61" value="H3|A_"/>
          <Key at="0x6E" value="H3|N_"/><Key at="0x6D" value="H3|_N"/>
        </KeyTable>
      </InputSchemeSetting>
      <GeneratorSetting object="CNgsImeEx">
        <UnitMixTable/><VirtualUnitTable/>
        <AutomataTable default="0">
          <Automata state="0" value="1" default="0"/>
          <Automata state="1" value="A||B||C ? (A||D)&amp;&amp;(B||E) ? 2 : 1 : -2" default="-1"/>
          <Automata state="2" value="A&amp;&amp;A!=500 ? 0 : B||C||A==500 ? 2 : -2" default="0"/>
        </AutomataTable>
        <Extra><Bksp key="1" value1="ByUnitStep|BkspAttach" value2="BySyllable" condition1="0" condition2="0"/></Extra>
      </GeneratorSetting>
    </InputEntry>
  </InputLayer>
</EditContextSetting>"#;
    let cfg = Config::parse(xml).unwrap();
    Engine::new(cfg.compile(0).unwrap())
}

#[test]
fn bksp_attach_revives_prev_syllable() {
    let mut e = attach_engine();
    let mut committed = String::new();
    for ch in "gan".chars() {
        committed.push_str(&e.press(ch as u8, false).commit);
    }
    assert_eq!(committed, "가");
    assert_eq!(e.preedit(), "ㄴ");
    let o1 = e.backspace();
    assert_eq!(o1.preedit, "");
    assert_eq!(o1.delete_before, 0);
    let o2 = e.backspace();
    assert_eq!(o2.preedit, "ㄱ");
    assert_eq!(o2.delete_before, 1);
    assert!(o2.consumed);
}

#[test]
fn bksp_no_attach_passes_through() {
    let mut e = bksp_engine("ByUnitStep");
    let _ = e.press(b'g', false);
    let _ = e.backspace();
    let o = e.backspace();
    assert!(!o.consumed);
    assert_eq!(o.delete_before, 0);
}

#[test]
fn bksp_attach_chain_multiple_syllables() {
    let mut e = attach_engine();
    let mut committed = String::new();
    for ch in "ganaga".chars() {
        committed.push_str(&e.press(ch as u8, false).commit);
    }
    assert_eq!(committed, "가나");
    assert_eq!(e.preedit(), "가");
    let o0 = e.backspace();
    assert_eq!(o0.preedit, "ㄱ");
    let o1 = e.backspace();
    assert_eq!(o1.preedit, "");
    let o2 = e.backspace();
    assert_eq!((o2.preedit.as_str(), o2.delete_before), ("ㄴ", 1));
    let o3 = e.backspace();
    assert_eq!(o3.preedit, "");
    let o4 = e.backspace();
    assert_eq!((o4.preedit.as_str(), o4.delete_before), ("ㄱ", 1));
    let o5 = e.backspace();
    assert_eq!(o5.preedit, "");
    let o6 = e.backspace();
    assert!(!o6.consumed);
}

#[test]
fn space_after_syllable_commits_char_and_consumes() {
    let mut e = attach_engine();
    let mut committed = String::new();
    for ch in "gana".chars() {
        committed.push_str(&e.press(ch as u8, false).commit);
    }
    assert_eq!(committed, "가");
    assert_eq!(e.preedit(), "나");
    let sp = e.press(b' ', false);
    assert_eq!(sp.commit, "나 ");
    assert!(sp.consumed);
    assert_eq!(sp.preedit, "");
    let bk = e.backspace();
    assert!(!bk.consumed);
    assert_eq!(bk.delete_before, 0);
    assert_eq!(bk.preedit, "");
}

#[test]
fn space_with_empty_buffer_passes_through() {
    let mut e = attach_engine();
    let sp = e.press(b' ', false);
    assert_eq!(sp.commit, "");
    assert!(!sp.consumed);
}

#[test]
fn reset_clears_attach_history() {
    let mut e = attach_engine();
    for ch in "gan".chars() {
        let _ = e.press(ch as u8, false);
    }
    e.reset();
    let bk = e.backspace();
    assert!(!bk.consumed);
    assert_eq!(bk.preedit, "");
    assert_eq!(bk.delete_before, 0);
}

#[test]
fn flush_clears_attach_history() {
    let mut e = attach_engine();
    for ch in "gan".chars() {
        let _ = e.press(ch as u8, false);
    }
    let _ = e.flush();
    let bk = e.backspace();
    assert!(!bk.consumed);
    assert_eq!(bk.preedit, "");
    assert_eq!(bk.delete_before, 0);
}
