//! Settings documents and layouts.

use presguel::config::{BkspUnit, Config};
use presguel::expr::{Ctx, Value};
use presguel::unit::{Category, Jamo, TOGGLE};

const MINI: &str = r#"<?xml version="1.0" encoding="utf-8"?>
<EditContextSetting version="0x500">
  <EditorLayer flag="DEL_MOVE|ARROW_MOVE">
    <ShortcutTable>
      <Shortcut key="VK_HANGUL" usage="IME_SWITCH" value="!A"/>
      <Shortcut key="VK_HANJA" usage="KEYCHAR" value="C0|0x82"/>
    </ShortcutTable>
    <FinalConvTable>
      <FinalConv from="0x1100" to="0x3131"/>
      <FinalConv from="0x1161" to="0x314F"/>
      <FinalConv from="0x11A8" to="0x3131"/>
    </FinalConvTable>
  </EditorLayer>
  <InputLayer default="0" current="2">
    <InputEntry>
      <InputSchemeSetting flag="0" object="CBasicInputScheme">
        <KeyTable name="mini" flag="0" from="33" to="126">
          <Key at="0x6B" value="H3|G_"/>
          <Key at="0x66" value="H3|A_"/>
          <Key at="0x78" value="H3|_G"/>
          <Key at="0x24" value="T ? H3|0x1F4 : 0x24"/>
        </KeyTable>
      </InputSchemeSetting>
      <GeneratorSetting flag="0" object="CNgsImeEx" flagex="1">
        <UnitMixTable>
          <UnitMix unit="CHO" a="G_" b="G_" to="GG"/>
          <UnitMix unit="CHO" a="G_" b="500" to="GG"/>
          <UnitMix unit="JUNG" a="O_" b="A_" to="WA"/>
          <UnitMix unit="JONG" a="R_" b="S_" to="RS"/>
        </UnitMixTable>
        <VirtualUnitTable>
          <VirtualUnit unit="JUNG" from="128" to="O_"/>
          <VirtualUnit unit="JUNG" from="130" to="EU"/>
        </VirtualUnitTable>
        <AutomataTable default="0">
          <Automata state="0" value="1" default="0" remark="초기 상태"/>
          <Automata state="2" value="A&amp;&amp;A!=500 ? 0 : B||C||A==500 ? 2 : -2" default="0" remark="완성"/>
        </AutomataTable>
      </GeneratorSetting>
    </InputEntry>
    <InputEntry>
      <InputSchemeSetting object="CInputScheme"/>
      <GeneratorSetting flag="0" object="CIme"/>
    </InputEntry>
  </InputLayer>
</EditContextSetting>"#;

#[test]
fn parse_mini() {
    let cfg = Config::parse(MINI).unwrap();
    assert_eq!(cfg.version, "0x500");
    assert_eq!(cfg.default_entry, 0);
    assert_eq!(cfg.current_entry, 2);
    assert_eq!(cfg.entries.len(), 2);
    assert_eq!(cfg.editor.shortcuts.len(), 2);
    assert_eq!(cfg.editor.final_conv.get(&0x1100), Some(&0x3131));

    let e0 = &cfg.entries[0];
    assert_eq!(e0.scheme_object, "CBasicInputScheme");
    assert_eq!(e0.generator_object, "CNgsImeEx");
    let kt = e0.key_table.as_ref().unwrap();
    assert_eq!(kt.name, "mini");
    assert_eq!(kt.keys.len(), 4);
    assert_eq!(e0.unit_mix.len(), 4);
    assert_eq!(e0.virtual_units.len(), 2);
    assert_eq!(e0.automata.len(), 2);
    assert_eq!(e0.automata_default, "0");

    assert_eq!(cfg.entries[1].scheme_object, "CInputScheme");
    assert!(cfg.entries[1].key_table.is_none());

    assert_eq!(cfg.first_hangul_entry(), Some(0));
}

#[test]
fn compile_mini() {
    let cfg = Config::parse(MINI).unwrap();
    let layout = cfg.compile(0).unwrap();
    assert_eq!(layout.name, "mini");
    assert_eq!(layout.keys.len(), 4);

    assert_eq!(layout.combine(Category::Cho, 0x1100, 0x1100), Some(0x1101));
    assert_eq!(
        layout.combine(Category::Cho, 0x1100, TOGGLE),
        Some(0x1101)
    );
    assert_eq!(layout.combine(Category::Jung, 0x1169, 0x1161), Some(0x116A));
    assert_eq!(layout.combine(Category::Jong, 0x11AF, 0x11BA), Some(0x11B3));

    assert_eq!(
        layout.virtual_units.get(&128),
        Some(&Jamo::new(Category::Jung, 0x1169))
    );
    assert_eq!(
        layout.virtual_units.get(&130),
        Some(&Jamo::new(Category::Jung, 0x1173))
    );

    assert_eq!(
        layout.standalone(Jamo::new(Category::Cho, 0x1100)),
        Some('ㄱ')
    );
    assert_eq!(
        layout.standalone(Jamo::new(Category::Jong, 0x11A8)),
        Some('ㄱ')
    );

    assert_eq!(layout.automata.len(), 2);
    assert_eq!(layout.automata_start, 0);
    let st2 = layout.automata.get(&2).expect("state 2");
    assert_eq!(
        st2.value.eval(&Ctx {
            a: 1,
            ..Default::default()
        }),
        Ok(Value::Int(0))
    );
}

#[test]
fn compile_bksp_behavior() {
    let xml = r#"<?xml version="1.0" encoding="utf-8"?>
<EditContextSetting version="0x500">
  <EditorLayer flag="0"><FinalConvTable/></EditorLayer>
  <InputLayer default="0" current="0">
    <InputEntry>
      <InputSchemeSetting object="CBasicInputScheme">
        <KeyTable name="t" flag="0" from="33" to="126"><Key at="0x6B" value="H3|G_"/></KeyTable>
      </InputSchemeSetting>
      <GeneratorSetting object="CNgsImeEx">
        <UnitMixTable/><VirtualUnitTable/><AutomataTable default="0"/>
        <Extra>
          <Bksp key="1" value1="ByUnitStep|BkspAttach" value2="BySyllable" condition1="0" condition2="0"/>
          <Bksp key="2" value1="0" value2="BySyllable" condition1="0" condition2="0"/>
        </Extra>
      </GeneratorSetting>
    </InputEntry>
  </InputLayer>
</EditContextSetting>"#;
    let layout = Config::parse(xml).unwrap().compile(0).unwrap();
    assert_eq!(layout.bksp.composing, BkspUnit::LastKey);
    assert_eq!(layout.bksp.idle, BkspUnit::Syllable);
    assert!(layout.bksp.attach);
}

#[test]
fn compile_bksp_default_when_absent() {
    let layout = Config::parse(MINI).unwrap().compile(0).unwrap();
    assert_eq!(layout.bksp.composing, BkspUnit::LastKey);
    assert!(!layout.bksp.attach);
}
