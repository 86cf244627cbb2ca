//! The front end.

use presguel::config::Config;
use presguel::expr::{Ctx, Value};
use presguel::ibus::model::{
    KeyClass, CONTROL_MASK, KEY_BACKSPACE, RELEASE_MASK, SHIFT_MASK,
};
use presguel::ibus::{subscript_digits, IBusEngine};
use presguel::settings::Settings;

const MINI: &str = r#"<?xml version="1.0" encoding="utf-8"?>
<EditContextSetting version="0x500">
  <EditorLayer flag="0">
    <ShortcutTable>
      <Shortcut key="VK_HANGUL" usage="IME_SWITCH" value="!A"/>
      <Shortcut key="VK_CAPITAL" modifier="DONT_EAT|KEEP_LAMP" usage="IME_SWITCH" value="!A"/>
      <Shortcut key="VK_HANJA" usage="KEYCHAR" value="C0|0x82"/>
    </ShortcutTable>
    <FinalConvTable><FinalConv from="0x1100" to="0x3131"/></FinalConvTable>
  </EditorLayer>
  <InputLayer default="0" current="0">
    <InputEntry>
      <InputSchemeSetting object="CBasicInputScheme">
        <KeyTable name="mini" flag="0" from="33" to="126">
          <Key at="0x6B" value="H3|G_"/>
          <Key at="0x40" value="T ? H3|_RG : 0x40"/>
        </KeyTable>
      </InputSchemeSetting>
      <GeneratorSetting object="CNgsImeEx">
        <UnitMixTable/><VirtualUnitTable/><AutomataTable default="0"/>
      </GeneratorSetting>
    </InputEntry>
  </InputLayer>
</EditContextSetting>"#;

fn engine() -> IBusEngine {
    let cfg = Config::parse(MINI).unwrap();
    IBusEngine::with_settings(&cfg, Settings::default())
}

#[test]
fn subscript_digits_maps_to_unicode() {
    assert_eq!(subscript_digits(0), "₀");
    assert_eq!(subscript_digits(2), "₂");
    assert_eq!(subscript_digits(10), "₁₀");
}

#[test]
fn mode_symbol_full_uses_subscript() {
    let e = engine();
    assert_eq!(e.mode_symbol(), "가₀");
}

#[test]
fn mode_symbol_simple_has_no_number() {
    let cfg = Config::parse(MINI).unwrap();
    let e = IBusEngine::with_settings(
        &cfg,
        Settings { simple_mode: true, hangul_entry: 0, latin_entry: 0 },
    );
    assert_eq!(e.mode_symbol(), "가");
}

#[test]
fn classify_uses_keycode_not_keyval() {
    let e = engine();
    assert_eq!(e.classify(0x70, 19, 0), KeyClass::Printable(b'r'));
    assert_eq!(e.classify(0x32, 3, SHIFT_MASK), KeyClass::Printable(b'@'));
    assert_eq!(e.classify(b'k' as u32, 0, 0), KeyClass::Printable(b'k'));
}

#[test]
fn default_settings_is_full_mode() {
    let e = engine();
    assert!(!e.settings().simple_mode);
}

#[test]
fn apply_simple_mode_sets_current() {
    let cfg = Config::parse(MINI).unwrap();
    let st = Settings { simple_mode: true, hangul_entry: 0, latin_entry: 0 };
    let e = IBusEngine::with_settings(&cfg, st);
    assert!(e.settings().simple_mode);
    assert_eq!(e.current(), 0);
}

#[test]
fn reload_detects_change() {
    let mut e = engine();
    let before = e.settings();
    e.apply_settings(Settings { simple_mode: true, hangul_entry: 0, latin_entry: 0 });
    assert_ne!(before.simple_mode, e.settings().simple_mode);
    assert!(e.settings().simple_mode);
}

#[test]
fn capslock_in_switch_set() {
    let e = engine();
    assert!(e.ime_switch().contains_key(&0xffe5));
    assert!(e.ime_switch().contains_key(&0xff31));
    assert!(!e.ime_switch().contains_key(&0xff34));
}

#[test]
fn switch_expr_is_not_a_toggle() {
    let e = engine();
    let expr = e.ime_switch().get(&0xffe5).expect("capslock switch expr");
    let f = |cur: i64| match expr.eval(&Ctx { a: cur, ..Default::default() }).unwrap() {
        Value::Int(t) => t,
        other => panic!("expected int, got {other:?}"),
    };
    assert_eq!(f(0), 1);
    assert_eq!(f(1), 0);
    assert_eq!(f(2), 0);
}

#[test]
fn shift_is_modifier_not_function_key() {
    let e = engine();
    assert_eq!(e.classify(0xffe1, 0, 0), KeyClass::Modifier);
    assert_eq!(e.classify(0xffe2, 0, 0), KeyClass::Modifier);
}

#[test]
fn capslock_classifies_as_ime_switch_even_on_release() {
    let e = engine();
    assert_eq!(e.classify(0xffe5, 0, 0), KeyClass::ImeSwitch);
    assert_eq!(e.classify(0xffe5, 0, RELEASE_MASK), KeyClass::ImeSwitch);
}

#[test]
fn hangul_key_is_ime_switch() {
    assert_eq!(engine().classify(0xff31, 0, 0), KeyClass::ImeSwitch);
}

#[test]
fn at_key_with_shift_is_printable() {
    assert_eq!(engine().classify(0x40, 3, SHIFT_MASK), KeyClass::Printable(b'@'));
}

#[test]
fn ctrl_combo_is_shortcut() {
    assert_eq!(engine().classify(b'c' as u32, 46, CONTROL_MASK), KeyClass::ShortcutCombo);
}

#[test]
fn release_of_normal_key_ignored() {
    assert_eq!(engine().classify(b'k' as u32, 37, RELEASE_MASK), KeyClass::Release);
}

#[test]
fn backspace_classified() {
    assert_eq!(engine().classify(KEY_BACKSPACE, 14, 0), KeyClass::Backspace);
}
