//! The front end: events and what they tell the bus.

use presguel::config::Config;
use presguel::ibus::model::{
    KeyClass, CONTROL_MASK, KEY_BACKSPACE, KEY_HANGUL, LOCK_MASK, RELEASE_MASK, SHIFT_MASK,
    SPECIAL_MODS,
};
use presguel::ibus::{emit, is_modifier_keysym, vk_to_keysyms, Action, IBusEngine, Response};
use presguel::settings::Settings;

/// Three entries: Hangul, Latin with a key table, and one without.
const THREE: &str = r#"<EditContextSetting>
  <EditorLayer><ShortcutTable>
    <Shortcut key="VK_CAPITAL" usage="IME_SWITCH" value="A + 1"/>
    <Shortcut key="VK_RMENU" usage="IME_SWITCH" value="A - 5"/>
    <Shortcut key="VK_SPACE" usage="IME_SWITCH" value="1 +"/>
    <Shortcut key="VK_UNHEARD" usage="IME_SWITCH" value="0"/>
    <Shortcut key="VK_RCONTROL" usage="IME_SWITCH" value="H3|G_"/>
    <Shortcut key="VK_HANJA" usage="IME_SWITCH" value="1/0"/>
  </ShortcutTable></EditorLayer>
  <InputLayer default="0">
    <InputEntry><InputSchemeSetting><KeyTable>
      <Key at="107" value="H3|G_"/><Key at="102" value="H3|A_"/>
    </KeyTable></InputSchemeSetting></InputEntry>
    <InputEntry><InputSchemeSetting><KeyTable>
      <Key at="97" value="111^(P&amp;1)&lt;&lt;5"/><Key at="98" value="C0|1"/><Key at="99" value="1/0"/>
      <Key at="100" value="0xD800"/>
    </KeyTable></InputSchemeSetting></InputEntry>
    <InputEntry/>
  </InputLayer>
</EditContextSetting>"#;

const CAPS_LOCK: u32 = 0xffe5;
const ALT_R: u32 = 0xffea;

fn three() -> IBusEngine {
    IBusEngine::with_settings(&Config::parse(THREE).unwrap(), Settings::default())
}

fn key(e: &mut IBusEngine, keyval: u32, state: u32) -> Response {
    assert!(e.key_event_defined(keyval, 0, state));
    e.process_key_event(keyval, 0, state)
}

fn commit(s: &str) -> Action {
    Action::Commit(s.to_string())
}

fn preedit(s: &str) -> Action {
    Action::Preedit {
        text: s.to_string(),
        cursor: s.chars().count() as u32,
        visible: !s.is_empty(),
    }
}

fn indicate(s: &str) -> Action {
    Action::Indicate(s.to_string())
}

#[test]
fn texts_are_told_in_order() {
    assert_eq!(emit("가".to_string(), "ㄴ".to_string()), [commit("가"), preedit("ㄴ")]);
    assert_eq!(emit(String::new(), String::new()), [preedit("")]);
}

#[test]
fn typing_hangul() {
    let mut e = three();
    let r = key(&mut e, 'k' as u32, 0);
    assert_eq!((r.actions, r.handled), (vec![preedit("ㄱ")], true));
    let r = key(&mut e, 'f' as u32, 0);
    assert_eq!((r.actions, r.handled), (vec![preedit("가")], true));
    let r = key(&mut e, 'k' as u32, 0);
    assert_eq!((r.actions, r.handled), (vec![commit("가"), preedit("ㄱ")], true));
    let r = key(&mut e, KEY_BACKSPACE, 0);
    assert_eq!((r.actions, r.handled), (vec![preedit("")], true));
    let r = key(&mut e, KEY_BACKSPACE, 0);
    assert_eq!((r.actions, r.handled), (vec![], false));
    key(&mut e, 'f' as u32, 0);
    let r = key(&mut e, '?' as u32, 0);
    assert_eq!((r.actions, r.handled), (vec![commit("ㅏ?"), preedit("")], true));
    let r = key(&mut e, '?' as u32, 0);
    assert_eq!((r.actions, r.handled), (vec![preedit("")], false));
}

#[test]
fn releases_and_modifiers_do_nothing() {
    let mut e = three();
    key(&mut e, 'k' as u32, 0);
    for (keyval, state) in [('f' as u32, RELEASE_MASK), (0xffe1, 0), (0xfe03, CONTROL_MASK), (0xff7e, 0)] {
        let r = key(&mut e, keyval, state);
        assert_eq!((r.actions, r.handled), (vec![], false));
    }
    assert_eq!(e.focus_out(), [commit("ㄱ"), preedit("")]);
}

#[test]
fn shortcuts_and_function_keys_commit() {
    for (keyval, state) in [('c' as u32, CONTROL_MASK), ('c' as u32, 1 << 3), ('c' as u32, 1 << 26), ('c' as u32, 1 << 28), (0xff0d, 0)] {
        let mut e = three();
        key(&mut e, 'k' as u32, 0);
        let r = key(&mut e, keyval, state);
        assert_eq!((r.actions, r.handled), (vec![commit("ㄱ"), preedit("")], false));
        let r = key(&mut e, keyval, state);
        assert_eq!((r.actions, r.handled), (vec![], false));
    }
    assert_eq!(SPECIAL_MODS, CONTROL_MASK | 1 << 3 | 1 << 26 | 1 << 28);
}

#[test]
fn typing_latin() {
    let mut e = three();
    let r = key(&mut e, CAPS_LOCK, 0);
    assert_eq!((r.actions, r.handled), (vec![indicate("A₁")], true));
    let r = key(&mut e, 'a' as u32, 0);
    assert_eq!((r.actions, r.handled), (vec![commit("o"), preedit("")], true));
    let r = key(&mut e, 'a' as u32, LOCK_MASK);
    assert_eq!((r.actions, r.handled), (vec![commit("O"), preedit("")], true));
    for keyval in ['b' as u32, 'd' as u32, 'z' as u32, KEY_BACKSPACE, 0xff0d] {
        let r = key(&mut e, keyval, 0);
        assert_eq!((r.actions, r.handled), (vec![], false));
    }
    assert!(!e.key_event_defined('c' as u32, 0, 0));
}

#[test]
fn switching_clamps_and_commits() {
    let mut e = three();
    key(&mut e, 'k' as u32, 0);
    let r = key(&mut e, CAPS_LOCK, RELEASE_MASK);
    assert_eq!((r.actions, r.handled, e.current()), (vec![], true, 0));
    let r = key(&mut e, CAPS_LOCK, 0);
    assert_eq!(r.actions, [commit("ㄱ"), preedit(""), indicate("A₁")]);
    key(&mut e, CAPS_LOCK, 0);
    assert_eq!((e.current(), e.mode_symbol().as_str()), (2, "A₂"));
    let r = key(&mut e, CAPS_LOCK, 0);
    assert_eq!((r.actions, r.handled, e.current()), (vec![], true, 2));
    let r = key(&mut e, ALT_R, 0);
    assert_eq!((r.actions, e.current()), (vec![indicate("가₀")], 0));
    key(&mut e, KEY_HANGUL, 0);
    assert_eq!(e.current(), 1);
    key(&mut e, KEY_HANGUL, 0);
    assert_eq!(e.current(), 0);
    let r = key(&mut e, 0xffe4, 0);
    assert_eq!((r.actions, r.handled, e.current()), (vec![], true, 0));
    assert!(!e.key_event_defined(0xff34, 0, 0));
    assert!(e.key_event_defined(0xff34, 0, RELEASE_MASK));
    assert_eq!(e.classify(0x20, 57, 0), KeyClass::Printable(b' '));
}

#[test]
fn the_simple_mode_keeps_to_two_entries() {
    let cfg = Config::parse(THREE).unwrap();
    let mut e = IBusEngine::new(&cfg, Some("simple_mode=1\nhangul_entry=0\nlatin_entry=9"));
    assert_eq!((e.current(), e.mode_symbol().as_str()), (0, "가"));
    for want in [2, 0, 2, 0] {
        key(&mut e, CAPS_LOCK, 0);
        assert_eq!(e.current(), want);
    }
    assert!(e.key_event_defined(0xff34, 0, 0));
    key(&mut e, 0xff34, 0);
    assert_eq!(e.current(), 2);
    assert!(!e.reload_settings(Some("simple_mode=yes\nlatin_entry=9")));
    assert!(e.reload_settings(Some("simple_mode=on\nlatin_entry=1")));
    assert_eq!(e.current(), 0);
    assert!(e.reload_settings(None));
    assert_eq!((e.current(), e.settings()), (0, Settings::default()));
}

#[test]
fn focus_announces_the_indicator() {
    let mut e = three();
    assert_eq!(e.focus_in(None), [Action::Register("가₀".to_string())]);
    assert_eq!(
        e.enable(Some("simple_mode=true\nhangul_entry=1")),
        [Action::Register("A".to_string())]
    );
    assert_eq!(e.current(), 1);
    assert_eq!(e.disable(), []);
}

#[test]
fn reset_drops_the_syllable() {
    let mut e = three();
    key(&mut e, 'k' as u32, 0);
    assert_eq!(e.reset(), [preedit("")]);
    assert_eq!(e.focus_out(), []);
}

#[test]
fn settings_without_entries_pass_everything() {
    let mut e = IBusEngine::new(&Config::parse("<InputLayer default=\"7\"/>").unwrap(), None);
    assert_eq!((e.current(), e.mode_symbol().as_str()), (0, "A₀"));
    assert!(!e.cur().is_hangul());
    let r = key(&mut e, 'k' as u32, 0);
    assert_eq!((r.actions, r.handled), (vec![], false));
    key(&mut e, KEY_HANGUL, 0);
    assert_eq!(e.current(), 0);
}

#[test]
fn an_entry_that_does_not_compile_types_nothing() {
    let xml = "<InputEntry><InputSchemeSetting><KeyTable><Key at=\"107\" value=\"H3|G_\"/></KeyTable></InputSchemeSetting>\
               <UnitMix unit=\"CHO\"/></InputEntry>";
    let e = IBusEngine::new(&Config::parse(xml).unwrap(), None);
    assert!(!e.cur().is_hangul());
    assert_eq!(e.cur().symbol_prefix(), "A");
}

#[test]
fn places_on_the_keyboard_decide() {
    let e = three();
    for keyval in [0x70, 0x72, 0x1000, 0] {
        assert_eq!(e.classify(keyval, 19, 0), KeyClass::Printable(b'r'));
        assert_eq!(e.classify(keyval, 19, SHIFT_MASK), KeyClass::Printable(b'R'));
    }
    assert_eq!(e.classify(0x1000, 0, 0), KeyClass::FunctionKey);
    assert_eq!(e.classify(0x7e, 0, 0), KeyClass::Printable(0x7e));
    assert_eq!(e.classify(0x7f, 0, 0), KeyClass::FunctionKey);
}

#[test]
fn names_of_keys() {
    assert_eq!(vk_to_keysyms("VK_HANGUL"), Some(0xff31));
    assert_eq!(vk_to_keysyms("VK_HANJA"), Some(0xff34));
    assert_eq!(vk_to_keysyms("VK_CAPITAL"), Some(0xffe5));
    assert_eq!(vk_to_keysyms("VK_SPACE"), Some(0x20));
    assert_eq!(vk_to_keysyms("VK_RMENU"), Some(0xffea));
    assert_eq!(vk_to_keysyms("VK_RCONTROL"), Some(0xffe4));
    assert_eq!(vk_to_keysyms("VK_X"), None);
    assert!(is_modifier_keysym(0xffee) && is_modifier_keysym(0xfe0f) && is_modifier_keysym(0xff7e));
    assert!(!is_modifier_keysym(0xffef) && !is_modifier_keysym(0xfe10) && !is_modifier_keysym(0xffe0));
    assert!(IBusEngine::opens_settings("InputMode"));
    assert!(!IBusEngine::opens_settings("inputmode"));
}
