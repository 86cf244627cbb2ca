//! What the front end is: all entries of the settings, and what each event does.

use vstd::prelude::*;

use crate::config::compile::compiled;
use crate::config::{lookup, ConfigModel, LayoutModel, ShortcutModel};
use crate::engine::model::{
    backspace, backspace_defined, char_of_int, initial, is_blank, press, press_defined, shown, Comp,
};
use crate::evdev::qwerty;
use crate::expr::parser::parsed;
use crate::expr::{evaluate, zero_ctx, Ctx, Evaluated, Expr, ExprModel, UnOp, Value};
use crate::settings::{default_settings, Settings};
use crate::text::numeral;

verus! {

// ── keys ───────────────────────────────────────────────────────────────────────

/// The modifier bit of a key release.
pub const RELEASE_MASK: u32 = 0x4000_0000;

/// The modifier bit of Shift.
pub const SHIFT_MASK: u32 = 0x1;

/// The modifier bit of Caps Lock.
pub const LOCK_MASK: u32 = 0x2;

/// The modifier bit of Control.
pub const CONTROL_MASK: u32 = 0x4;

/// The modifier bits that make a key a shortcut: Control, Alt, Super and Meta.
pub const SPECIAL_MODS: u32 = 0x1400_000C;

/// The key symbol of the deleting key.
pub const KEY_BACKSPACE: u32 = 0xff08;

/// The key symbol of the Hangul key.
pub const KEY_HANGUL: u32 = 0xff31;

/// What a key event is, whatever entry is active.
#[derive(Clone, Copy, Debug, PartialEq, Eq, Structural)]
pub enum KeyClass {
    /// A key goes up.
    Release,
    /// A key that switches between entries.
    ImeSwitch,
    /// A modifier.
    Modifier,
    /// A key pressed together with a modifier that makes it a shortcut.
    ShortcutCombo,
    /// The deleting key.
    Backspace,
    /// A key that types the given ASCII character on a US-QWERTY keyboard.
    Printable(u8),
    /// Any other key.
    FunctionKey,
}

/// The key symbols of modifiers: Shift to Hyper, the ISO level shifts, and Mode_switch.
pub open spec fn is_modifier(keyval: u32) -> bool {
    0xffe1 <= keyval <= 0xffee || 0xfe01 <= keyval <= 0xfe0f || keyval == 0xff7e
}

/// The key symbol of a virtual key name.
pub open spec fn keysym_named(vk: Seq<char>) -> Option<u32> {
    if vk == "VK_HANGUL"@ {
        Some(0xff31)
    } else if vk == "VK_HANJA"@ {
        Some(0xff34)
    } else if vk == "VK_CAPITAL"@ {
        Some(0xffe5)
    } else if vk == "VK_SPACE"@ {
        Some(0x20)
    } else if vk == "VK_RMENU"@ {
        Some(0xffea)
    } else if vk == "VK_RCONTROL"@ {
        Some(0xffe4)
    } else {
        None
    }
}

// ── the state ──────────────────────────────────────────────────────────────────

/// An entry at work.
pub enum ModeModel {
    /// Composes Hangul with a layout.
    Hangul(LayoutModel, Comp),
    /// Types the characters that its keys give.
    Latin(Map<u32, ExprModel>),
}

/// The state of the front end.
#[verifier::ext_equal]
pub struct Front {
    pub entries: Seq<ModeModel>,
    /// The index of the active entry.
    pub current: usize,
    /// The index of the entry to start with.
    pub default_entry: usize,
    /// From the key symbols that switch between entries to the expressions that say where to.
    pub ime_switch: Map<u32, ExprModel>,
    pub settings: Settings,
    /// The entry for Hangul in the simple mode.
    pub hangul_idx: usize,
    /// The entry for Latin letters in the simple mode.
    pub latin_idx: usize,
}

/// There is an entry, and every index is that of one.
pub open spec fn valid(f: Front) -> bool {
    &&& f.entries.len() > 0
    &&& f.current < f.entries.len()
    &&& f.default_entry < f.entries.len()
    &&& f.hangul_idx < f.entries.len()
    &&& f.latin_idx < f.entries.len()
}

/// Something for the front end to tell the input bus.
pub enum ActionModel {
    /// Commit a text.
    Commit(Seq<char>),
    /// Show a text as being composed: the text, the cursor's place in it, and whether it is seen.
    Preedit(Seq<char>, u32, bool),
    /// Announce the mode indicator with this symbol.
    Register(Seq<char>),
    /// Show this symbol in the mode indicator.
    Indicate(Seq<char>),
}

/// What an event leads to: the state, what to tell the bus, and whether the event is used up.
pub struct Reply {
    pub state: Front,
    pub actions: Seq<ActionModel>,
    pub handled: bool,
}

// ── making one ─────────────────────────────────────────────────────────────────

/// Whether a key of the layout can give a Hangul unit.
pub open spec fn has_hangul_key(l: LayoutModel) -> bool {
    exists|k: u32| l.keys.contains_key(k) && Expr::has_unit(#[trigger] l.keys[k])
}

/// The entry of the given index at work. One that cannot be compiled types nothing.
pub open spec fn mode_of(c: ConfigModel, i: usize) -> ModeModel {
    match compiled(c, i) {
        Ok(l) => if has_hangul_key(l) {
            ModeModel::Hangul(l, initial(l))
        } else {
            ModeModel::Latin(l.keys)
        },
        Err(_) => ModeModel::Latin(Map::empty()),
    }
}

/// All entries at work. Settings without any entry have one that types nothing.
pub open spec fn modes_of(c: ConfigModel) -> Seq<ModeModel> {
    if c.entries.len() == 0 {
        seq![ModeModel::Latin(Map::empty())]
    } else {
        Seq::new(c.entries.len(), |i: int| mode_of(c, i as usize))
    }
}

/// The switching keys of the shortcuts. A later shortcut overrides an earlier one.
pub open spec fn switches(s: Seq<ShortcutModel>) -> Map<u32, ExprModel>
    decreases s.len(),
{
    if s.len() == 0 {
        Map::empty()
    } else {
        let m = switches(s.drop_last());
        match (keysym_named(s.last().key), parsed(s.last().value)) {
            (Some(k), Ok(e)) => if s.last().usage == "IME_SWITCH"@ {
                m.insert(k, e)
            } else {
                m
            },
            _ => m,
        }
    }
}

/// The expression `!A`: from any other entry to the first one, and from there to the second.
pub open spec fn first_or_second() -> ExprModel {
    ExprModel::Unary(UnOp::Not, Box::new(ExprModel::Var("A"@)))
}

/// The switching keys, with the Hangul key among them.
pub open spec fn switches_of(c: ConfigModel) -> Map<u32, ExprModel> {
    let m = switches(c.editor.shortcuts);
    if m.contains_key(KEY_HANGUL) {
        m
    } else {
        m.insert(KEY_HANGUL, first_or_second())
    }
}

/// The smaller of `i` and the last index below `n`.
pub open spec fn capped(i: usize, n: nat) -> usize {
    if i < n {
        i
    } else {
        (n - 1) as usize
    }
}

/// The front end with settings in force. On entering the simple mode, or with any other entry
/// active there, its Hangul entry becomes active; on leaving it, the entry to start with does.
pub open spec fn with_settings(f: Front, st: Settings) -> Front {
    let n = f.entries.len();
    let hangul_idx = capped(st.hangul_entry, n);
    let latin_idx = capped(st.latin_entry, n);
    let current = if st.simple_mode {
        if !f.settings.simple_mode || (f.current != hangul_idx && f.current != latin_idx) {
            hangul_idx
        } else {
            f.current
        }
    } else if f.settings.simple_mode {
        capped(f.default_entry, n)
    } else {
        f.current
    };
    Front { hangul_idx, latin_idx, current, settings: st, ..f }
}

/// The front end for a document and settings.
pub open spec fn front_of(c: ConfigModel, st: Settings) -> Front {
    let entries = modes_of(c);
    let start = capped(c.default_entry, entries.len());
    with_settings(
        Front {
            entries,
            current: start,
            default_entry: start,
            ime_switch: switches_of(c),
            settings: default_settings(),
            hangul_idx: 0,
            latin_idx: 0,
        },
        st,
    )
}

// ── what it shows ──────────────────────────────────────────────────────────────

/// `n` in subscript digits.
pub open spec fn subscript(n: nat) -> Seq<char> {
    numeral(n, 10).map_values(|c: char| (0x2080 + (c as int - '0' as int)) as char)
}

/// The symbol of the active entry: a Hangul syllable or a Latin letter, and in the full mode the
/// number of the entry.
pub open spec fn symbol(f: Front) -> Seq<char> {
    let prefix = if f.entries[f.current as int] is Hangul {
        "가"@
    } else {
        "A"@
    };
    if f.settings.simple_mode {
        prefix
    } else {
        prefix + subscript(f.current as nat)
    }
}

/// Commits a text, if there is any, and shows another as being composed.
pub open spec fn told(commit: Seq<char>, preedit: Seq<char>) -> Seq<ActionModel> {
    let shown = seq![
        ActionModel::Preedit(preedit, preedit.len() as u32, preedit.len() > 0),
    ];
    if commit.len() > 0 {
        seq![ActionModel::Commit(commit)] + shown
    } else {
        shown
    }
}

// ── what events do ─────────────────────────────────────────────────────────────

/// The front end with the active entry replaced.
pub open spec fn with_mode(f: Front, m: ModeModel) -> Front {
    Front { entries: f.entries.update(f.current as int, m), ..f }
}

/// Commits what the active entry is composing.
pub open spec fn flushed(f: Front) -> Reply {
    match f.entries[f.current as int] {
        ModeModel::Hangul(l, c) => Reply {
            state: with_mode(f, ModeModel::Hangul(l, initial(l))),
            actions: if shown(l, c.cur).len() > 0 {
                told(shown(l, c.cur), Seq::empty())
            } else {
                Seq::empty()
            },
            handled: false,
        },
        ModeModel::Latin(_) => Reply { state: f, actions: Seq::empty(), handled: false },
    }
}

/// Drops what the active entry is composing.
pub open spec fn dropped(f: Front) -> Reply {
    Reply {
        state: match f.entries[f.current as int] {
            ModeModel::Hangul(l, _) => with_mode(f, ModeModel::Hangul(l, initial(l))),
            ModeModel::Latin(_) => f,
        },
        actions: told(Seq::empty(), Seq::empty()),
        handled: false,
    }
}

/// What a key event is. A switching key counts as one also when it goes up, and although it may
/// be a modifier. A printable key is known by its place on the keyboard, and only without one by
/// its symbol.
pub open spec fn class_of(f: Front, keyval: u32, keycode: u32, state: u32) -> KeyClass {
    if f.ime_switch.contains_key(keyval) {
        KeyClass::ImeSwitch
    } else if state & RELEASE_MASK != 0 {
        KeyClass::Release
    } else if is_modifier(keyval) {
        KeyClass::Modifier
    } else if state & SPECIAL_MODS != 0 {
        KeyClass::ShortcutCombo
    } else if keyval == KEY_BACKSPACE {
        KeyClass::Backspace
    } else if qwerty(keycode, state & SHIFT_MASK != 0) is Some {
        KeyClass::Printable(qwerty(keycode, state & SHIFT_MASK != 0)->0)
    } else if 0x20 <= keyval <= 0x7e {
        KeyClass::Printable(keyval as u8)
    } else {
        KeyClass::FunctionKey
    }
}

/// What a switching key's expression gives, with the active entry as `A`.
pub open spec fn switch_value(f: Front, keyval: u32) -> Evaluated {
    match lookup(f.ime_switch, keyval) {
        Some(e) => evaluate(e, Ctx { a: f.current as i64, ..zero_ctx() }),
        None => Evaluated::Gives(Value::Int(f.current as i64)),
    }
}

/// `t`, or the nearest index of an entry.
pub open spec fn clamped(t: i64, n: nat) -> usize {
    if t < 0 {
        0
    } else if t >= n {
        (n - 1) as usize
    } else {
        t as usize
    }
}

/// The entry that a switching key leads to: in the simple mode the other one of its two, else
/// the one that the key's expression gives.
pub open spec fn target(f: Front, keyval: u32) -> usize {
    if f.settings.simple_mode {
        if f.current == f.hangul_idx {
            f.latin_idx
        } else {
            f.hangul_idx
        }
    } else {
        match lookup(f.ime_switch, keyval) {
            Some(_) => match switch_value(f, keyval) {
                Evaluated::Gives(Value::Int(t)) => clamped(t, f.entries.len()),
                _ => f.current,
            },
            None => f.current,
        }
    }
}

/// Goes to the entry that a switching key leads to, and commits what was being composed.
pub open spec fn switched(f: Front, keyval: u32) -> Reply {
    let t = target(f, keyval);
    if t == f.current {
        Reply { state: f, actions: Seq::empty(), handled: true }
    } else {
        let r = flushed(f);
        let state = Front { current: t, ..r.state };
        Reply {
            state,
            actions: r.actions.push(ActionModel::Indicate(symbol(state))),
            handled: true,
        }
    }
}

/// What a key does in the active entry.
pub open spec fn typed(f: Front, class: KeyClass, caps: bool) -> Reply {
    match f.entries[f.current as int] {
        ModeModel::Hangul(l, c) => match class {
            KeyClass::Backspace => if is_blank(c.cur) {
                Reply { state: f, actions: Seq::empty(), handled: false }
            } else {
                let p = backspace(l, c);
                Reply {
                    state: with_mode(f, ModeModel::Hangul(l, p.state)),
                    actions: told(p.outcome.commit, p.outcome.preedit),
                    handled: p.outcome.consumed,
                }
            },
            KeyClass::Printable(ascii) => {
                let p = press(l, c, ascii, caps);
                Reply {
                    state: with_mode(f, ModeModel::Hangul(l, p.state)),
                    actions: told(p.outcome.commit, p.outcome.preedit),
                    handled: p.outcome.consumed,
                }
            },
            _ => flushed(f),
        },
        ModeModel::Latin(keys) => match latin_char(keys, class, caps) {
            Some(c) => Reply { state: f, actions: told(seq![c], Seq::empty()), handled: true },
            None => Reply { state: f, actions: Seq::empty(), handled: false },
        },
    }
}

/// The variables that a key's expression reads in an entry for Latin letters.
pub open spec fn latin_ctx(caps: bool) -> Ctx {
    Ctx {
        p: if caps {
            1
        } else {
            0
        },
        ..zero_ctx()
    }
}

/// The character that a key types in an entry for Latin letters.
pub open spec fn latin_char(keys: Map<u32, ExprModel>, class: KeyClass, caps: bool) -> Option<
    char,
> {
    match class {
        KeyClass::Printable(ascii) => match lookup(keys, ascii as u32) {
            Some(e) => match evaluate(e, latin_ctx(caps)) {
                Evaluated::Gives(Value::Int(n)) => char_of_int(n),
                _ => None,
            },
            None => None,
        },
        _ => None,
    }
}

/// What a key event does.
pub open spec fn processed(f: Front, keyval: u32, keycode: u32, state: u32) -> Reply {
    let class = class_of(f, keyval, keycode, state);
    match class {
        KeyClass::ImeSwitch => if state & RELEASE_MASK != 0 {
            Reply { state: f, actions: Seq::empty(), handled: true }
        } else {
            switched(f, keyval)
        },
        KeyClass::Release => Reply { state: f, actions: Seq::empty(), handled: false },
        KeyClass::Modifier => Reply { state: f, actions: Seq::empty(), handled: false },
        KeyClass::ShortcutCombo => flushed(f),
        _ => typed(f, class, state & LOCK_MASK != 0),
    }
}

/// Whether every operation that a key comes to in the active entry has a 64-bit result.
pub open spec fn typed_defined(f: Front, class: KeyClass, caps: bool) -> bool {
    match f.entries[f.current as int] {
        ModeModel::Hangul(l, c) => match class {
            KeyClass::Backspace => is_blank(c.cur) || backspace_defined(l, c),
            KeyClass::Printable(ascii) => press_defined(l, c, ascii, caps),
            _ => true,
        },
        ModeModel::Latin(keys) => match class {
            KeyClass::Printable(ascii) => lookup(keys, ascii as u32) matches Some(e) ==> evaluate(
                e,
                latin_ctx(caps),
            ) !is Undefined,
            _ => true,
        },
    }
}

/// Whether a switching key's expression has a 64-bit result, where it is asked.
pub open spec fn switch_defined(f: Front, keyval: u32) -> bool {
    f.settings.simple_mode || switch_value(f, keyval) !is Undefined
}

/// Whether every operation that a key event comes to has a 64-bit result.
pub open spec fn processed_defined(f: Front, keyval: u32, keycode: u32, state: u32) -> bool {
    let class = class_of(f, keyval, keycode, state);
    match class {
        KeyClass::ImeSwitch => state & RELEASE_MASK != 0 || switch_defined(f, keyval),
        KeyClass::Release => true,
        KeyClass::Modifier => true,
        KeyClass::ShortcutCombo => true,
        _ => typed_defined(f, class, state & LOCK_MASK != 0),
    }
}

} // verus!
