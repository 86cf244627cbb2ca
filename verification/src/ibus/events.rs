//! What key events do, whatever entry is active, and what the bus is told.

use vstd::prelude::*;

use super::model::{
    class_of, dropped, flushed, latin_ctx, processed, processed_defined, symbol, target, valid,
    ActionModel, Front, KeyClass, ModeModel, Reply,
};
use crate::config::LayoutModel;
use crate::engine::model::{
    backspace, backspace_defined, initial, press, press_defined, shown, Comp,
};
use crate::engine::rules::{character, syllable};
use crate::evdev::qwerty;
use crate::expr::{evaluate, Ctx, Evaluated, ExprModel, Value};

verus! {

// ── what a key event is ────────────────────────────────────────────────────────

/// Whether the symbol is that of a modifier: Shift to Hyper, a level shift of ISO, or Mode_switch.
pub open spec fn is_modifier_symbol(keyval: u32) -> bool {
    0xFFE1 <= keyval <= 0xFFEE || 0xFE01 <= keyval <= 0xFE0F || keyval == 0xFF7E
}

/// A key event is that of a switching key where its symbol is one; else the release of a key, by
/// bit 30 of the state; else that of a modifier, by its symbol; else a shortcut, by one of the bits
/// of Control, Alt, Super and Meta; else that of the deleting key, by its symbol; else that of the
/// character that the key's place gives, with or without Shift, or, where the place gives none,
/// that its symbol is; else that of some other key.
pub proof fn events_are_told_apart(f: Front, keyval: u32, keycode: u32, state: u32)
    ensures
        ({
            let class = class_of(f, keyval, keycode, state);
            let release = state & 0x4000_0000 != 0;
            let shortcut = state & 0x1400_000C != 0;
            let place = qwerty(keycode, state & 1 != 0);
            let other = !f.ime_switch.contains_key(keyval);
            let down = other && !release && !is_modifier_symbol(keyval) && !shortcut;
            &&& class == KeyClass::ImeSwitch <==> !other
            &&& class == KeyClass::Release <==> other && release
            &&& class == KeyClass::Modifier <==> other && !release && is_modifier_symbol(keyval)
            &&& class == KeyClass::ShortcutCombo <==> other && !release && !is_modifier_symbol(
                keyval,
            ) && shortcut
            &&& class == KeyClass::Backspace <==> down && keyval == 0xFF08
            &&& down && keyval != 0xFF08 ==> match place {
                Some(c) => class == KeyClass::Printable(c),
                None => if 0x20 <= keyval <= 0x7E {
                    class == KeyClass::Printable(keyval as u8)
                } else {
                    class == KeyClass::FunctionKey
                },
            }
        }),
{
}

// ── what the bus is told ───────────────────────────────────────────────────────

/// Whether the bus is told to commit the text, if there is any, and to show the other as being
/// composed, with the cursor behind it, or nothing.
pub open spec fn tells(actions: Seq<ActionModel>, commit: Seq<char>, preedit: Seq<char>) -> bool {
    &&& actions.len() == (if commit.len() > 0 {
        2int
    } else {
        1
    })
    &&& commit.len() > 0 ==> actions[0] == ActionModel::Commit(commit)
    &&& actions.last() == ActionModel::Preedit(preedit, preedit.len() as u32, preedit.len() > 0)
}

/// Whether the event changes nothing, and the bus is told nothing.
pub open spec fn is_ignored(f: Front, r: Reply, handled: bool) -> bool {
    r.state == f && r.actions.len() == 0 && r.handled == handled
}

/// Whether only what the active entry composes has changed: it is `c` now.
pub open spec fn now_composes(f: Front, g: Front, l: LayoutModel, c: Comp) -> bool {
    &&& g.entries == f.entries.update(f.current as int, ModeModel::Hangul(l, c))
    &&& g.current == f.current
    &&& g.default_entry == f.default_entry
    &&& g.ime_switch == f.ime_switch
    &&& g.settings == f.settings
    &&& g.hangul_idx == f.hangul_idx
    &&& g.latin_idx == f.latin_idx
}

// ── switching ──────────────────────────────────────────────────────────────────

/// A switching key that goes down and leads to another entry makes that one active. What was being
/// composed is committed and no longer shown, and last the bus is told the symbol of the new
/// entry. The key is used up.
pub proof fn switching_tells_the_bus(f: Front, keyval: u32, keycode: u32, state: u32)
    requires
        valid(f),
        f.ime_switch.contains_key(keyval),
        state & 0x4000_0000 == 0,
        target(f, keyval) != f.current,
    ensures
        ({
            let r = processed(f, keyval, keycode, state);
            &&& r.handled
            &&& r.state.current == target(f, keyval)
            &&& r.actions.len() > 0
            &&& r.actions.last() == ActionModel::Indicate(symbol(r.state))
            &&& match f.entries[f.current as int] {
                ModeModel::Hangul(l, c) => {
                    &&& r.state.entries == f.entries.update(
                        f.current as int,
                        ModeModel::Hangul(l, initial(l)),
                    )
                    &&& shown(l, c.cur).len() > 0 ==> tells(
                        r.actions.drop_last(),
                        shown(l, c.cur),
                        Seq::empty(),
                    )
                    &&& shown(l, c.cur).len() == 0 ==> r.actions.len() == 1
                },
                ModeModel::Latin(_) => r.state.entries == f.entries && r.actions.len() == 1,
            }
        }),
{
    let r = processed(f, keyval, keycode, state);
    assert(r.actions.drop_last() =~= flushed(f).actions);
}

/// A switching key that goes up, or that leads nowhere else, is used up and changes nothing.
pub proof fn switching_keys_can_lead_nowhere(f: Front, keyval: u32, keycode: u32, state: u32)
    requires
        f.ime_switch.contains_key(keyval),
        state & 0x4000_0000 != 0 || target(f, keyval) == f.current,
    ensures
        is_ignored(f, processed(f, keyval, keycode, state), true),
{
}

// ── keys that nobody takes ─────────────────────────────────────────────────────

/// A key that goes up, and a modifier, are left to the application.
pub proof fn releases_and_modifiers_pass(f: Front, keyval: u32, keycode: u32, state: u32)
    requires
        !f.ime_switch.contains_key(keyval),
        state & 0x4000_0000 != 0 || is_modifier_symbol(keyval),
    ensures
        is_ignored(f, processed(f, keyval, keycode, state), false),
{
}

/// Whether what the active entry composed is committed, and the event is left to the application.
pub open spec fn commits_and_passes(f: Front, r: Reply) -> bool {
    match f.entries[f.current as int] {
        ModeModel::Hangul(l, c) => {
            &&& !r.handled
            &&& now_composes(f, r.state, l, initial(l))
            &&& shown(l, c.cur).len() > 0 ==> tells(r.actions, shown(l, c.cur), Seq::empty())
            &&& shown(l, c.cur).len() == 0 ==> r.actions.len() == 0
        },
        ModeModel::Latin(_) => is_ignored(f, r, false),
    }
}

/// A shortcut, and a key that types nothing, commit what is being composed and are left to the
/// application. So does losing the focus.
pub proof fn shortcuts_and_other_keys_commit(f: Front, keyval: u32, keycode: u32, state: u32)
    requires
        valid(f),
    ensures
        class_of(f, keyval, keycode, state) == KeyClass::ShortcutCombo || class_of(
            f,
            keyval,
            keycode,
            state,
        ) == KeyClass::FunctionKey ==> commits_and_passes(f, processed(f, keyval, keycode, state)),
        commits_and_passes(f, flushed(f)),
{
}

/// Resetting drops what is being composed: nothing is committed, and nothing is shown any more.
pub proof fn resetting_drops_the_syllable(f: Front)
    requires
        valid(f),
    ensures
        tells(dropped(f).actions, Seq::empty(), Seq::empty()),
        f.entries[f.current as int] matches ModeModel::Hangul(l, _) ==> now_composes(
            f,
            dropped(f).state,
            l,
            initial(l),
        ),
        f.entries[f.current as int] is Latin ==> dropped(f).state == f,
{
}

// ── keys in an entry that composes ─────────────────────────────────────────────

/// A key that types a character is pressed in the engine of the active entry, with Caps Lock by bit
/// 1 of the state. The bus is told what the engine commits and shows, and the key is used up where
/// the engine uses it up.
pub proof fn characters_are_pressed(
    f: Front,
    keyval: u32,
    keycode: u32,
    state: u32,
    ascii: u8,
    l: LayoutModel,
    c: Comp,
)
    requires
        valid(f),
        f.entries[f.current as int] == ModeModel::Hangul(l, c),
        class_of(f, keyval, keycode, state) == KeyClass::Printable(ascii),
    ensures
        ({
            let r = processed(f, keyval, keycode, state);
            let p = press(l, c, ascii, state & 2 != 0);
            &&& now_composes(f, r.state, l, p.state)
            &&& tells(r.actions, p.outcome.commit, p.outcome.preedit)
            &&& r.handled == p.outcome.consumed
        }),
{
}

/// The deleting key deletes in the engine of the active entry while a syllable is being composed.
/// Else it is left to the application, and the engine is not asked.
pub proof fn the_deleting_key_deletes(
    f: Front,
    keyval: u32,
    keycode: u32,
    state: u32,
    l: LayoutModel,
    c: Comp,
)
    requires
        valid(f),
        f.entries[f.current as int] == ModeModel::Hangul(l, c),
        class_of(f, keyval, keycode, state) == KeyClass::Backspace,
    ensures
        ({
            let r = processed(f, keyval, keycode, state);
            let p = backspace(l, c);
            if c.cur == syllable(None, None, None) {
                is_ignored(f, r, false)
            } else {
                &&& now_composes(f, r.state, l, p.state)
                &&& tells(r.actions, p.outcome.commit, p.outcome.preedit)
                &&& r.handled == p.outcome.consumed
            }
        }),
{
}

// ── keys in an entry that types ────────────────────────────────────────────────

/// A key of an entry that types commits the character of the code point that its expression gives,
/// with Caps Lock as `P` and all other variables zero, and is used up.
pub proof fn latin_keys_type_their_characters(
    f: Front,
    keyval: u32,
    keycode: u32,
    state: u32,
    ascii: u8,
    keys: Map<u32, ExprModel>,
    ctx: Ctx,
    n: i64,
)
    requires
        valid(f),
        f.entries[f.current as int] == ModeModel::Latin(keys),
        class_of(f, keyval, keycode, state) == KeyClass::Printable(ascii),
        keys.contains_key(ascii as u32),
        ctx.p == (if state & 2 != 0 {
            1int
        } else {
            0
        }),
        ctx.t == 0 && ctx.a == 0 && ctx.b == 0 && ctx.c == 0 && ctx.d == 0 && ctx.e == 0,
        evaluate(keys[ascii as u32], ctx) == Evaluated::Gives(Value::Int(n)),
        0 <= n <= 0xFFFF_FFFF,
        character(n as u32).len() > 0,
    ensures
        ({
            let r = processed(f, keyval, keycode, state);
            &&& r.state == f
            &&& tells(r.actions, character(n as u32), Seq::empty())
            &&& r.handled
        }),
{
    assert(ctx == latin_ctx(state & 2 != 0));
}

/// A key that the entry does not have, one whose expression gives no character, and the deleting
/// key are left to the application.
pub proof fn other_latin_keys_pass(
    f: Front,
    keyval: u32,
    keycode: u32,
    state: u32,
    keys: Map<u32, ExprModel>,
    ctx: Ctx,
)
    requires
        valid(f),
        f.entries[f.current as int] == ModeModel::Latin(keys),
        !f.ime_switch.contains_key(keyval),
        ctx.p == (if state & 2 != 0 {
            1int
        } else {
            0
        }),
        ctx.t == 0 && ctx.a == 0 && ctx.b == 0 && ctx.c == 0 && ctx.d == 0 && ctx.e == 0,
        class_of(f, keyval, keycode, state) matches KeyClass::Printable(ascii) ==> (
        keys.contains_key(ascii as u32) ==> match evaluate(keys[ascii as u32], ctx) {
            Evaluated::Gives(Value::Int(n)) => !(0 <= n <= 0xFFFF_FFFF) || character(
                n as u32,
            ).len() == 0,
            _ => true,
        }),
    ensures
        is_ignored(f, processed(f, keyval, keycode, state), false),
{
    assert(ctx == latin_ctx(state & 2 != 0));
}

// ── what always has a result ───────────────────────────────────────────────────

/// A key event has a result where no expression is asked: for the release of a key, a modifier, a
/// shortcut and a key that types nothing. In an entry that composes it has one where the engine has
/// one, and the deleting key has one while nothing is being composed.
pub proof fn events_have_results(f: Front, keyval: u32, keycode: u32, state: u32)
    ensures
        ({
            let class = class_of(f, keyval, keycode, state);
            let has = processed_defined(f, keyval, keycode, state);
            let active = f.entries[f.current as int];
            &&& class is Release || class is Modifier || class is ShortcutCombo || class is FunctionKey
                ==> has
            &&& class is ImeSwitch && (f.settings.simple_mode || state & 0x4000_0000 != 0) ==> has
            &&& active matches ModeModel::Hangul(l, c) ==> {
                &&& class == KeyClass::Backspace ==> (has <==> c.cur == syllable(None, None, None)
                    || backspace_defined(l, c))
                &&& class matches KeyClass::Printable(ascii) ==> (has <==> press_defined(
                    l,
                    c,
                    ascii,
                    state & 2 != 0,
                ))
            }
            &&& active matches ModeModel::Latin(keys) ==> {
                &&& class == KeyClass::Backspace ==> has
                &&& class matches KeyClass::Printable(ascii) ==> (!keys.contains_key(ascii as u32)
                    ==> has)
            }
        }),
{
}

} // verus!
