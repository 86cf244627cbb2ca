//! What holds of the front end as a whole.

use vstd::prelude::*;

use super::model::{
    class_of, dropped, first_or_second, flushed, is_modifier, processed, subscript, switched,
    target, valid, with_settings, Front, KeyClass, ModeModel, KEY_BACKSPACE, RELEASE_MASK,
    SHIFT_MASK,
};
use crate::config::lookup;
use crate::engine::model::{initial, is_blank};
use crate::evdev::qwerty;
use crate::expr::{evaluate, variable, zero_ctx, Ctx, Evaluated, ExprModel, Value};
use crate::settings::Settings;
use crate::text::numeral;

verus! {

// ── keys ───────────────────────────────────────────────────────────────────────

/// A switching key is known as one whether it goes down or up, and whatever the modifiers.
pub proof fn switching_keys_are_always_known(f: Front, keyval: u32, keycode: u32, state: u32)
    requires
        f.ime_switch.contains_key(keyval),
    ensures
        class_of(f, keyval, keycode, state) == KeyClass::ImeSwitch,
{
}

/// A printable key is known by its place on the keyboard: whatever symbol the active keyboard
/// layout gives it, it is the same key.
pub proof fn places_decide_over_symbols(
    f: Front,
    keyval1: u32,
    keyval2: u32,
    keycode: u32,
    state: u32,
)
    requires
        !f.ime_switch.contains_key(keyval1) && !f.ime_switch.contains_key(keyval2),
        !is_modifier(keyval1) && !is_modifier(keyval2),
        keyval1 != KEY_BACKSPACE && keyval2 != KEY_BACKSPACE,
        qwerty(keycode, state & SHIFT_MASK != 0) is Some,
    ensures
        class_of(f, keyval1, keycode, state) == class_of(f, keyval2, keycode, state),
{
}

/// A modifier, and a key that goes up and switches nothing, are left to the application and
/// change nothing.
pub proof fn modifiers_and_releases_change_nothing(
    f: Front,
    keyval: u32,
    keycode: u32,
    state: u32,
)
    requires
        !f.ime_switch.contains_key(keyval),
        is_modifier(keyval) || state & RELEASE_MASK != 0,
    ensures
        processed(f, keyval, keycode, state).state == f,
        processed(f, keyval, keycode, state).actions.len() == 0,
        !processed(f, keyval, keycode, state).handled,
{
}

/// Whether the active entry is composing nothing.
pub open spec fn is_idle(f: Front) -> bool {
    f.entries[f.current as int] matches ModeModel::Hangul(_, c) ==> is_blank(c.cur)
}

/// A shortcut commits what is being composed and is left to the application.
pub proof fn shortcuts_commit_and_pass(f: Front, keyval: u32, keycode: u32, state: u32)
    requires
        valid(f),
        class_of(f, keyval, keycode, state) == KeyClass::ShortcutCombo,
    ensures
        is_idle(processed(f, keyval, keycode, state).state),
        processed(f, keyval, keycode, state).state.current == f.current,
        !processed(f, keyval, keycode, state).handled,
{
}

// ── the state ──────────────────────────────────────────────────────────────────

/// No event makes an index invalid, adds or takes away an entry, or touches the settings.
pub proof fn events_keep_the_front_end_valid(f: Front, keyval: u32, keycode: u32, state: u32)
    requires
        valid(f),
    ensures
        ({
            let g = processed(f, keyval, keycode, state).state;
            &&& valid(g)
            &&& g.entries.len() == f.entries.len()
            &&& g.settings == f.settings
            &&& g.ime_switch == f.ime_switch
        }),
        valid(flushed(f).state),
        valid(dropped(f).state),
{
}

/// A key touches the active entry only: what the others compose stays as it is.
pub proof fn other_entries_stay(f: Front, keyval: u32, keycode: u32, state: u32, i: int)
    requires
        valid(f),
        0 <= i < f.entries.len(),
        i != f.current,
    ensures
        processed(f, keyval, keycode, state).state.entries[i] == f.entries[i],
{
}

/// Settings in force stay as they are when they are put in force again.
pub proof fn settings_settle(f: Front, st: Settings)
    requires
        valid(f),
    ensures
        valid(with_settings(f, st)),
        with_settings(with_settings(f, st), st) == with_settings(f, st),
{
}

// ── switching ──────────────────────────────────────────────────────────────────

/// A switching key is used up whether it goes down or up. Going up it changes nothing.
pub proof fn switching_keys_are_used_up(f: Front, keyval: u32, keycode: u32, state: u32)
    requires
        f.ime_switch.contains_key(keyval),
    ensures
        processed(f, keyval, keycode, state).handled,
        state & RELEASE_MASK != 0 ==> processed(f, keyval, keycode, state).state == f,
{
}

/// Switching commits what was being composed: the entry that is left starts afresh.
pub proof fn switching_commits(f: Front, keyval: u32)
    requires
        valid(f),
        target(f, keyval) != f.current,
    ensures
        ({
            let g = switched(f, keyval).state;
            &&& g.current == target(f, keyval)
            &&& g.entries[f.current as int] matches ModeModel::Hangul(l, c) ==> c == initial(l)
        }),
{
}

/// Whether, in the simple mode, one of its two entries is active.
pub open spec fn is_settled(f: Front) -> bool {
    f.settings.simple_mode ==> f.current == f.hangul_idx || f.current == f.latin_idx
}

/// In the simple mode one of its two entries is active, once the settings are in force and over
/// every key.
pub proof fn simple_mode_keeps_to_two_entries(
    f: Front,
    st: Settings,
    keyval: u32,
    keycode: u32,
    state: u32,
)
    requires
        valid(f),
    ensures
        is_settled(with_settings(f, st)),
        is_settled(f) ==> is_settled(processed(f, keyval, keycode, state).state),
{
}

/// In the simple mode switching twice leads back.
pub proof fn simple_mode_switches_back(f: Front, keyval: u32)
    requires
        valid(f),
        f.settings.simple_mode,
        is_settled(f),
    ensures
        switched(switched(f, keyval).state, keyval).state.current == f.current,
{
}

/// In the full mode a key with the expression `!A` leads from the first entry to the second, if
/// there is one, and from any other entry to the first.
pub proof fn default_switch_goes_first_or_second(f: Front, keyval: u32)
    requires
        valid(f),
        !f.settings.simple_mode,
        lookup(f.ime_switch, keyval) == Some(first_or_second()),
        f.current <= i64::MAX,
    ensures
        f.current == 0 && f.entries.len() >= 2 ==> target(f, keyval) == 1,
        f.current == 0 && f.entries.len() == 1 ==> target(f, keyval) == 0,
        f.current != 0 ==> target(f, keyval) == 0,
{
    reveal_strlit("A");
    reveal_strlit("T");
    reveal_strlit("P");
    let ctx = Ctx { a: f.current as i64, ..zero_ctx() };
    assert("A"@[0] != "T"@[0] && "A"@[0] != "P"@[0]);
    assert(variable(ctx, "A"@) == Some(ctx.a));
    assert(evaluate(ExprModel::Var("A"@), ctx) == Evaluated::Gives(Value::Int(ctx.a)));
}

// ── the mode indicator ─────────────────────────────────────────────────────────

/// A number has as many subscript digits as digits.
pub proof fn subscripts_are_as_long_as_numerals(n: nat)
    ensures
        subscript(n).len() == numeral(n, 10).len(),
{
}

} // verus!
