//! Which entries the front end has, which one is active, and where switching keys lead.

use vstd::prelude::*;

use super::model::{
    front_of, has_hangul_key, keysym_named, mode_of, modes_of, processed, subscript, switches,
    symbol, target, valid, with_settings, Front, ModeModel,
};
use crate::config::compile::compiled;
use crate::config::{ConfigModel, ShortcutModel};
use crate::engine::model::initial;
use crate::expr::operators::{is_part, units_are_found_wherever_they_stand};
use crate::expr::parser::parsed;
use crate::expr::{evaluate, zero_ctx, Ctx, ErrorModel, Evaluated, Expr, ExprModel, UnOp, Value};
use crate::settings::{nothing_said_means_the_full_mode, Settings};
use crate::text::laws::numerals_have_no_leading_zero;
use crate::text::numeral;
use crate::unit::Unit;

verus! {

// ── the entry to start with ────────────────────────────────────────────────────

/// In the full mode a front end starts with the document's default entry, if there is one of that
/// index, else with the last one. Leaving the simple mode goes back to that entry.
pub proof fn the_default_entry_comes_first(c: ConfigModel, st: Settings)
    requires
        c.entries.len() > 0,
        c.entries.len() <= usize::MAX,
    ensures
        ({
            let f = front_of(c, st);
            let n = c.entries.len();
            &&& c.default_entry < n ==> f.default_entry == c.default_entry
            &&& c.default_entry >= n ==> f.default_entry == n - 1
            &&& !st.simple_mode ==> f.current == f.default_entry
        }),
{
}

/// The entry to start with stays what it is, over every key and with any settings.
pub proof fn the_default_entry_stays(f: Front, st: Settings, keyval: u32, keycode: u32, state: u32)
    ensures
        processed(f, keyval, keycode, state).state.default_entry == f.default_entry,
        with_settings(f, st).default_entry == f.default_entry,
{
}

/// Leaving the simple mode goes to the entry to start with. In the full mode settings leave the
/// active entry as it is.
pub proof fn leaving_the_simple_mode_goes_back(f: Front, st: Settings)
    requires
        valid(f),
        !st.simple_mode,
    ensures
        f.settings.simple_mode ==> with_settings(f, st).current == f.default_entry,
        !f.settings.simple_mode ==> with_settings(f, st).current == f.current,
{
}

/// The index, or the last one below `n` where it is too large.
pub open spec fn at_most_last(i: usize, n: nat) -> int {
    if i < n {
        i as int
    } else {
        n - 1
    }
}

/// Entering the simple mode goes to its Hangul entry. Within it the active entry stays, if it is
/// one of the two, else it becomes the Hangul entry. An index that is too large means the last
/// entry.
pub proof fn the_simple_mode_begins_with_hangul(f: Front, st: Settings)
    requires
        valid(f),
        f.entries.len() <= usize::MAX,
        st.simple_mode,
    ensures
        ({
            let g = with_settings(f, st);
            let hangul = at_most_last(st.hangul_entry, f.entries.len());
            let latin = at_most_last(st.latin_entry, f.entries.len());
            &&& !f.settings.simple_mode ==> g.current == hangul
            &&& f.settings.simple_mode && (f.current == hangul || f.current == latin) ==> g.current
                == f.current
            &&& f.settings.simple_mode && f.current != hangul && f.current != latin ==> g.current
                == hangul
        }),
{
}

/// Settings change nothing but which settings are in force, which entry is active, and the two
/// entries of the simple mode.
pub proof fn settings_leave_the_entries(f: Front, st: Settings)
    requires
        valid(f),
        f.entries.len() <= usize::MAX,
    ensures
        ({
            let g = with_settings(f, st);
            &&& g.settings == st
            &&& g.entries == f.entries
            &&& g.ime_switch == f.ime_switch
            &&& g.hangul_idx == at_most_last(st.hangul_entry, f.entries.len())
            &&& g.latin_idx == at_most_last(st.latin_entry, f.entries.len())
        }),
{
}

/// A front end that starts in the simple mode starts with its Hangul entry.
pub proof fn the_simple_mode_can_come_first(c: ConfigModel, st: Settings)
    requires
        c.entries.len() > 0,
        c.entries.len() <= usize::MAX,
        st.simple_mode,
    ensures
        front_of(c, st).current == at_most_last(st.hangul_entry, c.entries.len()),
        front_of(c, st).settings == st,
{
    nothing_said_means_the_full_mode();
}

// ── the entries ────────────────────────────────────────────────────────────────

/// A front end has the entries of the document, each at its index. An entry that can be compiled,
/// and in whose keys a Hangul unit stands anywhere, composes with its layout, and starts afresh.
/// Any other that can be compiled types what its keys give. One that cannot be compiled types
/// nothing.
pub proof fn entries_compose_where_keys_hold_units(c: ConfigModel, st: Settings, i: usize)
    requires
        i < c.entries.len(),
        c.entries.len() <= usize::MAX,
    ensures
        ({
            let f = front_of(c, st);
            let m = f.entries[i as int];
            &&& f.entries.len() == c.entries.len()
            &&& compiled(c, i) matches Ok(l) ==> if exists|k: u32, u: Unit|
                l.keys.contains_key(k) && #[trigger] is_part(ExprModel::Unit(u), l.keys[k]) {
                m == ModeModel::Hangul(l, initial(l))
            } else {
                m == ModeModel::Latin(l.keys)
            }
            &&& compiled(c, i) is Err ==> m == ModeModel::Latin(Map::empty())
        }),
{
    if let Ok(l) = compiled(c, i) {
        if has_hangul_key(l) {
            let k = choose|k: u32| l.keys.contains_key(k) && Expr::has_unit(#[trigger] l.keys[k]);
            units_are_found_wherever_they_stand(l.keys[k]);
            let u = choose|u: Unit| #[trigger] is_part(ExprModel::Unit(u), l.keys[k]);
            assert(l.keys.contains_key(k) && is_part(ExprModel::Unit(u), l.keys[k]));
        }
        if exists|k: u32, u: Unit|
            l.keys.contains_key(k) && #[trigger] is_part(ExprModel::Unit(u), l.keys[k]) {
            let (k, u) = choose|k: u32, u: Unit|
                l.keys.contains_key(k) && #[trigger] is_part(ExprModel::Unit(u), l.keys[k]);
            units_are_found_wherever_they_stand(l.keys[k]);
            assert(l.keys.contains_key(k) && Expr::has_unit(l.keys[k]));
        }
    }
    assert(modes_of(c)[i as int] == mode_of(c, i));
}

/// A document without entries gives a front end with one entry, which types nothing.
pub proof fn there_is_always_an_entry(c: ConfigModel, st: Settings)
    requires
        c.entries.len() == 0,
    ensures
        front_of(c, st).entries == seq![ModeModel::Latin(Map::empty())],
        front_of(c, st).current == 0,
        front_of(c, st).default_entry == 0,
{
}

// ── switching keys ─────────────────────────────────────────────────────────────

/// The six virtual keys that are known, with their key symbols. No other name is.
pub proof fn six_virtual_keys_are_known(vk: Seq<char>, k: u32)
    ensures
        keysym_named(vk) == Some(k) <==> {
            ||| vk == "VK_HANGUL"@ && k == 0xFF31
            ||| vk == "VK_HANJA"@ && k == 0xFF34
            ||| vk == "VK_CAPITAL"@ && k == 0xFFE5
            ||| vk == "VK_SPACE"@ && k == 0x0020
            ||| vk == "VK_RMENU"@ && k == 0xFFEA
            ||| vk == "VK_RCONTROL"@ && k == 0xFFE4
        },
{
    reveal_strlit("VK_HANGUL");
    reveal_strlit("VK_HANJA");
    reveal_strlit("VK_CAPITAL");
    reveal_strlit("VK_SPACE");
    reveal_strlit("VK_RMENU");
    reveal_strlit("VK_RCONTROL");
    assert("VK_CAPITAL"@[3] == 'C'
        && "VK_SPACE"@[3] == 'S' && "VK_RMENU"@[4] == 'M' && "VK_RCONTROL"@[4] == 'C'
        && "VK_HANGUL"@[3] == 'H' && "VK_HANJA"@[3] == 'H' && "VK_RMENU"@[3] == 'R'
        && "VK_RCONTROL"@[3] == 'R');
    assert("VK_HANGUL"@.len() == 9 && "VK_HANJA"@.len() == 8);
}

/// Whether a shortcut makes a key a switching key with the expression: it is for switching, its
/// key is known, and its value can be read.
pub open spec fn switches_by(s: ShortcutModel, k: u32, e: ExprModel) -> bool {
    &&& s.usage == "IME_SWITCH"@
    &&& keysym_named(s.key) == Some(k)
    &&& parsed(s.value) == Ok::<ExprModel, ErrorModel>(e)
}

/// A key switches by the last shortcut that makes it a switching key.
pub proof fn the_last_shortcut_counts(c: ConfigModel, st: Settings, k: u32, e: ExprModel, i: int)
    requires
        0 <= i < c.editor.shortcuts.len(),
        switches_by(c.editor.shortcuts[i], k, e),
        forall|j: int, x: ExprModel|
            i < j < c.editor.shortcuts.len() ==> !#[trigger] switches_by(
                c.editor.shortcuts[j],
                k,
                x,
            ),
    ensures
        front_of(c, st).ime_switch.contains_key(k),
        front_of(c, st).ime_switch[k] == e,
{
    lemma_last_switch(c.editor.shortcuts, k, e, i);
}

proof fn lemma_last_switch(s: Seq<ShortcutModel>, k: u32, e: ExprModel, i: int)
    requires
        0 <= i < s.len(),
        switches_by(s[i], k, e),
        forall|j: int, x: ExprModel| i < j < s.len() ==> !#[trigger] switches_by(s[j], k, x),
    ensures
        switches(s).contains_key(k),
        switches(s)[k] == e,
    decreases s.len(),
{
    if i < s.len() - 1 {
        let init = s.drop_last();
        assert forall|j: int, x: ExprModel| i < j < init.len() implies !#[trigger] switches_by(
            init[j],
            k,
            x,
        ) by {
            assert(!switches_by(s[j], k, x));
        }
        lemma_last_switch(init, k, e, i);
        if let Ok(x) = parsed(s.last().value) {
            assert(!switches_by(s[s.len() - 1], k, x));
        }
    }
}

/// A key that no shortcut makes a switching key is none, but for the Hangul key: that one then
/// switches by `!A`.
pub proof fn the_hangul_key_always_switches(c: ConfigModel, st: Settings, k: u32)
    requires
        forall|j: int, x: ExprModel|
            0 <= j < c.editor.shortcuts.len() ==> !#[trigger] switches_by(
                c.editor.shortcuts[j],
                k,
                x,
            ),
    ensures
        k != 0xFF31 ==> !front_of(c, st).ime_switch.contains_key(k),
        k == 0xFF31 ==> front_of(c, st).ime_switch.contains_key(k) && front_of(c, st).ime_switch[k]
            == ExprModel::Unary(UnOp::Not, Box::new(ExprModel::Var("A"@))),
{
    lemma_no_switch(c.editor.shortcuts, k);
}

proof fn lemma_no_switch(s: Seq<ShortcutModel>, k: u32)
    requires
        forall|j: int, x: ExprModel| 0 <= j < s.len() ==> !#[trigger] switches_by(s[j], k, x),
    ensures
        !switches(s).contains_key(k),
    decreases s.len(),
{
    if s.len() > 0 {
        let init = s.drop_last();
        assert forall|j: int, x: ExprModel| 0 <= j < init.len() implies !#[trigger] switches_by(
            init[j],
            k,
            x,
        ) by {
            assert(!switches_by(s[j], k, x));
        }
        lemma_no_switch(init, k);
        if let Ok(x) = parsed(s.last().value) {
            assert(!switches_by(s[s.len() - 1], k, x));
        }
    }
}

// ── where they lead ────────────────────────────────────────────────────────────

/// In the simple mode every switching key leads from the Hangul entry to the Latin one, and from
/// any other entry to the Hangul one.
pub proof fn the_simple_mode_has_two_ways(f: Front, keyval: u32)
    requires
        f.settings.simple_mode,
    ensures
        f.current == f.hangul_idx ==> target(f, keyval) == f.latin_idx,
        f.current != f.hangul_idx ==> target(f, keyval) == f.hangul_idx,
{
}

/// In the full mode a switching key leads to the entry of the index that its expression gives, with
/// the active entry's index as `A` and all other variables zero. A negative index means the first
/// entry, one that is too large the last. Where the expression gives no integer, the active entry
/// stays.
pub proof fn the_full_mode_goes_where_the_key_says(f: Front, keyval: u32, ctx: Ctx)
    requires
        valid(f),
        f.entries.len() <= i64::MAX,
        f.entries.len() <= usize::MAX,
        !f.settings.simple_mode,
        f.ime_switch.contains_key(keyval),
        ctx.a == f.current,
        ctx.t == 0 && ctx.p == 0 && ctx.b == 0 && ctx.c == 0 && ctx.d == 0 && ctx.e == 0,
    ensures
        match evaluate(f.ime_switch[keyval], ctx) {
            Evaluated::Gives(Value::Int(n)) => {
                &&& n < 0 ==> target(f, keyval) == 0
                &&& 0 <= n < f.entries.len() ==> target(f, keyval) == n
                &&& n >= f.entries.len() ==> target(f, keyval) == f.entries.len() - 1
            },
            _ => target(f, keyval) == f.current,
        },
{
    assert(ctx == (Ctx { a: f.current as i64, ..zero_ctx() }));
}

// ── the symbol ─────────────────────────────────────────────────────────────────

/// The symbol of the active entry begins with a Hangul syllable where it composes Hangul, else with
/// a Latin letter. In the simple mode that is all. In the full mode the entry's index follows, in
/// decimal, with the subscript of each digit.
pub proof fn symbols_name_the_entry(f: Front)
    requires
        valid(f),
    ensures
        ({
            let s = symbol(f);
            let digits = numeral(f.current as nat, 10);
            &&& s.len() == (if f.settings.simple_mode {
                1
            } else {
                1 + digits.len()
            })
            &&& s[0] == (if f.entries[f.current as int] is Hangul {
                '가'
            } else {
                'A'
            })
            &&& !f.settings.simple_mode ==> forall|i: int|
                0 <= i < digits.len() ==> #[trigger] s[i + 1] as int - 0x2080 == digits[i] as int
                    - '0' as int
        }),
{
    reveal_strlit("가");
    reveal_strlit("A");
    let digits = numeral(f.current as nat, 10);
    numerals_have_no_leading_zero(f.current as nat, 10);
    let sub = subscript(f.current as nat);
    assert(sub.len() == digits.len());
    if !f.settings.simple_mode {
        assert forall|i: int| 0 <= i < digits.len() implies #[trigger] symbol(f)[i + 1] as int
            - 0x2080 == digits[i] as int - '0' as int by {
            assert(symbol(f)[i + 1] == sub[i]);
        }
    }
}

} // verus!
