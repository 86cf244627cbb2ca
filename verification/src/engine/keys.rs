//! What keys do: what each value of a key's expression leads to.

use vstd::prelude::*;

use super::model::{feed, initial, key_ctx, press, press_defined, shown, Comp, Syllable};
use super::rules::{character, syllable};
use crate::config::LayoutModel;
use crate::expr::{evaluate, Ctx, ErrorModel, Evaluated, Value};
use crate::unit::Unit;

verus! {

/// Whether the variables are those of a key: `T` is 0 where nothing is being composed, 2 where the
/// syllable has a vowel, else 1; `P` is 1 with Caps Lock, else 0.
pub open spec fn tells_of_key(ctx: Ctx, s: Syllable, caps: bool) -> bool {
    &&& ctx.t == 0 <==> s == syllable(None, None, None)
    &&& ctx.t == 2 <==> s.jung is Some
    &&& 0 <= ctx.t <= 2
    &&& ctx.p == (if caps {
        1int
    } else {
        0
    })
    &&& ctx.a == 0 && ctx.b == 0 && ctx.c == 0 && ctx.d == 0 && ctx.e == 0
}

/// Whether the key's expression comes to the result.
pub open spec fn key_gives(l: LayoutModel, c: Comp, ascii: u8, caps: bool, r: Evaluated) -> bool {
    l.keys.contains_key(ascii as u32) && exists|ctx: Ctx|
        tells_of_key(ctx, c.cur, caps) && #[trigger] evaluate(l.keys[ascii as u32], ctx) == r
}

/// Nothing is being composed any more, and no committed syllable can be taken up again. The
/// automaton stays in its state.
pub open spec fn is_closed_off(c: Comp, d: Comp) -> bool {
    &&& d.cur == syllable(None, None, None)
    &&& d.history.len() == 0
    &&& d.prev.len() == 0
    &&& d.streak is None
    &&& d.auto_state == c.auto_state
}

proof fn lemma_key(l: LayoutModel, c: Comp, ascii: u8, caps: bool, r: Evaluated)
    requires
        key_gives(l, c, ascii, caps, r),
    ensures
        evaluate(l.keys[ascii as u32], key_ctx(c.cur, caps)) == r,
{
    let ctx = choose|ctx: Ctx|
        tells_of_key(ctx, c.cur, caps) && #[trigger] evaluate(l.keys[ascii as u32], ctx) == r;
    assert(ctx == key_ctx(c.cur, caps));
}

/// A key that gives a unit feeds it: it commits what feeding commits, shows the syllable that
/// comes of it, and is used up.
pub proof fn units_are_fed(l: LayoutModel, c: Comp, ascii: u8, caps: bool, u: Unit)
    requires
        key_gives(l, c, ascii, caps, Evaluated::Gives(Value::Unit(u))),
    ensures
        ({
            let p = press(l, c, ascii, caps);
            let f = feed(l, Comp { streak: None, ..c }, u);
            &&& p.state == f.state
            &&& p.outcome.commit == f.out
            &&& p.outcome.preedit == shown(l, f.state.cur)
            &&& p.outcome.consumed
            &&& p.outcome.delete_before == 0
        }),
{
    lemma_key(l, c, ascii, caps, Evaluated::Gives(Value::Unit(u)));
}

/// A key that gives a number commits the syllable and, behind it, the character of that code
/// point, if there is one. It is used up, and nothing is left.
pub proof fn numbers_type_characters(l: LayoutModel, c: Comp, ascii: u8, caps: bool, n: i64)
    requires
        key_gives(l, c, ascii, caps, Evaluated::Gives(Value::Int(n))),
    ensures
        ({
            let p = press(l, c, ascii, caps);
            &&& is_closed_off(c, p.state)
            &&& p.outcome.commit == shown(l, c.cur) + (if 0 <= n <= 0x10FFFF {
                character(n as u32)
            } else {
                Seq::empty()
            })
            &&& p.outcome.preedit.len() == 0
            &&& p.outcome.consumed
            &&& p.outcome.delete_before == 0
        }),
{
    lemma_key(l, c, ascii, caps, Evaluated::Gives(Value::Int(n)));
}

/// A key that gives a command commits the syllable and is used up.
pub proof fn commands_commit(l: LayoutModel, c: Comp, ascii: u8, caps: bool, n: u32)
    requires
        key_gives(l, c, ascii, caps, Evaluated::Gives(Value::Command(n))),
    ensures
        ({
            let p = press(l, c, ascii, caps);
            &&& is_closed_off(c, p.state)
            &&& p.outcome.commit == shown(l, c.cur)
            &&& p.outcome.preedit.len() == 0
            &&& p.outcome.consumed
            &&& p.outcome.delete_before == 0
        }),
{
    lemma_key(l, c, ascii, caps, Evaluated::Gives(Value::Command(n)));
}

/// A key whose expression fails commits the syllable and is left to the application.
pub proof fn failing_keys_commit_and_pass(
    l: LayoutModel,
    c: Comp,
    ascii: u8,
    caps: bool,
    e: ErrorModel,
)
    requires
        key_gives(l, c, ascii, caps, Evaluated::Fails(e)),
    ensures
        ({
            let p = press(l, c, ascii, caps);
            &&& is_closed_off(c, p.state)
            &&& p.outcome.commit == shown(l, c.cur)
            &&& p.outcome.preedit.len() == 0
            &&& !p.outcome.consumed
            &&& p.outcome.delete_before == 0
        }),
{
    lemma_key(l, c, ascii, caps, Evaluated::Fails(e));
}

/// A key that the layout does not have leaves nothing. Where a syllable was shown, it is committed
/// with the key's own character behind it, and the key is used up; else the key is left to the
/// application.
pub proof fn other_keys_type_themselves(l: LayoutModel, c: Comp, ascii: u8, caps: bool)
    requires
        !l.keys.contains_key(ascii as u32),
    ensures
        ({
            let p = press(l, c, ascii, caps);
            &&& is_closed_off(c, p.state)
            &&& p.outcome.preedit.len() == 0
            &&& p.outcome.delete_before == 0
            &&& p.outcome.consumed <==> shown(l, c.cur).len() > 0
            &&& p.outcome.consumed ==> p.outcome.commit == shown(l, c.cur).push(ascii as char)
            &&& !p.outcome.consumed ==> p.outcome.commit.len() == 0
        }),
{
}

/// Starting afresh, nothing is being composed, nothing is remembered, and the automaton is in its
/// starting state.
pub proof fn starting_afresh_leaves_nothing(l: LayoutModel)
    ensures
        initial(l).cur == syllable(None, None, None),
        initial(l).history.len() == 0,
        initial(l).prev.len() == 0,
        initial(l).streak is None,
        initial(l).auto_state == l.automata_start,
{
}

/// A key has a result unless its expression, or the automaton that it leads to, has none: it has
/// one where the layout does not have the key, and where the expression fails or gives anything but
/// a unit; and without an automaton also where it gives a unit.
pub proof fn keys_have_results(l: LayoutModel, c: Comp, ascii: u8, caps: bool, r: Evaluated)
    ensures
        !l.keys.contains_key(ascii as u32) ==> press_defined(l, c, ascii, caps),
        key_gives(l, c, ascii, caps, r) ==> {
            &&& r is Undefined ==> !press_defined(l, c, ascii, caps)
            &&& r is Fails ==> press_defined(l, c, ascii, caps)
            &&& (r matches Evaluated::Gives(v) && v !is Unit) ==> press_defined(l, c, ascii, caps)
            &&& r is Gives && l.automata.is_empty() ==> press_defined(l, c, ascii, caps)
        },
{
    if key_gives(l, c, ascii, caps, r) {
        lemma_key(l, c, ascii, caps, r);
    }
}

} // verus!
