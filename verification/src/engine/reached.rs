//! What holds in every state that inputs lead to.

use vstd::prelude::*;

use super::laws::{
    alike, deleting_goes_on_as_it_began, deleting_stays_replayable, deleting_undoes_a_key, fed_by,
    initial_is_replayable, joins, keys_stay_replayable, memory_stays_bounded,
    nothing_composed_shows_nothing, press_ends_a_run_of_deleting, replayable,
    replaying_ignores_streak, replaying_keeps_alike, rules_stay_replayable, sound,
};
use super::model::{
    backspace, bksp_unit, cleared, committed, feed, initial, is_blank, jamo_of, key_ctx,
    no_syllable, press, remembered, replay, revived, revives, shortened, shown, undone, without_any,
    without_last, Comp, Syllable,
};
use crate::config::{lookup, BkspUnit, LayoutModel};
use crate::expr::{evaluate, Ctx, Evaluated, ExprModel, Value};
use crate::text::char_at;
use crate::unit::{Category, Unit};

verus! {

// ── inputs ─────────────────────────────────────────────────────────────────────

/// What an engine can be asked to do.
pub enum Input {
    /// The press of a key, by its ASCII character, with or without Caps Lock.
    Press(u8, bool),
    /// The press of the deleting key.
    Backspace,
    /// To commit the syllable and start afresh.
    Flush,
    /// To drop the syllable and start afresh.
    Reset,
}

/// The state that an input leads to.
pub open spec fn after(l: LayoutModel, c: Comp, i: Input) -> Comp {
    match i {
        Input::Press(ascii, caps) => press(l, c, ascii, caps).state,
        Input::Backspace => backspace(l, c).state,
        Input::Flush => initial(l),
        Input::Reset => initial(l),
    }
}

/// The state that inputs, one after the other, lead to from the start.
pub open spec fn reached(l: LayoutModel, inputs: Seq<Input>) -> Comp
    decreases inputs.len(),
{
    if inputs.len() == 0 {
        initial(l)
    } else {
        after(l, reached(l, inputs.drop_last()), inputs.last())
    }
}

// ── going back ─────────────────────────────────────────────────────────────────

/// Without an automaton every state is one that its history gives.
pub proof fn reached_states_are_replayable(l: LayoutModel, inputs: Seq<Input>)
    requires
        l.automata.is_empty(),
    ensures
        replayable(l, reached(l, inputs)),
    decreases inputs.len(),
{
    initial_is_replayable(l);
    if inputs.len() > 0 {
        let c = reached(l, inputs.drop_last());
        reached_states_are_replayable(l, inputs.drop_last());
        match inputs.last() {
            Input::Press(ascii, caps) => keys_stay_replayable(l, c, ascii, caps),
            Input::Backspace => deleting_stays_replayable(l, c),
            _ => {},
        }
    }
}

/// Without an automaton, deleting the last key press restores what was shown before it, in every
/// state: after a key that fed a unit and committed nothing, the deleting key is used up, commits
/// nothing, and leads back to the syllable as it was.
pub proof fn deleting_restores_what_was_shown(
    l: LayoutModel,
    inputs: Seq<Input>,
    ascii: u8,
    caps: bool,
)
    requires
        l.automata.is_empty(),
        l.bksp.composing == BkspUnit::LastKey,
        fed_by(l, reached(l, inputs), ascii, caps) is Some,
        press(l, reached(l, inputs), ascii, caps).outcome.commit.len() == 0,
        !is_blank(press(l, reached(l, inputs), ascii, caps).state.cur),
    ensures
        ({
            let c = reached(l, inputs);
            let b = backspace(l, press(l, c, ascii, caps).state);
            &&& b.outcome.preedit == shown(l, c.cur)
            &&& b.outcome.consumed
            &&& b.outcome.commit.len() == 0
            &&& b.outcome.delete_before == 0
            &&& alike(b.state, c)
        }),
{
    let c = reached(l, inputs);
    let u = fed_by(l, c, ascii, caps)->0;
    reached_states_are_replayable(l, inputs);
    assert(joins(l, c, u));
    deleting_undoes_a_key(l, c, ascii, caps);
}

/// Without an automaton, deleting the last key press after a key that committed a syllable leaves
/// nothing of the next one.
pub proof fn deleting_takes_the_first_letter(
    l: LayoutModel,
    inputs: Seq<Input>,
    ascii: u8,
    caps: bool,
)
    requires
        l.automata.is_empty(),
        l.bksp.composing == BkspUnit::LastKey,
        fed_by(l, reached(l, inputs), ascii, caps) is Some,
        press(l, reached(l, inputs), ascii, caps).outcome.commit.len() > 0,
    ensures
        ({
            let c = reached(l, inputs);
            let b = backspace(l, press(l, c, ascii, caps).state);
            &&& b.outcome.preedit.len() == 0
            &&& b.outcome.consumed
            &&& b.outcome.commit.len() == 0
            &&& b.outcome.delete_before == 0
            &&& is_blank(b.state.cur)
        }),
{
    let c = reached(l, inputs);
    let u = fed_by(l, c, ascii, caps)->0;
    let p = press(l, c, ascii, caps).state;
    nothing_composed_shows_nothing(l);
    assert(p.history =~= seq![u]);
    assert(p.history.drop_last() =~= Seq::<Unit>::empty());
}

/// Without an automaton, where the deleting key may take up committed syllables again, pressing it
/// twice after a key that committed a syllable takes that key back and then one unit of the
/// syllable, and one committed character with it.
pub proof fn deleting_reaches_the_syllable_before(
    l: LayoutModel,
    inputs: Seq<Input>,
    ascii: u8,
    caps: bool,
)
    requires
        l.automata.is_empty(),
        l.bksp.composing == BkspUnit::LastKey,
        l.bksp.attach,
        fed_by(l, reached(l, inputs), ascii, caps) is Some,
        press(l, reached(l, inputs), ascii, caps).outcome.commit.len() > 0,
    ensures
        ({
            let c = reached(l, inputs);
            let b = backspace(l, backspace(l, press(l, c, ascii, caps).state).state);
            &&& b.outcome.consumed
            &&& b.outcome.commit.len() == 0
            &&& b.outcome.delete_before == 1
            &&& alike(b.state, undone(l, c, BkspUnit::LastKey))
            &&& b.outcome.preedit == shown(l, undone(l, c, BkspUnit::LastKey).cur)
        }),
{
    let c = reached(l, inputs);
    let u = fed_by(l, c, ascii, caps)->0;
    let p = press(l, c, ascii, caps).state;
    let b = backspace(l, p).state;
    nothing_composed_shows_nothing(l);
    reached_states_are_replayable(l, inputs);
    if is_blank(c.cur) {
        assert(c.cur == no_syllable());
    }
    assert(c.history.len() > 0);
    assert(p.prev == remembered(c.prev, c.history));
    assert(p.prev.last() == c.history);
    assert(p.history =~= seq![u]);
    assert(p.history.drop_last() =~= Seq::<Unit>::empty());
    assert(b.prev == p.prev);
    assert(revives(l, b));
    let r = revived(l, b);
    let rest = Comp { prev: b.prev.drop_last(), ..b };
    replaying_keeps_alike(l, cleared(l, rest), cleared(l, c), c.history);
    assert(alike(r, c));
    replaying_keeps_alike(l, cleared(l, r), cleared(l, c), shortened(l, c, BkspUnit::LastKey));
}

// ── letters that can be shown ──────────────────────────────────────────────────

/// Whether the letter in a place, if any, has a code point that is a character.
pub open spec fn spelled_letter(cp: Option<u32>) -> bool {
    cp matches Some(n) ==> char_at(n as int) is Some
}

/// Whether the letters of a syllable have code points that are characters.
pub open spec fn spelled_syllable(s: Syllable) -> bool {
    spelled_letter(s.cho) && spelled_letter(s.jung) && spelled_letter(s.jong)
}

/// Whether a unit, if it is a letter, has a code point that is a character.
pub open spec fn spelled_unit(u: Unit) -> bool {
    u matches Unit::Jamo(j) ==> char_at(j.cp as int) is Some
}

/// Whether all units are spelled.
pub open spec fn spelled_units(units: Seq<Unit>) -> bool {
    forall|i: int| 0 <= i < units.len() ==> spelled_unit(#[trigger] units[i])
}

/// Whether the letters that occur in an expression have code points that are characters.
pub open spec fn spelled_expr(e: ExprModel) -> bool
    decreases e,
{
    match e {
        ExprModel::Unit(u) => spelled_unit(u),
        ExprModel::Unary(_, x) => spelled_expr(*x),
        ExprModel::Binary(_, x, y) => spelled_expr(*x) && spelled_expr(*y),
        ExprModel::Ternary(c, x, y) => spelled_expr(*c) && spelled_expr(*x) && spelled_expr(*y),
        _ => true,
    }
}

/// Whether the letters of a layout, those of its keys, of its virtual units and those that letters
/// combine into, have code points that are characters.
pub open spec fn spelled_layout(l: LayoutModel) -> bool {
    &&& forall|k: u32| #[trigger] l.keys.contains_key(k) ==> spelled_expr(l.keys[k])
    &&& forall|k: (Category, u32, u32)| #[trigger]
        l.combine.contains_key(k) ==> char_at(l.combine[k] as int) is Some
    &&& forall|k: u32| #[trigger]
        l.virtual_units.contains_key(k) ==> char_at(l.virtual_units[k].cp as int) is Some
}

/// Whether the letters of a state have code points that are characters.
pub open spec fn spelled_state(c: Comp) -> bool {
    &&& spelled_syllable(c.cur)
    &&& spelled_units(c.history)
    &&& forall|i: int| 0 <= i < c.prev.len() ==> spelled_units(#[trigger] c.prev[i])
}

/// A syllable of such letters is shown exactly where it has a letter.
pub proof fn spelled_syllables_are_shown(l: LayoutModel, s: Syllable)
    requires
        spelled_syllable(s),
    ensures
        is_blank(s) <==> shown(l, s).len() == 0,
{
    if is_blank(s) {
        nothing_composed_shows_nothing(l);
        assert(s == no_syllable());
    }
}

proof fn lemma_spelled_value(e: ExprModel, ctx: Ctx)
    requires
        spelled_expr(e),
    ensures
        evaluate(e, ctx) matches Evaluated::Gives(Value::Unit(u)) ==> spelled_unit(u),
    decreases e,
{
    if let ExprModel::Ternary(c, x, y) = e {
        lemma_spelled_value(*x, ctx);
        lemma_spelled_value(*y, ctx);
    }
}

proof fn lemma_spelled_without_last(l: LayoutModel, h: Seq<Unit>, cat: Category)
    requires
        spelled_units(h),
    ensures
        spelled_units(without_last(l, h, cat)),
    decreases h.len(),
{
    if h.len() > 0 {
        lemma_spelled_without_last(l, h.drop_last(), cat);
    }
}

proof fn lemma_spelled_without_any(l: LayoutModel, h: Seq<Unit>, cat: Category)
    requires
        spelled_units(h),
    ensures
        spelled_units(without_any(l, h, cat)),
    decreases h.len(),
{
    if h.len() > 0 {
        lemma_spelled_without_any(l, h.drop_last(), cat);
    }
}

proof fn lemma_spelled_shortened(l: LayoutModel, c: Comp, unit: BkspUnit)
    requires
        spelled_units(c.history),
    ensures
        spelled_units(shortened(l, c, unit)),
{
    lemma_spelled_without_last(l, c.history, Category::Cho);
    lemma_spelled_without_last(l, c.history, Category::Jung);
    lemma_spelled_without_last(l, c.history, Category::Jong);
    lemma_spelled_without_any(l, c.history, Category::Cho);
    lemma_spelled_without_any(l, c.history, Category::Jung);
    lemma_spelled_without_any(l, c.history, Category::Jong);
}

proof fn lemma_spelled_committed(l: LayoutModel, c: Comp)
    requires
        spelled_state(c),
    ensures
        spelled_state(committed(l, c).state),
{
    if !is_blank(c.cur) && c.history.len() > 0 {
        let all = c.prev.push(c.history);
        let kept = remembered(c.prev, c.history);
        assert forall|i: int| 0 <= i < all.len() implies spelled_units(#[trigger] all[i]) by {}
        assert forall|i: int| 0 <= i < kept.len() implies spelled_units(#[trigger] kept[i]) by {
            if kept.len() < all.len() {
                assert(kept[i] == all[i + 1]);
            }
        }
    }
}

proof fn lemma_spelled_feed(l: LayoutModel, c: Comp, u: Unit)
    requires
        spelled_layout(l),
        spelled_state(c),
        spelled_unit(u),
    ensures
        spelled_state(feed(l, c, u).state),
{
    lemma_spelled_committed(l, c);
    if let Some(j) = jamo_of(l, u) {
        assert(char_at(j.cp as int) is Some);
        lemma_spelled_without_last(l, c.history, j.category);
    }
}

proof fn lemma_spelled_replay(l: LayoutModel, c: Comp, units: Seq<Unit>)
    requires
        spelled_layout(l),
        spelled_state(c),
        spelled_units(units),
    ensures
        spelled_state(replay(l, c, units)),
    decreases units.len(),
{
    if units.len() > 0 {
        lemma_spelled_replay(l, c, units.drop_last());
        lemma_spelled_feed(l, replay(l, c, units.drop_last()), units.last());
    }
}

/// With a layout whose letters are characters, every input leads from a state whose letters are
/// characters to another one.
pub proof fn inputs_stay_spelled(l: LayoutModel, c: Comp, i: Input)
    requires
        spelled_layout(l),
        spelled_state(c),
    ensures
        spelled_state(initial(l)),
        spelled_state(after(l, c, i)),
{
    match i {
        Input::Press(ascii, caps) => {
            let d = Comp { streak: None, ..c };
            if let Some(e) = lookup(l.keys, ascii as u32) {
                lemma_spelled_value(e, key_ctx(d.cur, caps));
                if let Some(u) = fed_by(l, d, ascii, caps) {
                    lemma_spelled_feed(l, d, u);
                }
            }
        },
        Input::Backspace => {
            if revives(l, c) {
                let rest = Comp { prev: c.prev.drop_last(), ..c };
                lemma_spelled_replay(l, cleared(l, rest), c.prev.last());
                let r = revived(l, c);
                lemma_spelled_shortened(l, r, l.bksp.composing);
                lemma_spelled_replay(l, cleared(l, r), shortened(l, r, l.bksp.composing));
            } else if !is_blank(c.cur) {
                let unit = bksp_unit(l, c);
                let e = Comp { streak: Some(unit), ..c };
                lemma_spelled_shortened(l, e, unit);
                lemma_spelled_replay(l, cleared(l, e), shortened(l, e, unit));
            }
        },
        _ => {},
    }
}

/// With a layout whose letters are characters, so are the letters of every state.
pub proof fn reached_states_are_spelled(l: LayoutModel, inputs: Seq<Input>)
    requires
        spelled_layout(l),
    ensures
        spelled_state(reached(l, inputs)),
    decreases inputs.len(),
{
    if inputs.len() > 0 {
        reached_states_are_spelled(l, inputs.drop_last());
        inputs_stay_spelled(l, reached(l, inputs.drop_last()), inputs.last());
    }
}

/// With a layout whose letters are characters, nothing is being composed exactly where nothing is
/// shown, in every state.
pub proof fn empty_exactly_where_nothing_shows(l: LayoutModel, inputs: Seq<Input>)
    requires
        spelled_layout(l),
    ensures
        is_blank(reached(l, inputs).cur) <==> shown(l, reached(l, inputs).cur).len() == 0,
{
    reached_states_are_spelled(l, inputs);
    spelled_syllables_are_shown(l, reached(l, inputs).cur);
}

/// Nothing is being composed, and nothing is shown, at the start and right after flushing or
/// resetting.
pub proof fn fresh_starts_are_empty(l: LayoutModel, inputs: Seq<Input>)
    requires
        inputs.len() == 0 || inputs.last() is Flush || inputs.last() is Reset,
    ensures
        is_blank(reached(l, inputs).cur),
        shown(l, reached(l, inputs).cur).len() == 0,
{
    nothing_composed_shows_nothing(l);
}

// ── going back with what is remembered ─────────────────────────────────────────

/// Whether composing the units of the history anew gives the whole state as it is, with what is
/// remembered of committed syllables.
pub open spec fn wholly_replayable(l: LayoutModel, c: Comp) -> bool {
    replay(l, cleared(l, c), c.history) == c
}

proof fn lemma_feed_wholly_replayable(l: LayoutModel, c: Comp, u: Unit)
    requires
        l.automata.is_empty(),
        wholly_replayable(l, c),
        spelled_syllable(c.cur),
    ensures
        wholly_replayable(l, feed(l, c, u).state),
        feed(l, c, u).out.len() == 0 ==> feed(l, c, u).state.prev == c.prev,
{
    let f = feed(l, c, u);
    let d = cleared(l, f.state);
    spelled_syllables_are_shown(l, c.cur);
    rules_stay_replayable(l, c, u);
    if f.out.len() == 0 {
        assert(f.state.history.drop_last() =~= c.history);
        assert(d =~= cleared(l, c));
    } else {
        assert(f.state.history.drop_last() =~= Seq::<Unit>::empty());
        assert(replay(l, d, f.state.history.drop_last()) == d);
        assert(feed(l, d, u).state.prev == d.prev);
    }
    assert(replay(l, d, f.state.history) =~= f.state);
}

proof fn lemma_replay_wholly_replayable(l: LayoutModel, c: Comp, units: Seq<Unit>)
    requires
        l.automata.is_empty(),
        spelled_layout(l),
        wholly_replayable(l, c),
        spelled_state(c),
        spelled_units(units),
    ensures
        wholly_replayable(l, replay(l, c, units)),
    decreases units.len(),
{
    if units.len() > 0 {
        lemma_replay_wholly_replayable(l, c, units.drop_last());
        lemma_spelled_replay(l, c, units.drop_last());
        lemma_feed_wholly_replayable(l, replay(l, c, units.drop_last()), units.last());
    }
}

proof fn lemma_streak_wholly_replayable(l: LayoutModel, c: Comp, s: Option<BkspUnit>)
    requires
        wholly_replayable(l, c),
    ensures
        wholly_replayable(l, Comp { streak: s, ..c }),
{
    replaying_ignores_streak(l, cleared(l, c), s, c.history);
    assert(cleared(l, Comp { streak: s, ..c }) =~= (Comp { streak: s, ..cleared(l, c) }));
}

/// What is remembered of committed syllables stays within its limit, in every state.
pub proof fn reached_memory_is_bounded(l: LayoutModel, inputs: Seq<Input>)
    ensures
        sound(reached(l, inputs)),
    decreases inputs.len(),
{
    if inputs.len() > 0 {
        let c = reached(l, inputs.drop_last());
        reached_memory_is_bounded(l, inputs.drop_last());
        match inputs.last() {
            Input::Press(ascii, caps) => memory_stays_bounded(l, c, ascii, caps),
            _ => memory_stays_bounded(l, c, 0, false),
        }
    }
}

/// Without an automaton, and with a layout whose letters are characters, composing the units of
/// the history anew gives the whole state as it is, in every state.
pub proof fn reached_states_are_wholly_replayable(l: LayoutModel, inputs: Seq<Input>)
    requires
        l.automata.is_empty(),
        spelled_layout(l),
    ensures
        wholly_replayable(l, reached(l, inputs)),
    decreases inputs.len(),
{
    let c = reached(l, inputs);
    reached_states_are_replayable(l, inputs);
    if inputs.len() == 0 {
        assert(cleared(l, c) =~= c);
    } else {
        let b = reached(l, inputs.drop_last());
        reached_states_are_wholly_replayable(l, inputs.drop_last());
        reached_states_are_spelled(l, inputs.drop_last());
        match inputs.last() {
            Input::Press(ascii, caps) => {
                let d = Comp { streak: None, ..b };
                lemma_streak_wholly_replayable(l, b, None);
                match fed_by(l, d, ascii, caps) {
                    Some(u) => lemma_feed_wholly_replayable(l, d, u),
                    None => assert(cleared(l, c) =~= c),
                }
            },
            Input::Backspace => {
                if revives(l, b) {
                    let rest = Comp { prev: b.prev.drop_last(), ..b };
                    lemma_spelled_replay(l, cleared(l, rest), b.prev.last());
                    let r = revived(l, b);
                    lemma_spelled_shortened(l, r, l.bksp.composing);
                    lemma_replay_wholly_replayable(
                        l,
                        cleared(l, r),
                        shortened(l, r, l.bksp.composing),
                    );
                } else if is_blank(b.cur) {
                    reached_memory_is_bounded(l, inputs.drop_last());
                    lemma_streak_wholly_replayable(l, b, None);
                } else {
                    let unit = bksp_unit(l, b);
                    let e = Comp { streak: Some(unit), ..b };
                    lemma_spelled_shortened(l, e, unit);
                    lemma_replay_wholly_replayable(l, cleared(l, e), shortened(l, e, unit));
                }
            },
            _ => assert(cleared(l, c) =~= c),
        }
    }
}

/// Without an automaton, and with a layout whose letters are characters, deleting the last key
/// press undoes it: after a key that fed a unit and committed nothing, the whole state is again
/// what it was, but for how much the deleting key goes on taking away.
pub proof fn deleting_restores_the_state(l: LayoutModel, inputs: Seq<Input>, ascii: u8, caps: bool)
    requires
        l.automata.is_empty(),
        spelled_layout(l),
        l.bksp.composing == BkspUnit::LastKey,
        fed_by(l, reached(l, inputs), ascii, caps) is Some,
        press(l, reached(l, inputs), ascii, caps).outcome.commit.len() == 0,
        !is_blank(press(l, reached(l, inputs), ascii, caps).state.cur),
    ensures
        backspace(l, press(l, reached(l, inputs), ascii, caps).state).state == (Comp {
            streak: Some(BkspUnit::LastKey),
            ..reached(l, inputs)
        }),
{
    let c = reached(l, inputs);
    let d = Comp { streak: None, ..c };
    let u = fed_by(l, c, ascii, caps)->0;
    let p = press(l, c, ascii, caps).state;
    reached_states_are_replayable(l, inputs);
    reached_states_are_wholly_replayable(l, inputs);
    reached_states_are_spelled(l, inputs);
    lemma_streak_wholly_replayable(l, c, None);
    lemma_feed_wholly_replayable(l, d, u);
    assert(joins(l, c, u));
    deleting_undoes_a_key(l, c, ascii, caps);
    press_ends_a_run_of_deleting(l, c, ascii, caps);
    deleting_goes_on_as_it_began(l, p);
}

} // verus!
