//! What holds of composing as a whole.

use vstd::prelude::*;

use super::model::{
    automaton_ctx, backspace, bksp_unit, cleared, code, committed, conjoining, feed, initial,
    is_automatic, is_blank, jamo_of, key_ctx, letter_ctx, no_syllable, press, remembered, replaces,
    replay, revived, revives, shortened, shown, undone, with_slot, without_last, Code, Comp,
    Syllable, MAX_PREV_SYLLABLES,
};
use crate::config::{combined, lookup, standalone_of, BkspUnit, LayoutModel};
use crate::expr::{evaluate, Evaluated, Value};
use crate::jamo::syllable_of;
use crate::unit::{Category, Jamo, Unit, TOGGLE};

verus! {

// ── what is shown ──────────────────────────────────────────────────────────────

/// Nothing is shown where nothing is being composed.
pub proof fn nothing_composed_shows_nothing(l: LayoutModel)
    ensures
        shown(l, no_syllable()) == Seq::<char>::empty(),
{
    assert(shown(l, no_syllable()) =~= Seq::<char>::empty());
}

/// A syllable of modern letters is written as its one precomposed character.
pub proof fn modern_syllables_are_precomposed(l: LayoutModel, s: Syllable)
    requires
        s.cho is Some,
        s.jung is Some,
        syllable_of(s.cho->0, s.jung->0, s.jong) is Some,
    ensures
        shown(l, s) == seq![syllable_of(s.cho->0, s.jung->0, s.jong)->0],
{
}

/// A syllable with a letter that is not modern is written as its conjoining letters, one after
/// the other.
pub proof fn old_syllables_are_conjoining(l: LayoutModel, s: Syllable)
    requires
        s.cho is Some,
        s.jung is Some,
        syllable_of(s.cho->0, s.jung->0, s.jong) is None,
    ensures
        shown(l, s) == conjoining(s.cho) + conjoining(s.jung) + conjoining(s.jong),
{
}

/// A letter on its own is written as the settings say, else as its compatibility letter.
pub proof fn lone_letters_follow_the_table(l: LayoutModel, j: Jamo)
    ensures
        standalone_of(l, j) matches Some(c) ==> shown(
            l,
            with_slot(no_syllable(), j.category, j.cp),
        ) == seq![c],
{
    if let Some(c) = standalone_of(l, j) {
        assert(shown(l, with_slot(no_syllable(), j.category, j.cp)) =~= seq![c]);
    }
}

/// A syllable is written with at most three characters.
pub proof fn syllables_are_short(l: LayoutModel, s: Syllable)
    ensures
        shown(l, s).len() <= 3,
{
}

/// After any key the text shown as being composed is the syllable of the state.
pub proof fn preedit_shows_the_syllable(l: LayoutModel, c: Comp, ascii: u8, caps: bool)
    ensures
        press(l, c, ascii, caps).outcome.preedit == shown(l, press(l, c, ascii, caps).state.cur),
        backspace(l, c).outcome.preedit == shown(l, backspace(l, c).state.cur),
{
    nothing_composed_shows_nothing(l);
    if is_blank(c.cur) {
        assert(c.cur == no_syllable());
    }
}

/// A key is left to the application only where nothing is being composed any more.
pub proof fn keys_pass_only_when_idle(l: LayoutModel, c: Comp, ascii: u8, caps: bool)
    ensures
        !press(l, c, ascii, caps).outcome.consumed ==> is_blank(
            press(l, c, ascii, caps).state.cur,
        ),
        !backspace(l, c).outcome.consumed ==> is_blank(backspace(l, c).state.cur)
            && backspace(l, c).outcome.commit.len() == 0,
{
}

// ── what feeding leaves alone ──────────────────────────────────────────────────

/// Feeding neither looks at nor changes how much the deleting key takes away.
proof fn lemma_feed_ignores_streak(l: LayoutModel, c: Comp, s: Option<BkspUnit>, u: Unit)
    ensures
        feed(l, Comp { streak: s, ..c }, u).state == (Comp { streak: s, ..feed(l, c, u).state }),
        feed(l, Comp { streak: s, ..c }, u).out == feed(l, c, u).out,
        feed(l, c, u).state.streak == c.streak,
{
}

/// Composing units anew neither looks at nor changes how much the deleting key takes away.
pub proof fn replaying_ignores_streak(
    l: LayoutModel,
    c: Comp,
    s: Option<BkspUnit>,
    units: Seq<Unit>,
)
    ensures
        replay(l, Comp { streak: s, ..c }, units) == (Comp { streak: s, ..replay(l, c, units) }),
        replay(l, c, units).streak == c.streak,
    decreases units.len(),
{
    if units.len() > 0 {
        replaying_ignores_streak(l, c, s, units.drop_last());
        lemma_feed_ignores_streak(l, replay(l, c, units.drop_last()), s, units.last());
    }
}

/// A key press ends a run of the deleting key: what one press of it takes away is decided anew.
pub proof fn press_ends_a_run_of_deleting(l: LayoutModel, c: Comp, ascii: u8, caps: bool)
    ensures
        press(l, c, ascii, caps).state.streak is None,
{
    let c = Comp { streak: None, ..c };
    if let Some(e) = lookup(l.keys, ascii as u32) {
        if let Evaluated::Gives(Value::Unit(u)) = evaluate(e, key_ctx(c.cur, caps)) {
            lemma_feed_ignores_streak(l, c, None, u);
        }
    }
}

/// While the deleting key is pressed again and again, it goes on taking away as much as it took
/// away at first.
pub proof fn deleting_goes_on_as_it_began(l: LayoutModel, c: Comp)
    requires
        !is_blank(c.cur),
    ensures
        backspace(l, c).state.streak == Some(bksp_unit(l, c)),
        bksp_unit(l, backspace(l, c).state) == bksp_unit(l, c),
{
    let unit = bksp_unit(l, c);
    let d = Comp { streak: Some(unit), ..c };
    replaying_ignores_streak(l, cleared(l, d), None, shortened(l, d, unit));
}

/// Feeding a unit commits either nothing or the syllable that was being composed.
pub proof fn feeding_commits_the_syllable(l: LayoutModel, c: Comp, u: Unit)
    ensures
        feed(l, c, u).out.len() == 0 || feed(l, c, u).out == shown(l, c.cur),
{
}

// ── what is remembered ─────────────────────────────────────────────────────────

/// Of the committed syllables no more than the limit are remembered, each with its units.
pub open spec fn sound(c: Comp) -> bool {
    &&& c.prev.len() <= MAX_PREV_SYLLABLES
    &&& forall|i: int| 0 <= i < c.prev.len() ==> (#[trigger] c.prev[i]).len() > 0
}

proof fn lemma_committed_sound(l: LayoutModel, c: Comp)
    requires
        sound(c),
    ensures
        sound(committed(l, c).state),
{
    if !is_blank(c.cur) && c.history.len() > 0 {
        let all = c.prev.push(c.history);
        let kept = remembered(c.prev, c.history);
        assert forall|i: int| 0 <= i < kept.len() implies (#[trigger] kept[i]).len() > 0 by {
            if all.len() > MAX_PREV_SYLLABLES {
                assert(kept[i] == all[i + 1]);
            }
        }
    }
}

proof fn lemma_feed_sound(l: LayoutModel, c: Comp, u: Unit)
    requires
        sound(c),
    ensures
        sound(feed(l, c, u).state),
{
    lemma_committed_sound(l, c);
}

proof fn lemma_replay_sound(l: LayoutModel, c: Comp, units: Seq<Unit>)
    requires
        sound(c),
    ensures
        sound(replay(l, c, units)),
    decreases units.len(),
{
    if units.len() > 0 {
        lemma_replay_sound(l, c, units.drop_last());
        lemma_feed_sound(l, replay(l, c, units.drop_last()), units.last());
    }
}

/// What is remembered stays within its limit, from the start and over every key.
pub proof fn memory_stays_bounded(l: LayoutModel, c: Comp, ascii: u8, caps: bool)
    requires
        sound(c),
    ensures
        sound(initial(l)),
        sound(press(l, c, ascii, caps).state),
        sound(backspace(l, c).state),
{
    let d = Comp { streak: None, ..c };
    if let Some(e) = lookup(l.keys, ascii as u32) {
        if let Evaluated::Gives(Value::Unit(u)) = evaluate(e, key_ctx(d.cur, caps)) {
            lemma_feed_sound(l, d, u);
        }
    }
    if revives(l, c) {
        let shorter = Comp { prev: c.prev.drop_last(), ..c };
        lemma_replay_sound(l, cleared(l, shorter), c.prev.last());
        let r = revived(l, c);
        lemma_replay_sound(l, cleared(l, r), shortened(l, r, l.bksp.composing));
    } else if !is_blank(c.cur) {
        let unit = bksp_unit(l, c);
        let e = Comp { streak: Some(unit), ..c };
        lemma_replay_sound(l, cleared(l, e), shortened(l, e, unit));
    }
}

// ── starting afresh ────────────────────────────────────────────────────────────

/// After a fresh start, as by flushing or resetting, the deleting key is left to the application:
/// nothing is taken up again, and nothing is deleted.
pub proof fn fresh_start_forgets(l: LayoutModel)
    ensures
        !backspace(l, initial(l)).outcome.consumed,
        backspace(l, initial(l)).outcome.commit.len() == 0,
        backspace(l, initial(l)).outcome.preedit.len() == 0,
        backspace(l, initial(l)).outcome.delete_before == 0,
        backspace(l, initial(l)).state == initial(l),
{
}

/// A key that is not in the layout is left to the application while nothing is shown. Else the
/// syllable and the key's own character are committed together, and the key is used up.
pub proof fn unknown_keys_close_off(l: LayoutModel, c: Comp, ascii: u8, caps: bool)
    requires
        !l.keys.contains_key(ascii as u32),
    ensures
        ({
            let o = press(l, c, ascii, caps).outcome;
            let text = shown(l, c.cur);
            if text.len() == 0 {
                !o.consumed && o.commit.len() == 0
            } else {
                o.consumed && o.commit == text.push(ascii as char)
            }
        }),
{
}

/// A key that gives no unit ends a run of Hangul: afterwards the deleting key is left to the
/// application, and takes up nothing again.
pub proof fn text_ends_a_run_of_hangul(l: LayoutModel, c: Comp, ascii: u8, caps: bool)
    requires
        lookup(l.keys, ascii as u32) matches Some(e) ==> !(evaluate(e, key_ctx(c.cur, caps)) matches
            Evaluated::Gives(Value::Unit(_))),
    ensures
        ({
            let o = backspace(l, press(l, c, ascii, caps).state).outcome;
            !o.consumed && o.delete_before == 0 && o.preedit.len() == 0 && o.commit.len() == 0
        }),
{
}

// ── composing by the built-in rules ────────────────────────────────────────────

/// Without an automaton, an initial that follows a vowel or a final commits the syllable and
/// starts the next one.
pub proof fn new_initial_commits(l: LayoutModel, c: Comp, cp: u32)
    requires
        l.automata.is_empty(),
        c.cur.jung is Some || c.cur.jong is Some,
    ensures
        ({
            let f = feed(l, c, Unit::Jamo(Jamo { category: Category::Cho, cp }));
            f.out == shown(l, c.cur) && f.state.cur == with_slot(no_syllable(), Category::Cho, cp)
        }),
{
}

/// The toggle commits nothing and changes at most the initial. Where the table takes it back and
/// forth, toggling twice changes nothing.
pub proof fn toggle_goes_back_and_forth(l: LayoutModel, c: Comp)
    ensures
        ({
            let f = feed(l, c, Unit::Toggle);
            let g = feed(l, f.state, Unit::Toggle);
            &&& f.out.len() == 0
            &&& f.state.cur.jung == c.cur.jung
            &&& f.state.cur.jong == c.cur.jong
            &&& (c.cur.cho matches Some(a) && combined(l, Category::Cho, a, TOGGLE) matches Some(b)
                && combined(l, Category::Cho, b, TOGGLE) == Some(a)) ==> g.state.cur == c.cur
        }),
{
}

// ── composing by the automaton ─────────────────────────────────────────────────

/// The automaton goes on with the syllable for a positive code and for -2, and for -1 it ignores
/// the letter: none of them commits. Any other code commits the syllable and starts a new one.
pub proof fn codes_say_when_to_commit(l: LayoutModel, c: Comp, u: Unit)
    requires
        is_automatic(l, u),
        code(l, c, jamo_of(l, u)->0) is Go,
    ensures
        ({
            let n = code(l, c, jamo_of(l, u)->0)->Go_0;
            let j = jamo_of(l, u)->0;
            let f = feed(l, c, u);
            &&& (n > 0 || n == -2) ==> f.out.len() == 0 && f.state.prev == c.prev
            &&& n == -1 ==> f.out.len() == 0 && f.state == c
            &&& (n == 0 || n < -2) ==> f.out == shown(l, c.cur) && f.state.cur == with_slot(
                no_syllable(),
                j.category,
                j.cp,
            ) && f.state.history == seq![Unit::Jamo(j)]
        }),
{
}

// ── deleting ───────────────────────────────────────────────────────────────────

/// The deleting key commits nothing. It asks for one committed character to be deleted exactly
/// where it takes a syllable up again, and it is used up exactly there and while a syllable is
/// being composed.
pub proof fn deleting_commits_nothing(l: LayoutModel, c: Comp)
    ensures
        backspace(l, c).outcome.commit.len() == 0,
        backspace(l, c).outcome.delete_before == (if revives(l, c) {
            1int
        } else {
            0
        }),
        backspace(l, c).outcome.consumed == (revives(l, c) || !is_blank(c.cur)),
{
}

/// Without leave to take up committed syllables, the deleting key is left to the application
/// where nothing is being composed.
pub proof fn without_attaching_deleting_passes(l: LayoutModel, c: Comp)
    requires
        !l.bksp.attach,
        is_blank(c.cur),
    ensures
        !backspace(l, c).outcome.consumed,
        backspace(l, c).outcome.delete_before == 0,
        backspace(l, c).state == (Comp { streak: None, ..c }),
{
}

/// Deleting by the syllable leaves nothing of it.
pub proof fn deleting_by_syllable_clears(l: LayoutModel, c: Comp)
    requires
        !is_blank(c.cur),
        bksp_unit(l, c) == BkspUnit::Syllable,
    ensures
        is_blank(backspace(l, c).state.cur),
        backspace(l, c).outcome.preedit.len() == 0,
{
    nothing_composed_shows_nothing(l);
}

/// Whether two states compose the same syllable out of the same units. What was committed before,
/// and how much the deleting key takes away, may differ.
pub open spec fn alike(c: Comp, d: Comp) -> bool {
    &&& c.cur == d.cur
    &&& c.history == d.history
    &&& c.auto_state == d.auto_state
}

/// States that are alike stay alike and commit the same text, whatever is fed.
pub proof fn feeding_keeps_alike(l: LayoutModel, c: Comp, d: Comp, u: Unit)
    requires
        alike(c, d),
    ensures
        alike(feed(l, c, u).state, feed(l, d, u).state),
        feed(l, c, u).out == feed(l, d, u).out,
{
}

/// States that are alike stay alike over any units.
pub proof fn replaying_keeps_alike(l: LayoutModel, c: Comp, d: Comp, units: Seq<Unit>)
    requires
        alike(c, d),
    ensures
        alike(replay(l, c, units), replay(l, d, units)),
    decreases units.len(),
{
    if units.len() > 0 {
        replaying_keeps_alike(l, c, d, units.drop_last());
        feeding_keeps_alike(
            l,
            replay(l, c, units.drop_last()),
            replay(l, d, units.drop_last()),
            units.last(),
        );
    }
}

/// Whether composing the units of the history anew gives the syllable as it is.
pub open spec fn replayable(l: LayoutModel, c: Comp) -> bool {
    alike(replay(l, cleared(l, c), c.history), c)
}

/// The unit that the history notes for a unit: a letter that the automaton places stands there as
/// itself, also where a virtual unit gave it.
pub open spec fn entered(l: LayoutModel, u: Unit) -> Unit {
    if is_automatic(l, u) {
        Unit::Jamo(jamo_of(l, u)->0)
    } else {
        u
    }
}

/// Whether feeding the unit adds it to the units of the syllable.
pub open spec fn joins(l: LayoutModel, c: Comp, u: Unit) -> bool {
    feed(l, c, u).state.history == c.history.push(entered(l, u))
}

/// Composing starts in a state that its history gives.
pub proof fn initial_is_replayable(l: LayoutModel)
    ensures
        replayable(l, initial(l)),
{
}

/// A unit that joins the syllable leads from a state that its history gives to another one.
pub proof fn joining_stays_replayable(l: LayoutModel, c: Comp, u: Unit)
    requires
        replayable(l, c),
        joins(l, c, u),
    ensures
        replayable(l, feed(l, c, u).state),
{
    let d = feed(l, c, u).state;
    let v = entered(l, u);
    assert(feed(l, c, v) == feed(l, c, u));
    assert(d.history.drop_last() =~= c.history);
    assert(d.history.last() == v);
    replaying_keeps_alike(l, cleared(l, d), cleared(l, c), c.history);
    feeding_keeps_alike(l, replay(l, cleared(l, d), c.history), c, v);
}

proof fn lemma_rules_keep_the_automaton(l: LayoutModel, c: Comp, units: Seq<Unit>)
    requires
        l.automata.is_empty(),
    ensures
        replay(l, c, units).auto_state == c.auto_state,
    decreases units.len(),
{
    if units.len() > 0 {
        lemma_rules_keep_the_automaton(l, c, units.drop_last());
    }
}

/// Without an automaton every unit leads from a state that its history gives to another one.
pub proof fn rules_stay_replayable(l: LayoutModel, c: Comp, u: Unit)
    requires
        l.automata.is_empty(),
        replayable(l, c),
    ensures
        replayable(l, feed(l, c, u).state),
{
    let f = feed(l, c, u);
    if f.out.len() == 0 {
        joining_stays_replayable(l, c, u);
    } else {
        lemma_rules_keep_the_automaton(l, cleared(l, c), c.history);
        nothing_composed_shows_nothing(l);
        lemma_starting_replays(l, f.state, u);
    }
}

/// What a unit gives that starts a syllable, composed anew.
proof fn lemma_starting_replays(l: LayoutModel, c: Comp, u: Unit)
    requires
        c.history == seq![u],
    ensures
        replay(l, cleared(l, c), c.history) == feed(l, cleared(l, c), u).state,
{
    assert(c.history.drop_last() =~= Seq::<Unit>::empty());
    assert(replay(l, cleared(l, c), c.history.drop_last()) == cleared(l, c));
}

/// Whether the automaton begins a syllable with the letter: in its starting state the first
/// expression gives an integer, and not the one that ignores the letter.
pub open spec fn begins(l: LayoutModel, j: Jamo) -> bool {
    lookup(l.automata, l.automata_start) matches Some(st) && (evaluate(st.value, letter_ctx(j))
        matches Evaluated::Gives(Value::Int(n)) && n != -1)
}

/// With an automaton, a letter that it ignores, that joins the syllable without replacing another
/// one, or with which it begins a syllable leads from a state that its history gives to another
/// one.
pub proof fn automaton_stays_replayable(l: LayoutModel, c: Comp, u: Unit)
    requires
        replayable(l, c),
        is_automatic(l, u),
        code(l, c, jamo_of(l, u)->0) matches Code::Go(n) && (if n > 0 || n == -2 {
            !replaces(l, c.cur, jamo_of(l, u)->0)
        } else {
            n == -1 || begins(l, jamo_of(l, u)->0)
        }),
    ensures
        replayable(l, feed(l, c, u).state),
{
    let j = jamo_of(l, u)->0;
    let n = code(l, c, j)->Go_0;
    let f = feed(l, c, u);
    if n > 0 || n == -2 {
        joining_stays_replayable(l, c, u);
    } else if n != -1 {
        let v = Unit::Jamo(j);
        let d = cleared(l, f.state);
        lemma_starting_replays(l, f.state, v);
        assert(automaton_ctx(d.cur, j) == letter_ctx(j));
        assert(d.history.push(v) =~= seq![v]);
    }
}

proof fn lemma_replay_stays_replayable(l: LayoutModel, c: Comp, units: Seq<Unit>)
    requires
        l.automata.is_empty(),
        replayable(l, c),
    ensures
        replayable(l, replay(l, c, units)),
    decreases units.len(),
{
    if units.len() > 0 {
        lemma_replay_stays_replayable(l, c, units.drop_last());
        rules_stay_replayable(l, replay(l, c, units.drop_last()), units.last());
    }
}

proof fn lemma_alike_replayable(l: LayoutModel, c: Comp, d: Comp)
    requires
        alike(c, d),
        replayable(l, c),
    ensures
        replayable(l, d),
{
    replaying_keeps_alike(l, cleared(l, c), cleared(l, d), c.history);
}

/// The unit that a key feeds, if it feeds one.
pub open spec fn fed_by(l: LayoutModel, c: Comp, ascii: u8, caps: bool) -> Option<Unit> {
    match lookup(l.keys, ascii as u32) {
        Some(e) => match evaluate(e, key_ctx(c.cur, caps)) {
            Evaluated::Gives(Value::Unit(u)) => Some(u),
            _ => None,
        },
        None => None,
    }
}

/// Without an automaton every key leads from a state that its history gives to another one.
pub proof fn keys_stay_replayable(l: LayoutModel, c: Comp, ascii: u8, caps: bool)
    requires
        l.automata.is_empty(),
        replayable(l, c),
    ensures
        replayable(l, press(l, c, ascii, caps).state),
{
    let d = Comp { streak: None, ..c };
    lemma_alike_replayable(l, c, d);
    match fed_by(l, d, ascii, caps) {
        Some(u) => rules_stay_replayable(l, d, u),
        None => lemma_rules_keep_the_automaton(l, cleared(l, d), d.history),
    }
}

/// Without an automaton the deleting key leads from a state that its history gives to another
/// one, also where it takes up a committed syllable again.
pub proof fn deleting_stays_replayable(l: LayoutModel, c: Comp)
    requires
        l.automata.is_empty(),
        replayable(l, c),
    ensures
        replayable(l, backspace(l, c).state),
{
    if revives(l, c) {
        let r = revived(l, c);
        lemma_replay_stays_replayable(l, cleared(l, r), shortened(l, r, l.bksp.composing));
    } else if is_blank(c.cur) {
        lemma_alike_replayable(l, c, backspace(l, c).state);
    } else {
        let unit = bksp_unit(l, c);
        let e = Comp { streak: Some(unit), ..c };
        lemma_replay_stays_replayable(l, cleared(l, e), shortened(l, e, unit));
    }
}

/// Deleting the last key press undoes it: where a unit joined the syllable, the syllable and its
/// units are again what they were before, and so is what is shown. So is what is remembered,
/// where composing commits nothing on the way.
pub proof fn deleting_undoes_the_last_unit(l: LayoutModel, c: Comp, u: Unit)
    requires
        replayable(l, c),
        joins(l, c, u),
        !is_blank(feed(l, c, u).state.cur),
        bksp_unit(l, feed(l, c, u).state) == BkspUnit::LastKey,
    ensures
        alike(backspace(l, feed(l, c, u).state).state, c),
        backspace(l, feed(l, c, u).state).outcome.preedit == shown(l, c.cur),
        feed(l, c, u).state.prev == c.prev && replay(l, cleared(l, c), c.history).prev == c.prev
            ==> backspace(l, feed(l, c, u).state).state.prev == c.prev,
{
    assert(feed(l, c, u).state.history.drop_last() =~= c.history);
    lemma_deleting_goes_back(l, c, feed(l, c, u).state);
}

/// Deleting the last of the units leads back to a state that has the others.
proof fn lemma_deleting_goes_back(l: LayoutModel, c: Comp, d: Comp)
    requires
        replayable(l, c),
        d.history.len() > 0,
        d.history.drop_last() == c.history,
        !is_blank(d.cur),
        bksp_unit(l, d) == BkspUnit::LastKey,
    ensures
        alike(backspace(l, d).state, c),
        backspace(l, d).outcome.preedit == shown(l, c.cur),
        backspace(l, d).state.streak == Some(BkspUnit::LastKey),
        d.prev == c.prev && replay(l, cleared(l, c), c.history).prev == c.prev ==> backspace(
            l,
            d,
        ).state.prev == c.prev,
{
    let s = Some(BkspUnit::LastKey);
    let e = Comp { streak: s, ..d };
    assert(shortened(l, e, BkspUnit::LastKey) == c.history);
    replaying_keeps_alike(l, cleared(l, e), cleared(l, c), c.history);
    replaying_ignores_streak(l, cleared(l, c), s, c.history);
    replaying_ignores_streak(l, cleared(l, e), s, c.history);
    if d.prev == c.prev {
        assert(cleared(l, e) =~= (Comp { streak: s, ..cleared(l, c) }));
    }
}

/// Deleting the last key press undoes a key that gave a unit which joined the syllable.
pub proof fn deleting_undoes_a_key(l: LayoutModel, c: Comp, ascii: u8, caps: bool)
    requires
        replayable(l, c),
        fed_by(l, c, ascii, caps) matches Some(u) && joins(l, c, u),
        !is_blank(press(l, c, ascii, caps).state.cur),
        l.bksp.composing == BkspUnit::LastKey,
    ensures
        alike(backspace(l, press(l, c, ascii, caps).state).state, c),
        backspace(l, press(l, c, ascii, caps).state).outcome.preedit == shown(l, c.cur),
        press(l, c, ascii, caps).state.prev == c.prev && replay(l, cleared(l, c), c.history).prev
            == c.prev ==> backspace(l, press(l, c, ascii, caps).state).state.prev == c.prev,
{
    let u = fed_by(l, c, ascii, caps)->0;
    let p = press(l, c, ascii, caps).state;
    press_ends_a_run_of_deleting(l, c, ascii, caps);
    feeding_keeps_alike(l, c, Comp { streak: None, ..c }, u);
    assert(p.history.drop_last() =~= c.history);
    lemma_deleting_goes_back(l, c, p);
}

/// Whether the units, fed one after the other, all join the syllable, and none of them commits.
pub open spec fn all_join(l: LayoutModel, c: Comp, units: Seq<Unit>) -> bool
    decreases units.len(),
{
    units.len() > 0 ==> {
        let before = replay(l, c, units.drop_last());
        let after = replay(l, c, units);
        &&& all_join(l, c, units.drop_last())
        &&& joins(l, before, units.last())
        &&& after.prev == before.prev
        &&& !is_blank(after.cur)
    }
}

/// The state after pressing the deleting key the given number of times.
pub open spec fn deleted(l: LayoutModel, c: Comp, times: nat) -> Comp
    decreases times,
{
    if times == 0 {
        c
    } else {
        deleted(l, backspace(l, c).state, (times - 1) as nat)
    }
}

proof fn lemma_joining_all_stays_replayable(l: LayoutModel, c: Comp, units: Seq<Unit>)
    requires
        replayable(l, c),
        all_join(l, c, units),
    ensures
        replayable(l, replay(l, c, units)),
        replay(l, c, units).prev == c.prev,
        replay(l, cleared(l, c), c.history).prev == c.prev ==> {
            let d = replay(l, c, units);
            replay(l, cleared(l, d), d.history).prev == d.prev
        },
    decreases units.len(),
{
    if units.len() > 0 {
        let before = replay(l, c, units.drop_last());
        let u = units.last();
        let d = replay(l, c, units);
        lemma_joining_all_stays_replayable(l, c, units.drop_last());
        joining_stays_replayable(l, before, u);
        if replay(l, cleared(l, c), c.history).prev == c.prev {
            let v = entered(l, u);
            let again = replay(l, cleared(l, before), before.history);
            assert(feed(l, before, v) == feed(l, before, u));
            replaying_ignores_streak(l, cleared(l, before), before.streak, before.history);
            assert(again =~= before);
            lemma_feed_ignores_streak(l, before, before.streak, u);
            assert(cleared(l, d) =~= cleared(l, before));
            assert(d.history.drop_last() =~= before.history);
            assert(d.history.last() == v);
        }
    }
}

/// Deleting key press by key press undoes units one by one: after as many presses as units
/// joined the syllable, it is again what it was before them. So is what is remembered, where
/// composing the syllable anew commits nothing on the way.
pub proof fn deleting_undoes_unit_by_unit(l: LayoutModel, c: Comp, units: Seq<Unit>)
    requires
        replayable(l, c),
        all_join(l, c, units),
        bksp_unit(l, c) == BkspUnit::LastKey,
    ensures
        alike(deleted(l, replay(l, c, units), units.len()), c),
        replay(l, cleared(l, c), c.history).prev == c.prev ==> deleted(
            l,
            replay(l, c, units),
            units.len(),
        ).prev == c.prev,
{
    replaying_ignores_streak(l, c, c.streak, units);
    lemma_joining_all_stays_replayable(l, c, units);
    lemma_deleting_all_goes_back(l, c, units, replay(l, c, units));
}

proof fn lemma_deleting_all_goes_back(l: LayoutModel, c: Comp, units: Seq<Unit>, d: Comp)
    requires
        replayable(l, c),
        all_join(l, c, units),
        alike(d, replay(l, c, units)),
        bksp_unit(l, d) == BkspUnit::LastKey,
    ensures
        alike(deleted(l, d, units.len()), c),
        replay(l, cleared(l, c), c.history).prev == c.prev && d.prev == c.prev ==> deleted(
            l,
            d,
            units.len(),
        ).prev == c.prev,
    decreases units.len(),
{
    if units.len() > 0 {
        let before = replay(l, c, units.drop_last());
        lemma_joining_all_stays_replayable(l, c, units.drop_last());
        assert(d.history.drop_last() =~= before.history);
        lemma_deleting_goes_back(l, before, d);
        lemma_deleting_all_goes_back(l, c, units.drop_last(), backspace(l, d).state);
    }
}

/// Deleting the last key press after a letter that replaced another one does not bring the other
/// one back: the rest of the units is composed without either.
pub proof fn replaced_letters_stay_away(l: LayoutModel, c: Comp, u: Unit)
    requires
        is_automatic(l, u),
        code(l, c, jamo_of(l, u)->0) matches Code::Go(n) && (n > 0 || n == -2),
        replaces(l, c.cur, jamo_of(l, u)->0),
        bksp_unit(l, feed(l, c, u).state) == BkspUnit::LastKey,
    ensures
        backspace(l, feed(l, c, u).state).state == replay(
            l,
            cleared(l, Comp { streak: Some(BkspUnit::LastKey), ..c }),
            without_last(l, c.history, jamo_of(l, u)->0.category),
        ),
{
    let d = feed(l, c, u).state;
    let e = Comp { streak: Some(BkspUnit::LastKey), ..d };
    let rest = without_last(l, c.history, jamo_of(l, u)->0.category);
    assert(shortened(l, e, BkspUnit::LastKey) =~= rest);
    assert(cleared(l, e) =~= cleared(l, Comp { streak: Some(BkspUnit::LastKey), ..c }));
}

/// A syllable that was committed comes back where the deleting key may take it up again: it is
/// composed from the units that made it up, and then shortened as one press of the deleting key
/// shortens a syllable. Where they give the syllable as it was, that is what comes back.
pub proof fn committed_syllables_come_back(l: LayoutModel, c: Comp)
    requires
        l.bksp.attach,
        !is_blank(c.cur),
        c.history.len() > 0,
    ensures
        ({
            let d = committed(l, c).state;
            let rest = Comp { prev: d.prev.drop_last(), ..d };
            &&& revives(l, d)
            &&& revived(l, d) == (Comp {
                streak: Some(l.bksp.composing),
                ..replay(l, cleared(l, rest), c.history)
            })
            &&& replayable(l, c) ==> alike(revived(l, d), c)
            &&& backspace(l, d).state == undone(l, revived(l, d), l.bksp.composing)
            &&& backspace(l, d).outcome.delete_before == 1
        }),
{
    let d = committed(l, c).state;
    let rest = Comp { prev: d.prev.drop_last(), ..d };
    assert(d.prev.last() == c.history);
    replaying_keeps_alike(l, cleared(l, c), cleared(l, rest), c.history);
}

} // verus!
