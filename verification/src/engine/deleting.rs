//! What the deleting key does.

use vstd::prelude::*;

use super::automaton::{at_place, belongs, dropping_the_last_of_a_place, is_last_of};
use super::laws::replaying_ignores_streak;
use super::model::{
    backspace, backspace_defined, bksp_unit, cleared, feed, feed_defined, replay, replay_defined,
    revived, revives, shortened, shown, without_any, Comp, Syllable,
};
use super::rules::syllable;
use crate::config::{BkspUnit, LayoutModel};
use crate::unit::{Category, Unit};

verus! {

// ── composing anew ─────────────────────────────────────────────────────────────

/// Composing units anew is feeding them one after the other, and forgetting what that commits.
pub proof fn composing_anew_is_feeding(l: LayoutModel, c: Comp, units: Seq<Unit>, u: Unit)
    ensures
        replay(l, c, Seq::empty()) == c,
        replay(l, c, seq![u]) == feed(l, c, u).state,
        replay(l, c, units.push(u)) == feed(l, replay(l, c, units), u).state,
{
    assert(seq![u].drop_last() =~= Seq::<Unit>::empty());
    assert(replay(l, c, seq![u].drop_last()) == c);
    assert(units.push(u).drop_last() =~= units);
}

/// Composing units anew in two parts is composing them anew at once.
pub proof fn composing_anew_goes_on(l: LayoutModel, c: Comp, a: Seq<Unit>, b: Seq<Unit>)
    ensures
        replay(l, c, a + b) == replay(l, replay(l, c, a), b),
    decreases b.len(),
{
    if b.len() == 0 {
        assert(a + b =~= a);
    } else {
        composing_anew_goes_on(l, c, a, b.drop_last());
        assert((a + b).drop_last() =~= a + b.drop_last());
    }
}

/// The state in which nothing of a syllable is left, and which otherwise is `c`.
pub open spec fn emptied(l: LayoutModel, c: Comp, unit: BkspUnit) -> Comp {
    Comp {
        cur: syllable(None, None, None),
        history: Seq::empty(),
        auto_state: l.automata_start,
        streak: Some(unit),
        prev: c.prev,
    }
}

/// The key is used up, commits nothing, deletes nothing that was committed, and leads to the
/// syllable of the given units.
pub open spec fn leaves(l: LayoutModel, c: Comp, unit: BkspUnit, units: Seq<Unit>) -> bool {
    let b = backspace(l, c);
    &&& b.state == replay(l, emptied(l, c, unit), units)
    &&& b.outcome.preedit == shown(l, b.state.cur)
    &&& b.outcome.commit.len() == 0
    &&& b.outcome.consumed
    &&& b.outcome.delete_before == 0
}

/// Whether the key takes away by the unit: in a run of deleting by that of its first press, else
/// by what the settings say for a syllable that is being composed.
pub open spec fn takes_away_by(l: LayoutModel, c: Comp, unit: BkspUnit) -> bool {
    &&& !(c.cur == syllable(None, None, None))
    &&& c.streak == Some(unit) || (c.streak is None && l.bksp.composing == unit)
}

// ── how much goes ──────────────────────────────────────────────────────────────

/// Deleting by the last key takes away the latest unit, and leaves the others.
pub proof fn the_last_key_goes(l: LayoutModel, c: Comp, units: Seq<Unit>, u: Unit)
    requires
        takes_away_by(l, c, BkspUnit::LastKey),
        c.history == units.push(u),
    ensures
        leaves(l, c, BkspUnit::LastKey, units),
{
    assert(c.history.drop_last() =~= units);
}

/// Deleting by the syllable takes away every unit.
pub proof fn the_whole_syllable_goes(l: LayoutModel, c: Comp)
    requires
        takes_away_by(l, c, BkspUnit::Syllable),
    ensures
        leaves(l, c, BkspUnit::Syllable, Seq::empty()),
        backspace(l, c).state.cur == syllable(None, None, None),
        backspace(l, c).outcome.preedit.len() == 0,
{
    assert(shown(l, syllable(None, None, None)) =~= Seq::<char>::empty());
}

/// Whether the lowest letter of the syllable stands in the place: the final is lower than the
/// vowel, and the vowel than the initial.
pub open spec fn is_lowest(s: Syllable, cat: Category) -> bool {
    match cat {
        Category::Jong => s.jong is Some,
        Category::Jung => s.jung is Some && s.jong is None,
        Category::Cho => s.cho is Some && s.jung is None && s.jong is None,
    }
}

/// Deleting by the last key of the lowest letter takes away the last unit of its place, and leaves
/// the others in their order.
pub proof fn the_last_key_of_the_lowest_letter_goes(
    l: LayoutModel,
    c: Comp,
    cat: Category,
    i: int,
)
    requires
        takes_away_by(l, c, BkspUnit::LowestLastKey),
        is_lowest(c.cur, cat),
        is_last_of(l, c.history, cat, i),
    ensures
        leaves(l, c, BkspUnit::LowestLastKey, c.history.remove(i)),
{
    dropping_the_last_of_a_place(l, c.history, cat, i);
}

/// Deleting by the whole of the lowest letter takes away every unit of its place, however many
/// made it up, and leaves exactly the others, in their order. The place is empty afterwards.
pub proof fn the_whole_of_the_lowest_letter_goes(l: LayoutModel, c: Comp, cat: Category)
    requires
        takes_away_by(l, c, BkspUnit::LowestWhole),
        is_lowest(c.cur, cat),
    ensures
        leaves(l, c, BkspUnit::LowestWhole, c.history.filter(|u: Unit| !belongs(l, u, cat))),
        at_place(backspace(l, c).state.cur, cat) is None,
{
    lemma_without_any_filters(l, c.history, cat);
    let rest = c.history.filter(|u: Unit| !belongs(l, u, cat));
    assert forall|i: int| 0 <= i < rest.len() implies !belongs(l, #[trigger] rest[i], cat) by {
        c.history.lemma_filter_pred(|u: Unit| !belongs(l, u, cat), i);
    }
    lemma_absent_places_stay_empty(l, emptied(l, c, BkspUnit::LowestWhole), rest, cat);
}

proof fn lemma_without_any_filters(l: LayoutModel, h: Seq<Unit>, cat: Category)
    ensures
        without_any(l, h, cat) == h.filter(|u: Unit| !belongs(l, u, cat)),
    decreases h.len(),
{
    reveal(Seq::filter);
    if h.len() > 0 {
        lemma_without_any_filters(l, h.drop_last(), cat);
    }
}

proof fn lemma_absent_places_stay_empty(l: LayoutModel, c: Comp, units: Seq<Unit>, cat: Category)
    requires
        at_place(c.cur, cat) is None,
        forall|i: int| 0 <= i < units.len() ==> !belongs(l, #[trigger] units[i], cat),
    ensures
        at_place(replay(l, c, units).cur, cat) is None,
    decreases units.len(),
{
    if units.len() > 0 {
        lemma_absent_places_stay_empty(l, c, units.drop_last(), cat);
        let u = units.last();
        assert(!belongs(l, units[units.len() - 1], cat));
        units_keep_to_their_places(l, replay(l, c, units.drop_last()), u, cat);
    }
}

/// A unit touches no place but its own, unless it begins a new syllable, and then that place is
/// empty.
pub proof fn units_keep_to_their_places(l: LayoutModel, c: Comp, u: Unit, cat: Category)
    requires
        !belongs(l, u, cat),
    ensures
        at_place(feed(l, c, u).state.cur, cat) == at_place(c.cur, cat) || at_place(
            feed(l, c, u).state.cur,
            cat,
        ) is None,
{
}

// ── taking up a committed syllable ─────────────────────────────────────────────

/// Where nothing is being composed, the settings let the key take up committed syllables, and one
/// is remembered, its units are composed anew, and then the key takes away from them what it takes
/// away from a syllable. One committed character is to be deleted, and one syllable less is
/// remembered.
pub proof fn committed_syllables_are_taken_up(l: LayoutModel, c: Comp, units: Seq<Unit>)
    requires
        c.cur == syllable(None, None, None),
        l.bksp.attach,
        c.prev.len() > 0,
        c.prev.last() == units,
        units.len() > 0,
    ensures
        ({
            let unit = l.bksp.composing;
            let rest = Comp { prev: c.prev.drop_last(), ..c };
            let again = replay(l, emptied(l, rest, unit), units);
            let b = backspace(l, c);
            &&& b.outcome.delete_before == 1
            &&& b.outcome.consumed
            &&& b.outcome.commit.len() == 0
            &&& b.outcome.preedit == shown(l, b.state.cur)
            &&& b.state == (if again.cur == syllable(None, None, None) {
                replay(l, emptied(l, again, unit), shortened(l, again, unit))
            } else {
                backspace(l, again).state
            })
        }),
{
    let unit = l.bksp.composing;
    let rest = Comp { prev: c.prev.drop_last(), ..c };
    replaying_ignores_streak(l, cleared(l, rest), Some(unit), units);
    assert(emptied(l, rest, unit) =~= (Comp { streak: Some(unit), ..cleared(l, rest) }));
    let again = replay(l, emptied(l, rest, unit), units);
    assert(revived(l, c) =~= again);
}

/// Where nothing is being composed, and no syllable can be taken up, the key is left to the
/// application, and its run ends.
pub proof fn with_nothing_to_delete_the_key_passes(l: LayoutModel, c: Comp)
    requires
        c.cur == syllable(None, None, None),
        !l.bksp.attach || c.prev.len() == 0,
    ensures
        ({
            let b = backspace(l, c);
            &&& !b.outcome.consumed
            &&& b.outcome.commit.len() == 0
            &&& b.outcome.preedit.len() == 0
            &&& b.outcome.delete_before == 0
            &&& b.state == (Comp { streak: None, ..c })
        }),
{
}

/// A syllable that is remembered without units is forgotten, and the key is left to the
/// application.
pub proof fn syllables_without_units_are_forgotten(l: LayoutModel, c: Comp)
    requires
        c.cur == syllable(None, None, None),
        l.bksp.attach,
        c.prev.len() > 0,
        c.prev.last().len() == 0,
    ensures
        ({
            let b = backspace(l, c);
            &&& !b.outcome.consumed
            &&& b.outcome.commit.len() == 0
            &&& b.outcome.preedit.len() == 0
            &&& b.outcome.delete_before == 0
            &&& b.state == (Comp { streak: None, prev: c.prev.drop_last(), ..c })
        }),
{
}

// ── what always has a result ───────────────────────────────────────────────────

/// Without an automaton every unit can be fed and the deleting key can always be pressed.
pub proof fn rules_always_have_a_result(l: LayoutModel, c: Comp, u: Unit, units: Seq<Unit>)
    requires
        l.automata.is_empty(),
    ensures
        feed_defined(l, c, u),
        replay_defined(l, c, units),
        backspace_defined(l, c),
{
    lemma_replay_defined(l, c, units);
    if revives(l, c) {
        let rest = Comp { prev: c.prev.drop_last(), ..c };
        lemma_replay_defined(l, cleared(l, rest), c.prev.last());
        let r = revived(l, c);
        lemma_replay_defined(l, cleared(l, r), shortened(l, r, l.bksp.composing));
    } else {
        let e = Comp { streak: Some(bksp_unit(l, c)), ..c };
        lemma_replay_defined(l, cleared(l, e), shortened(l, e, bksp_unit(l, c)));
    }
}

proof fn lemma_replay_defined(l: LayoutModel, c: Comp, units: Seq<Unit>)
    requires
        l.automata.is_empty(),
    ensures
        replay_defined(l, c, units),
    decreases units.len(),
{
    if units.len() > 0 {
        lemma_replay_defined(l, c, units.drop_last());
    }
}

} // verus!
