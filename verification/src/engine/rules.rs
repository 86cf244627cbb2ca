//! What letters do to a syllable where the layout has no automaton, and how a syllable is shown.

use vstd::prelude::*;

use super::model::{feed, shown, Comp, Fed, Syllable};
use crate::config::LayoutModel;
use crate::jamo::syllable_of;
use crate::unit::{compat_of, compatibility_letters_are_characters, Category, Jamo, Unit};

verus! {

// ── words ──────────────────────────────────────────────────────────────────────

/// The syllable with these letters.
pub open spec fn syllable(cho: Option<u32>, jung: Option<u32>, jong: Option<u32>) -> Syllable {
    Syllable { cho, jung, jong }
}

/// A letter, as a unit.
pub open spec fn letter(category: Category, cp: u32) -> Unit {
    Unit::Jamo(Jamo { category, cp })
}

/// The unit joins the syllable, which becomes `s`: nothing is committed, the unit is the latest of
/// the history, and all else stays.
pub open spec fn goes_on(c: Comp, f: Fed, u: Unit, s: Syllable) -> bool {
    &&& f.out.len() == 0
    &&& f.state.cur == s
    &&& f.state.history == c.history.push(u)
    &&& f.state.prev == c.prev
    &&& f.state.auto_state == c.auto_state
    &&& f.state.streak == c.streak
}

/// The syllable is committed as it was shown, and the next one, `s`, begins.
pub open spec fn begins_anew(l: LayoutModel, c: Comp, f: Fed, s: Syllable) -> bool {
    &&& f.out == shown(l, c.cur)
    &&& f.state.cur == s
    &&& f.state.auto_state == c.auto_state
    &&& f.state.streak == c.streak
}

// ── initials ───────────────────────────────────────────────────────────────────

/// An initial that comes to nothing is the syllable.
pub proof fn initials_begin_a_syllable(l: LayoutModel, c: Comp, cp: u32)
    requires
        l.automata.is_empty(),
        c.cur == syllable(None, None, None),
    ensures
        ({
            let u = letter(Category::Cho, cp);
            goes_on(c, feed(l, c, u), u, syllable(Some(cp), None, None))
        }),
{
}

/// An initial that comes to an initial alone, and combines with it, turns it into what the two
/// combine into. Nothing is committed, and there is no other letter.
pub proof fn initials_combine(l: LayoutModel, c: Comp, a: u32, b: u32, r: u32)
    requires
        l.automata.is_empty(),
        c.cur == syllable(Some(a), None, None),
        l.combine.contains_key((Category::Cho, a, b)),
        l.combine[(Category::Cho, a, b)] == r,
    ensures
        ({
            let u = letter(Category::Cho, b);
            goes_on(c, feed(l, c, u), u, syllable(Some(r), None, None))
        }),
{
}

/// An initial that finds a vowel or a final, or an initial that it does not combine with, commits
/// the syllable and begins the next one.
pub proof fn other_initials_commit(l: LayoutModel, c: Comp, cp: u32)
    requires
        l.automata.is_empty(),
        c.cur.jung is Some || c.cur.jong is Some || (c.cur.cho matches Some(a)
            && !l.combine.contains_key((Category::Cho, a, cp))),
    ensures
        begins_anew(
            l,
            c,
            feed(l, c, letter(Category::Cho, cp)),
            syllable(Some(cp), None, None),
        ),
{
}

// ── vowels ─────────────────────────────────────────────────────────────────────

/// A vowel joins a syllable that has no vowel and no final, with an initial or without.
pub proof fn vowels_join(l: LayoutModel, c: Comp, cp: u32)
    requires
        l.automata.is_empty(),
        c.cur.jung is None,
        c.cur.jong is None,
    ensures
        ({
            let u = letter(Category::Jung, cp);
            goes_on(c, feed(l, c, u), u, syllable(c.cur.cho, Some(cp), None))
        }),
{
}

/// A vowel that combines with the vowel of a syllable without final turns it into what the two
/// combine into, and leaves the initial as it is.
pub proof fn vowels_combine(l: LayoutModel, c: Comp, a: u32, b: u32, r: u32)
    requires
        l.automata.is_empty(),
        c.cur.jung == Some(a),
        c.cur.jong is None,
        l.combine.contains_key((Category::Jung, a, b)),
        l.combine[(Category::Jung, a, b)] == r,
    ensures
        ({
            let u = letter(Category::Jung, b);
            goes_on(c, feed(l, c, u), u, syllable(c.cur.cho, Some(r), None))
        }),
{
}

/// A vowel that finds a final, or a vowel that it does not combine with, commits the syllable and
/// begins the next one. The final stays where it was.
pub proof fn other_vowels_commit(l: LayoutModel, c: Comp, cp: u32)
    requires
        l.automata.is_empty(),
        c.cur.jong is Some || (c.cur.jung matches Some(a) && !l.combine.contains_key(
            (Category::Jung, a, cp),
        )),
    ensures
        begins_anew(
            l,
            c,
            feed(l, c, letter(Category::Jung, cp)),
            syllable(None, Some(cp), None),
        ),
{
}

// ── finals ─────────────────────────────────────────────────────────────────────

/// A final joins a syllable that has an initial and a vowel and no final.
pub proof fn finals_join(l: LayoutModel, c: Comp, cp: u32)
    requires
        l.automata.is_empty(),
        c.cur.cho is Some,
        c.cur.jung is Some,
        c.cur.jong is None,
    ensures
        ({
            let u = letter(Category::Jong, cp);
            goes_on(c, feed(l, c, u), u, syllable(c.cur.cho, c.cur.jung, Some(cp)))
        }),
{
}

/// A final that combines with the final of the syllable turns it into what the two combine into,
/// and leaves initial and vowel as they are.
pub proof fn finals_combine(l: LayoutModel, c: Comp, a: u32, b: u32, r: u32)
    requires
        l.automata.is_empty(),
        c.cur.jong == Some(a),
        l.combine.contains_key((Category::Jong, a, b)),
        l.combine[(Category::Jong, a, b)] == r,
    ensures
        ({
            let u = letter(Category::Jong, b);
            goes_on(c, feed(l, c, u), u, syllable(c.cur.cho, c.cur.jung, Some(r)))
        }),
{
}

/// A final that finds a final that it does not combine with, or no initial and vowel to follow,
/// commits the syllable and stands alone.
pub proof fn other_finals_commit(l: LayoutModel, c: Comp, cp: u32)
    requires
        l.automata.is_empty(),
        match c.cur.jong {
            Some(a) => !l.combine.contains_key((Category::Jong, a, cp)),
            None => c.cur.cho is None || c.cur.jung is None,
        },
    ensures
        begins_anew(
            l,
            c,
            feed(l, c, letter(Category::Jong, cp)),
            syllable(None, None, Some(cp)),
        ),
{
}

// ── other units ────────────────────────────────────────────────────────────────

/// The toggle turns the initial into what it combines into with the number 500, and leaves the
/// other letters as they are, in any layout. Where there is no such combination, or no initial, it
/// changes no letter.
pub proof fn the_toggle_turns_the_initial(l: LayoutModel, c: Comp)
    ensures
        goes_on(
            c,
            feed(l, c, Unit::Toggle),
            Unit::Toggle,
            syllable(
                match c.cur.cho {
                    Some(a) => if l.combine.contains_key((Category::Cho, a, 500)) {
                        Some(l.combine[(Category::Cho, a, 500)])
                    } else {
                        Some(a)
                    },
                    None => None,
                },
                c.cur.jung,
                c.cur.jong,
            ),
        ),
{
}

/// A virtual unit does to the syllable, and commits, what the letter behind it does, in any
/// layout. One without a letter changes no letter and commits nothing.
pub proof fn virtual_units_stand_for_their_letters(l: LayoutModel, c: Comp, id: u32)
    ensures
        if l.virtual_units.contains_key(id) {
            let f = feed(l, c, Unit::Virtual(id));
            let g = feed(l, c, Unit::Jamo(l.virtual_units[id]));
            f.out == g.out && f.state.cur == g.state.cur && f.state.auto_state == g.state.auto_state
                && f.state.prev == g.state.prev
        } else {
            goes_on(c, feed(l, c, Unit::Virtual(id)), Unit::Virtual(id), c.cur)
        },
{
}

// ── what is remembered ─────────────────────────────────────────────────────────

/// A unit that commits a text begins a history of its own, and the units of the committed syllable
/// become the latest of those that are remembered. Of the earlier ones the 31 latest stay, in their
/// order.
pub proof fn committing_remembers_the_units(l: LayoutModel, c: Comp, u: Unit)
    requires
        feed(l, c, u).out.len() > 0,
        c.history.len() > 0,
        c.prev.len() <= 32,
    ensures
        ({
            let f = feed(l, c, u);
            let prev = f.state.prev;
            let dropped = if c.prev.len() == 32 {
                1int
            } else {
                0
            };
            &&& f.state.history.len() == 1
            &&& prev.len() == c.prev.len() + 1 - dropped
            &&& prev.last() == c.history
            &&& forall|i: int|
                0 <= i < prev.len() - 1 ==> #[trigger] prev[i] == c.prev[i + dropped]
        }),
{
    assert(shown(l, syllable(None, None, None)) =~= Seq::<char>::empty());
    if c.cur.cho is None && c.cur.jung is None && c.cur.jong is None {
        assert(c.cur == syllable(None, None, None));
    }
}

/// Without an automaton, the history that begins so is the unit itself.
pub proof fn histories_begin_with_the_unit(l: LayoutModel, c: Comp, u: Unit)
    requires
        l.automata.is_empty(),
        feed(l, c, u).out.len() > 0,
    ensures
        feed(l, c, u).state.history == seq![u],
{
    assert(shown(l, syllable(None, None, None)) =~= Seq::<char>::empty());
}

// ── two letters ────────────────────────────────────────────────────────────────

/// Two letters that combine, given one after the other, make the syllable that the combined letter
/// makes by itself: initials where nothing is being composed, vowels behind an initial or alone,
/// and finals behind an initial and a vowel.
pub proof fn combining_is_typing_the_combined_letter(
    l: LayoutModel,
    c: Comp,
    cat: Category,
    a: u32,
    b: u32,
)
    requires
        l.automata.is_empty(),
        l.combine.contains_key((cat, a, b)),
        match cat {
            Category::Cho => c.cur == syllable(None, None, None),
            Category::Jung => c.cur.jung is None && c.cur.jong is None,
            Category::Jong => c.cur.cho is Some && c.cur.jung is Some && c.cur.jong is None,
        },
    ensures
        ({
            let two = feed(l, feed(l, c, letter(cat, a)).state, letter(cat, b));
            let one = feed(l, c, letter(cat, l.combine[(cat, a, b)]));
            two.state.cur == one.state.cur && two.out.len() == 0 && one.out.len() == 0
        }),
{
}

/// An initial, a vowel and a final, given one after the other where nothing is being composed, make
/// one syllable of the three and commit nothing.
pub proof fn three_letters_make_a_syllable(l: LayoutModel, c: Comp, cho: u32, jung: u32, jong: u32)
    requires
        l.automata.is_empty(),
        c.cur == syllable(None, None, None),
    ensures
        ({
            let f = feed(l, c, letter(Category::Cho, cho));
            let g = feed(l, f.state, letter(Category::Jung, jung));
            let h = feed(l, g.state, letter(Category::Jong, jong));
            &&& h.state.cur == syllable(Some(cho), Some(jung), Some(jong))
            &&& f.out.len() == 0 && g.out.len() == 0 && h.out.len() == 0
        }),
{
}

// ── how a syllable is shown ────────────────────────────────────────────────────

/// The text of the code point alone, empty where it is no Unicode scalar value.
pub open spec fn character(cp: u32) -> Seq<char> {
    if cp < 0xD800 || (0xE000 <= cp && cp <= 0x10FFFF) {
        seq![cp as char]
    } else {
        Seq::empty()
    }
}

/// The syllable of one letter.
pub open spec fn lone(cat: Category, cp: u32) -> Syllable {
    match cat {
        Category::Cho => syllable(Some(cp), None, None),
        Category::Jung => syllable(None, Some(cp), None),
        Category::Jong => syllable(None, None, Some(cp)),
    }
}

/// A letter alone is shown as the character that the settings give for it. Where they give none, a
/// modern letter is shown as its compatibility letter. Any other letter, and one for which the
/// settings give no character, is shown as itself.
pub proof fn lone_letters_are_shown(l: LayoutModel, cat: Category, cp: u32)
    ensures
        shown(l, lone(cat, cp)) == (if l.final_conv.contains_key(cp) {
            if character(l.final_conv[cp]).len() > 0 {
                character(l.final_conv[cp])
            } else {
                character(cp)
            }
        } else {
            match compat_of(Jamo { category: cat, cp }) {
                Some(n) => character(n),
                None => character(cp),
            }
        }),
{
    compatibility_letters_are_characters(Jamo { category: cat, cp });
    assert(shown(l, lone(cat, cp)) =~= if l.final_conv.contains_key(cp) {
        if character(l.final_conv[cp]).len() > 0 {
            character(l.final_conv[cp])
        } else {
            character(cp)
        }
    } else {
        match compat_of(Jamo { category: cat, cp }) {
            Some(n) => character(n),
            None => character(cp),
        }
    });
}

/// Letters that make no syllable block, as one of initial and vowel is missing, are shown one after
/// the other, each as it is shown alone.
pub proof fn partial_syllables_are_shown_letter_by_letter(
    l: LayoutModel,
    cho: u32,
    jung: u32,
    jong: u32,
)
    ensures
        shown(l, syllable(Some(cho), None, Some(jong))) == shown(l, lone(Category::Cho, cho))
            + shown(l, lone(Category::Jong, jong)),
        shown(l, syllable(None, Some(jung), Some(jong))) == shown(l, lone(Category::Jung, jung))
            + shown(l, lone(Category::Jong, jong)),
        shown(l, syllable(None, None, None)).len() == 0,
{
    assert(shown(l, syllable(Some(cho), None, Some(jong))) =~= shown(l, lone(Category::Cho, cho))
        + shown(l, lone(Category::Jong, jong)));
    assert(shown(l, syllable(None, Some(jung), Some(jong))) =~= shown(l, lone(Category::Jung, jung))
        + shown(l, lone(Category::Jong, jong)));
}

/// A syllable block is shown as one precomposed character where its letters are modern, else as
/// its letters one after the other. The settings for letters alone do not matter.
pub proof fn syllable_blocks_are_shown(
    l: LayoutModel,
    m: LayoutModel,
    cho: u32,
    jung: u32,
    jong: Option<u32>,
)
    ensures
        shown(l, syllable(Some(cho), Some(jung), jong)) == shown(
            m,
            syllable(Some(cho), Some(jung), jong),
        ),
        syllable_of(cho, jung, jong) matches Some(c) ==> shown(
            l,
            syllable(Some(cho), Some(jung), jong),
        ) == seq![c],
        syllable_of(cho, jung, jong) is None ==> shown(l, syllable(Some(cho), Some(jung), jong))
            == character(cho) + character(jung) + match jong {
            Some(n) => character(n),
            None => Seq::empty(),
        },
{
}

} // verus!
