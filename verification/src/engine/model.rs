//! What composing is: the state of a composition, and what each input does to it.

use vstd::prelude::*;

use crate::config::{combined, lookup, standalone_of, BkspUnit, LayoutModel};
use crate::expr::{evaluate, zero_ctx, Ctx, Evaluated, Value};
use crate::jamo::syllable_of;
use crate::ngs_seq::seq_of;
use crate::text::char_at;
use crate::unit::{Category, Jamo, Unit, TOGGLE};

verus! {

// ── the state ──────────────────────────────────────────────────────────────────

/// The syllable that is being composed: at most one letter in each place, by its conjoining code
/// point.
#[derive(Clone, Copy, Debug, PartialEq, Eq, Structural)]
pub struct Syllable {
    pub cho: Option<u32>,
    pub jung: Option<u32>,
    pub jong: Option<u32>,
}

/// The state of a composition.
#[verifier::ext_equal]
pub struct Comp {
    /// The syllable that is being composed.
    pub cur: Syllable,
    /// The units that made it up.
    pub history: Seq<Unit>,
    /// The state of the automaton.
    pub auto_state: i64,
    /// How much the deleting key takes away while it is pressed again and again.
    pub streak: Option<BkspUnit>,
    /// The units of the syllables committed last, the latest at the end.
    pub prev: Seq<Seq<Unit>>,
}

/// What an input leads to: the state, and the text that it commits.
#[verifier::ext_equal]
pub struct Fed {
    pub state: Comp,
    pub out: Seq<char>,
}

/// What a key press leads to.
#[verifier::ext_equal]
pub struct Pressed {
    pub state: Comp,
    pub outcome: OutcomeModel,
}

/// What the front end is to do after a key press.
#[verifier::ext_equal]
pub struct OutcomeModel {
    /// The text to commit.
    pub commit: Seq<char>,
    /// The text to show as being composed.
    pub preedit: Seq<char>,
    /// Whether the key is used up.
    pub consumed: bool,
    /// How many committed characters before the cursor to delete.
    pub delete_before: int,
}

/// The syllable without letters.
pub open spec fn no_syllable() -> Syllable {
    Syllable { cho: None, jung: None, jong: None }
}

/// Whether the syllable has no letter.
pub open spec fn is_blank(s: Syllable) -> bool {
    s.cho is None && s.jung is None && s.jong is None
}

/// The letter in a place.
pub open spec fn slot(s: Syllable, cat: Category) -> Option<u32> {
    match cat {
        Category::Cho => s.cho,
        Category::Jung => s.jung,
        Category::Jong => s.jong,
    }
}

/// The syllable with a letter put in a place.
pub open spec fn with_slot(s: Syllable, cat: Category, cp: u32) -> Syllable {
    match cat {
        Category::Cho => Syllable { cho: Some(cp), ..s },
        Category::Jung => Syllable { jung: Some(cp), ..s },
        Category::Jong => Syllable { jong: Some(cp), ..s },
    }
}

/// The state with which an engine starts.
pub open spec fn initial(l: LayoutModel) -> Comp {
    Comp {
        cur: no_syllable(),
        history: Seq::empty(),
        auto_state: l.automata_start,
        streak: None,
        prev: Seq::empty(),
    }
}

/// How far the syllable has come: 0 without letters, 2 with a vowel, else 1.
pub open spec fn stage(s: Syllable) -> i64 {
    if is_blank(s) {
        0
    } else if s.jung is Some {
        2
    } else {
        1
    }
}

// ── showing a syllable ─────────────────────────────────────────────────────────

/// The character as a text, or no text.
pub open spec fn text_of(c: Option<char>) -> Seq<char> {
    match c {
        Some(c) => seq![c],
        None => Seq::empty(),
    }
}

/// A letter as its conjoining character.
pub open spec fn conjoining(cp: Option<u32>) -> Seq<char> {
    match cp {
        Some(cp) => text_of(char_at(cp as int)),
        None => Seq::empty(),
    }
}

/// A letter shown on its own.
pub open spec fn alone(l: LayoutModel, cat: Category, cp: Option<u32>) -> Seq<char> {
    match cp {
        Some(n) => if standalone_of(l, Jamo { category: cat, cp: n }) is Some {
            text_of(standalone_of(l, Jamo { category: cat, cp: n }))
        } else {
            conjoining(cp)
        },
        None => Seq::empty(),
    }
}

/// How a syllable is written: as one precomposed character if its letters are modern, else as
/// conjoining letters; and without an initial or a vowel, as letters on their own.
pub open spec fn shown(l: LayoutModel, s: Syllable) -> Seq<char> {
    if s.cho is Some && s.jung is Some {
        match syllable_of(s.cho->0, s.jung->0, s.jong) {
            Some(c) => seq![c],
            None => conjoining(s.cho) + conjoining(s.jung) + conjoining(s.jong),
        }
    } else {
        alone(l, Category::Cho, s.cho) + alone(l, Category::Jung, s.jung) + alone(
            l,
            Category::Jong,
            s.jong,
        )
    }
}

// ── committing ─────────────────────────────────────────────────────────────────

/// How many committed syllables are remembered.
pub const MAX_PREV_SYLLABLES: usize = 32;

/// `prev` with `h` at the end, without its first element where that would be too many.
pub open spec fn remembered(prev: Seq<Seq<Unit>>, h: Seq<Unit>) -> Seq<Seq<Unit>> {
    let all = prev.push(h);
    if all.len() > MAX_PREV_SYLLABLES {
        all.remove(0)
    } else {
        all
    }
}

/// Commits the syllable and remembers its units. The history is left as it is.
pub open spec fn committed(l: LayoutModel, c: Comp) -> Fed {
    Fed {
        state: Comp {
            cur: no_syllable(),
            prev: if !is_blank(c.cur) && c.history.len() > 0 {
                remembered(c.prev, c.history)
            } else {
                c.prev
            },
            ..c
        },
        out: shown(l, c.cur),
    }
}

/// Commits the syllable at the end of a run of Hangul: nothing is left to take up again.
pub open spec fn closed_off(l: LayoutModel, c: Comp) -> Fed {
    Fed {
        state: Comp { cur: no_syllable(), history: Seq::empty(), prev: Seq::empty(), ..c },
        out: shown(l, c.cur),
    }
}

// ── feeding letters by the built-in rules ──────────────────────────────────────

/// An initial goes into a syllable without letters, or combines with a lone initial; else it
/// starts a new syllable.
pub open spec fn feed_cho(l: LayoutModel, c: Comp, cp: u32) -> Fed {
    if is_blank(c.cur) {
        Fed { state: Comp { cur: with_slot(c.cur, Category::Cho, cp), ..c }, out: Seq::empty() }
    } else if c.cur.cho is Some && c.cur.jung is None && c.cur.jong is None && combined(
        l,
        Category::Cho,
        c.cur.cho->0,
        cp,
    ) is Some {
        Fed {
            state: Comp {
                cur: Syllable { cho: combined(l, Category::Cho, c.cur.cho->0, cp), ..c.cur },
                ..c
            },
            out: Seq::empty(),
        }
    } else {
        started(l, c, Jamo { category: Category::Cho, cp })
    }
}

/// A vowel goes into a syllable without vowel and final, or combines with the vowel of one
/// without final; else it starts a new syllable.
pub open spec fn feed_jung(l: LayoutModel, c: Comp, cp: u32) -> Fed {
    if c.cur.jung is None && c.cur.jong is None {
        Fed { state: Comp { cur: with_slot(c.cur, Category::Jung, cp), ..c }, out: Seq::empty() }
    } else if c.cur.jung is Some && c.cur.jong is None && combined(
        l,
        Category::Jung,
        c.cur.jung->0,
        cp,
    ) is Some {
        Fed {
            state: Comp {
                cur: Syllable { jung: combined(l, Category::Jung, c.cur.jung->0, cp), ..c.cur },
                ..c
            },
            out: Seq::empty(),
        }
    } else {
        started(l, c, Jamo { category: Category::Jung, cp })
    }
}

/// A final goes into a syllable with initial and vowel, or combines with the final there; else
/// it starts a new syllable.
pub open spec fn feed_jong(l: LayoutModel, c: Comp, cp: u32) -> Fed {
    if c.cur.cho is Some && c.cur.jung is Some && c.cur.jong is None {
        Fed { state: Comp { cur: with_slot(c.cur, Category::Jong, cp), ..c }, out: Seq::empty() }
    } else if c.cur.jong is Some && combined(l, Category::Jong, c.cur.jong->0, cp) is Some {
        Fed {
            state: Comp {
                cur: Syllable { jong: combined(l, Category::Jong, c.cur.jong->0, cp), ..c.cur },
                ..c
            },
            out: Seq::empty(),
        }
    } else {
        started(l, c, Jamo { category: Category::Jong, cp })
    }
}

/// Commits the syllable and starts a new one with a letter.
pub open spec fn started(l: LayoutModel, c: Comp, j: Jamo) -> Fed {
    let done = committed(l, c);
    Fed {
        state: Comp { cur: with_slot(no_syllable(), j.category, j.cp), ..done.state },
        out: done.out,
    }
}

/// The toggle replaces the initial by what it combines into with the toggle, if anything.
pub open spec fn feed_toggle(l: LayoutModel, c: Comp) -> Fed {
    Fed {
        state: if c.cur.cho is Some && combined(l, Category::Cho, c.cur.cho->0, TOGGLE) is Some {
            Comp {
                cur: Syllable { cho: combined(l, Category::Cho, c.cur.cho->0, TOGGLE), ..c.cur },
                ..c
            }
        } else {
            c
        },
        out: Seq::empty(),
    }
}

/// Places a letter by the built-in rules.
pub open spec fn feed_jamo(l: LayoutModel, c: Comp, j: Jamo) -> Fed {
    match j.category {
        Category::Cho => feed_cho(l, c, j.cp),
        Category::Jung => feed_jung(l, c, j.cp),
        Category::Jong => feed_jong(l, c, j.cp),
    }
}

/// Adds `u` to the history of a syllable that goes on, or begins a history with it where a text
/// was committed.
pub open spec fn noted(f: Fed, u: Unit) -> Fed {
    let history = if f.out.len() == 0 {
        f.state.history.push(u)
    } else if is_blank(f.state.cur) {
        Seq::empty()
    } else {
        seq![u]
    };
    Fed { state: Comp { history, ..f.state }, out: f.out }
}

/// The letter that a unit stands for. The toggle stands for none, and a virtual unit for the one
/// that the settings give it.
pub open spec fn jamo_of(l: LayoutModel, u: Unit) -> Option<Jamo> {
    match u {
        Unit::Jamo(j) => Some(j),
        Unit::Virtual(id) => lookup(l.virtual_units, id),
        Unit::Toggle => None,
    }
}

/// Feeds a unit by the built-in rules.
pub open spec fn feed_by_rule(l: LayoutModel, c: Comp, u: Unit) -> Fed {
    noted(
        if u is Toggle {
            feed_toggle(l, c)
        } else {
            match jamo_of(l, u) {
                Some(j) => feed_jamo(l, c, j),
                None => Fed { state: c, out: Seq::empty() },
            }
        },
        u,
    )
}

// ── feeding letters through the automaton ──────────────────────────────────────

/// The sequence number of the letter in a place, zero where there is none.
pub open spec fn slot_seq(s: Syllable, cat: Category) -> i64 {
    match slot(s, cat) {
        Some(cp) => seq_or_zero(cat, cp),
        None => 0,
    }
}

/// The sequence number of a letter, zero where it has none.
pub open spec fn seq_or_zero(cat: Category, cp: u32) -> i64 {
    match seq_of(cat, cp) {
        Some(n) => n as i64,
        None => 0,
    }
}

/// The variables that tell of an incoming letter.
pub open spec fn letter_ctx(j: Jamo) -> Ctx {
    let n = seq_or_zero(j.category, j.cp);
    match j.category {
        Category::Cho => Ctx { a: n, ..zero_ctx() },
        Category::Jung => Ctx { b: n, ..zero_ctx() },
        Category::Jong => Ctx { c: n, ..zero_ctx() },
    }
}

/// The variables that tell of an incoming letter and of the initial and the vowel of the syllable.
pub open spec fn automaton_ctx(s: Syllable, j: Jamo) -> Ctx {
    Ctx {
        d: slot_seq(s, Category::Cho),
        e: slot_seq(s, Category::Jung),
        ..letter_ctx(j)
    }
}

/// Where the automaton sends a letter.
pub enum Code {
    /// The number that its expressions give.
    Go(i64),
    /// Its state has no expressions, or they give no integer.
    Rule,
    /// An operation of its expressions has no 64-bit result.
    Undefined,
}

/// Where the automaton sends a letter: its state's first expression says, else the second.
pub open spec fn code(l: LayoutModel, c: Comp, j: Jamo) -> Code {
    match lookup(l.automata, c.auto_state) {
        None => Code::Rule,
        Some(st) => match evaluate(st.value, automaton_ctx(c.cur, j)) {
            Evaluated::Undefined => Code::Undefined,
            Evaluated::Gives(Value::Int(n)) => Code::Go(n),
            _ => match evaluate(st.default, automaton_ctx(c.cur, j)) {
                Evaluated::Undefined => Code::Undefined,
                Evaluated::Gives(Value::Int(n)) => Code::Go(n),
                _ => Code::Rule,
            },
        },
    }
}

/// The state in which a syllable of one letter is: the positive number that the starting state
/// gives, else the starting state. `None` where the expression has no 64-bit result.
pub open spec fn fresh_state(l: LayoutModel, j: Jamo) -> Option<i64> {
    match lookup(l.automata, l.automata_start) {
        None => Some(l.automata_start),
        Some(st) => match evaluate(st.value, letter_ctx(j)) {
            Evaluated::Undefined => None,
            Evaluated::Gives(Value::Int(n)) => Some(
                if n > 0 {
                    n
                } else {
                    l.automata_start
                },
            ),
            _ => Some(l.automata_start),
        },
    }
}

/// Whether putting the letter in its place replaces another one.
pub open spec fn replaces(l: LayoutModel, s: Syllable, j: Jamo) -> bool {
    slot(s, j.category) matches Some(e) && combined(l, j.category, e, j.cp) is None
}

/// The syllable with the letter in its place: combined with the one there, or in its stead.
pub open spec fn edited(l: LayoutModel, s: Syllable, j: Jamo) -> Syllable {
    match slot(s, j.category) {
        Some(e) => match combined(l, j.category, e, j.cp) {
            Some(r) => with_slot(s, j.category, r),
            None => with_slot(s, j.category, j.cp),
        },
        None => with_slot(s, j.category, j.cp),
    }
}

/// The place of a unit's letter. The toggle counts as an initial.
pub open spec fn place(l: LayoutModel, u: Unit) -> Option<Category> {
    match u {
        Unit::Toggle => Some(Category::Cho),
        _ => match jamo_of(l, u) {
            Some(j) => Some(j.category),
            None => None,
        },
    }
}

/// `h` without the last unit of the given place.
pub open spec fn without_last(l: LayoutModel, h: Seq<Unit>, cat: Category) -> Seq<Unit>
    decreases h.len(),
{
    if h.len() == 0 {
        h
    } else if place(l, h.last()) == Some(cat) {
        h.drop_last()
    } else {
        without_last(l, h.drop_last(), cat).push(h.last())
    }
}

/// `h` without any unit of the given place.
pub open spec fn without_any(l: LayoutModel, h: Seq<Unit>, cat: Category) -> Seq<Unit>
    decreases h.len(),
{
    if h.len() == 0 {
        h
    } else if place(l, h.last()) == Some(cat) {
        without_any(l, h.drop_last(), cat)
    } else {
        without_any(l, h.drop_last(), cat).push(h.last())
    }
}

/// The history with a letter added. A letter that replaces another takes its place in the
/// history too.
pub open spec fn recorded(l: LayoutModel, c: Comp, j: Jamo) -> Seq<Unit> {
    if replaces(l, c.cur, j) {
        without_last(l, c.history, j.category).push(Unit::Jamo(j))
    } else {
        c.history.push(Unit::Jamo(j))
    }
}

/// Places a letter as a code says: a positive code goes on with the syllable in that state, -2
/// goes on with it in the same state, -1 ignores the letter, and any other code commits the
/// syllable and starts a new one.
pub open spec fn apply_code(l: LayoutModel, c: Comp, n: i64, j: Jamo) -> Fed {
    if n > 0 || n == -2 {
        Fed {
            state: Comp {
                cur: edited(l, c.cur, j),
                history: recorded(l, c, j),
                auto_state: if n > 0 {
                    n
                } else {
                    c.auto_state
                },
                ..c
            },
            out: Seq::empty(),
        }
    } else if n == -1 {
        Fed { state: c, out: Seq::empty() }
    } else {
        let f = started(l, c, j);
        Fed {
            state: Comp {
                history: seq![Unit::Jamo(j)],
                auto_state: match fresh_state(l, j) {
                    Some(s) => s,
                    None => l.automata_start,
                },
                ..f.state
            },
            out: f.out,
        }
    }
}

/// Whether a unit goes through the automaton: there is one, and the unit stands for a letter
/// with a sequence number.
pub open spec fn is_automatic(l: LayoutModel, u: Unit) -> bool {
    !l.automata.is_empty() && (jamo_of(l, u) matches Some(j) && seq_of(j.category, j.cp) is Some)
}

/// Feeds a unit.
pub open spec fn feed(l: LayoutModel, c: Comp, u: Unit) -> Fed {
    if is_automatic(l, u) {
        let j = jamo_of(l, u)->0;
        match code(l, c, j) {
            Code::Go(n) => apply_code(l, c, n, j),
            _ => noted(feed_jamo(l, c, j), Unit::Jamo(j)),
        }
    } else {
        feed_by_rule(l, c, u)
    }
}

/// Whether every operation that feeding a unit comes to has a 64-bit result.
pub open spec fn feed_defined(l: LayoutModel, c: Comp, u: Unit) -> bool {
    is_automatic(l, u) ==> match code(l, c, jamo_of(l, u)->0) {
        Code::Go(n) => n > 0 || n == -2 || n == -1 || fresh_state(l, jamo_of(l, u)->0) is Some,
        Code::Rule => true,
        Code::Undefined => false,
    }
}

/// Feeds units one after the other.
pub open spec fn replay(l: LayoutModel, c: Comp, units: Seq<Unit>) -> Comp
    decreases units.len(),
{
    if units.len() == 0 {
        c
    } else {
        feed(l, replay(l, c, units.drop_last()), units.last()).state
    }
}

/// Whether every operation that feeding the units comes to has a 64-bit result.
pub open spec fn replay_defined(l: LayoutModel, c: Comp, units: Seq<Unit>) -> bool
    decreases units.len(),
{
    units.len() > 0 ==> replay_defined(l, c, units.drop_last()) && feed_defined(
        l,
        replay(l, c, units.drop_last()),
        units.last(),
    )
}

// ── keys ───────────────────────────────────────────────────────────────────────

/// The variables that a key's expression reads.
pub open spec fn key_ctx(s: Syllable, caps: bool) -> Ctx {
    Ctx {
        t: stage(s),
        p: if caps {
            1
        } else {
            0
        },
        ..zero_ctx()
    }
}

/// The character with the given code point, where the number is one.
pub open spec fn char_of_int(n: i64) -> Option<char> {
    if 0 <= n <= u32::MAX {
        char_at(n as int)
    } else {
        None
    }
}

/// What a value leads to: a unit is fed, an integer commits the syllable and then the character
/// of that code point, and a command commits the syllable.
pub open spec fn dispatched(l: LayoutModel, c: Comp, v: Value) -> Pressed {
    match v {
        Value::Unit(u) => {
            let f = feed(l, c, u);
            Pressed {
                state: f.state,
                outcome: OutcomeModel {
                    commit: f.out,
                    preedit: shown(l, f.state.cur),
                    consumed: true,
                    delete_before: 0,
                },
            }
        },
        Value::Int(n) => Pressed {
            state: closed_off(l, c).state,
            outcome: OutcomeModel {
                commit: shown(l, c.cur) + text_of(char_of_int(n)),
                preedit: Seq::empty(),
                consumed: true,
                delete_before: 0,
            },
        },
        Value::Command(_) => Pressed {
            state: closed_off(l, c).state,
            outcome: OutcomeModel {
                commit: shown(l, c.cur),
                preedit: Seq::empty(),
                consumed: true,
                delete_before: 0,
            },
        },
    }
}

/// What a key that the layout does not have leads to. While nothing is shown the key is left to
/// the application; else the syllable is committed together with the key's own character.
pub open spec fn passed(l: LayoutModel, c: Comp, ascii: u8) -> Pressed {
    let text = shown(l, c.cur);
    Pressed {
        state: closed_off(l, c).state,
        outcome: OutcomeModel {
            commit: if text.len() == 0 {
                text
            } else {
                text.push(ascii as char)
            },
            preedit: Seq::empty(),
            consumed: text.len() > 0,
            delete_before: 0,
        },
    }
}

/// What a key press leads to.
pub open spec fn press(l: LayoutModel, c: Comp, ascii: u8, caps: bool) -> Pressed {
    let c = Comp { streak: None, ..c };
    match lookup(l.keys, ascii as u32) {
        None => passed(l, c, ascii),
        Some(e) => match evaluate(e, key_ctx(c.cur, caps)) {
            Evaluated::Gives(v) => dispatched(l, c, v),
            _ => Pressed {
                state: closed_off(l, c).state,
                outcome: OutcomeModel {
                    commit: shown(l, c.cur),
                    preedit: Seq::empty(),
                    consumed: false,
                    delete_before: 0,
                },
            },
        },
    }
}

/// Whether every operation that a key press comes to has a 64-bit result.
pub open spec fn press_defined(l: LayoutModel, c: Comp, ascii: u8, caps: bool) -> bool {
    match lookup(l.keys, ascii as u32) {
        None => true,
        Some(e) => match evaluate(e, key_ctx(c.cur, caps)) {
            Evaluated::Undefined => false,
            Evaluated::Gives(Value::Unit(u)) => feed_defined(l, c, u),
            _ => true,
        },
    }
}

// ── deleting ───────────────────────────────────────────────────────────────────

/// The lowest letter of a syllable: the final, else the vowel, else the initial.
pub open spec fn lowest(s: Syllable) -> Option<Category> {
    if s.jong is Some {
        Some(Category::Jong)
    } else if s.jung is Some {
        Some(Category::Jung)
    } else if s.cho is Some {
        Some(Category::Cho)
    } else {
        None
    }
}

/// The history without what one press of the deleting key takes away.
pub open spec fn shortened(l: LayoutModel, c: Comp, unit: BkspUnit) -> Seq<Unit> {
    let popped = if c.history.len() > 0 {
        c.history.drop_last()
    } else {
        c.history
    };
    match unit {
        BkspUnit::Syllable => Seq::empty(),
        BkspUnit::LastKey => popped,
        BkspUnit::LowestLastKey => match lowest(c.cur) {
            Some(cat) => without_last(l, c.history, cat),
            None => popped,
        },
        BkspUnit::LowestWhole => match lowest(c.cur) {
            Some(cat) => without_any(l, c.history, cat),
            None => popped,
        },
    }
}

/// The state without a syllable.
pub open spec fn cleared(l: LayoutModel, c: Comp) -> Comp {
    Comp {
        cur: no_syllable(),
        history: Seq::empty(),
        auto_state: l.automata_start,
        ..c
    }
}

/// Takes away what one press of the deleting key takes away, and composes the rest anew.
pub open spec fn undone(l: LayoutModel, c: Comp, unit: BkspUnit) -> Comp {
    replay(l, cleared(l, c), shortened(l, c, unit))
}

/// Whether every operation that composing the rest anew comes to has a 64-bit result.
pub open spec fn undone_defined(l: LayoutModel, c: Comp, unit: BkspUnit) -> bool {
    replay_defined(l, cleared(l, c), shortened(l, c, unit))
}

/// The state with the syllable that was committed last taken up again.
pub open spec fn revived(l: LayoutModel, c: Comp) -> Comp {
    Comp {
        streak: Some(l.bksp.composing),
        ..replay(l, cleared(l, Comp { prev: c.prev.drop_last(), ..c }), c.prev.last())
    }
}

/// Whether the deleting key takes up a committed syllable again.
pub open spec fn revives(l: LayoutModel, c: Comp) -> bool {
    is_blank(c.cur) && l.bksp.attach && c.prev.len() > 0 && c.prev.last().len() > 0
}

/// How much the deleting key takes away from a syllable: what it took away before while it is
/// pressed again and again, else what the layout says.
pub open spec fn bksp_unit(l: LayoutModel, c: Comp) -> BkspUnit {
    match c.streak {
        Some(u) => u,
        None => l.bksp.composing,
    }
}

/// What the deleting key leads to. With nothing to take away it is left to the application.
pub open spec fn backspace(l: LayoutModel, c: Comp) -> Pressed {
    if revives(l, c) {
        let state = undone(l, revived(l, c), l.bksp.composing);
        Pressed {
            state,
            outcome: OutcomeModel {
                commit: Seq::empty(),
                preedit: shown(l, state.cur),
                consumed: true,
                delete_before: 1,
            },
        }
    } else if is_blank(c.cur) {
        Pressed {
            state: Comp {
                streak: None,
                prev: if l.bksp.attach && c.prev.len() > 0 {
                    c.prev.drop_last()
                } else {
                    c.prev
                },
                ..c
            },
            outcome: OutcomeModel {
                commit: Seq::empty(),
                preedit: Seq::empty(),
                consumed: false,
                delete_before: 0,
            },
        }
    } else {
        let unit = bksp_unit(l, c);
        let state = undone(l, Comp { streak: Some(unit), ..c }, unit);
        Pressed {
            state,
            outcome: OutcomeModel {
                commit: Seq::empty(),
                preedit: shown(l, state.cur),
                consumed: true,
                delete_before: 0,
            },
        }
    }
}

/// Whether every operation that the deleting key comes to has a 64-bit result.
pub open spec fn backspace_defined(l: LayoutModel, c: Comp) -> bool {
    if revives(l, c) {
        &&& replay_defined(
            l,
            cleared(l, Comp { prev: c.prev.drop_last(), ..c }),
            c.prev.last(),
        )
        &&& undone_defined(l, revived(l, c), l.bksp.composing)
    } else if is_blank(c.cur) {
        true
    } else {
        undone_defined(l, Comp { streak: Some(bksp_unit(l, c)), ..c }, bksp_unit(l, c))
    }
}

} // verus!
