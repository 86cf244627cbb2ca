//! The composition engine: takes key presses on a compiled layout and composes syllables.
//!
//! Initial, vowel and final have keys of their own, so every letter says where it belongs. A new
//! initial commits a finished syllable and starts the next one. Letters combine by the table of
//! the layout. A layout with an automaton places its letters by that automaton.

use vstd::prelude::*;

use crate::config::{combined, BkspUnit, Layout, LayoutModel};
use crate::expr::{Ctx, Value};
use crate::ngs_seq::ngs_seq;
use crate::unit::{Category, Jamo, Unit, TOGGLE};

pub mod automaton;
pub mod deleting;
pub mod documents;
mod history;
pub mod keys;
pub mod laws;
pub mod model;
pub mod reached;
pub mod rules;
mod syllable;

use history::{copy_units, letter_of_unit, remove_last_at, without_place};
use laws::nothing_composed_shows_nothing;
use model::{
    apply_code, automaton_ctx, backspace, backspace_defined, char_of_int, cleared, closed_off, code,
    committed, dispatched, edited, feed, feed_cho, feed_defined, feed_jamo, feed_jong, feed_jung,
    feed_toggle, fresh_state, initial, is_automatic, is_blank, jamo_of, key_ctx, letter_ctx, noted,
    place, press, press_defined, replaces, replay, replay_defined, seq_or_zero, shortened, shown,
    slot_seq, stage, started, text_of, undone, undone_defined, without_last, Code, Comp, Fed,
    OutcomeModel, Syllable, MAX_PREV_SYLLABLES,
};
use syllable::render;

verus! {

broadcast use vstd::std_specs::hash::group_hash_axioms;

// ── what a key press leads to ──────────────────────────────────────────────────

/// What the front end is to do after a key press.
#[derive(Clone, Debug, PartialEq, Eq)]
pub struct KeyOutcome {
    /// The text to commit.
    pub commit: String,
    /// The text to show as being composed.
    pub preedit: String,
    /// Whether the key is used up. If not, the front end hands it to the application.
    pub consumed: bool,
    /// How many committed characters before the cursor to delete.
    pub delete_before: u32,
}

impl View for KeyOutcome {
    type V = OutcomeModel;

    open spec fn view(&self) -> OutcomeModel {
        OutcomeModel {
            commit: self.commit@,
            preedit: self.preedit@,
            consumed: self.consumed,
            delete_before: self.delete_before as int,
        }
    }
}

impl Default for KeyOutcome {
    fn default() -> (r: KeyOutcome)
        ensures
            r@ == (OutcomeModel {
                commit: Seq::empty(),
                preedit: Seq::empty(),
                consumed: false,
                delete_before: 0,
            }),
    {
        KeyOutcome {
            commit: String::new(),
            preedit: String::new(),
            consumed: false,
            delete_before: 0,
        }
    }
}

// ── the composition ────────────────────────────────────────────────────────────

/// The state of a composition.
#[derive(Clone, Debug)]
struct Composer {
    cur: Syllable,
    history: Vec<Unit>,
    auto_state: i64,
    bksp_streak: Option<BkspUnit>,
    prev_syllables: Vec<Vec<Unit>>,
}

spec fn histories(v: Seq<Vec<Unit>>) -> Seq<Seq<Unit>> {
    v.map_values(|h: Vec<Unit>| h@)
}

impl View for Composer {
    type V = Comp;

    closed spec fn view(&self) -> Comp {
        Comp {
            cur: self.cur,
            history: self.history@,
            auto_state: self.auto_state,
            streak: self.bksp_streak,
            prev: histories(self.prev_syllables@),
        }
    }
}

/// The sequence number of a letter, zero where it has none.
fn seq_number(cat: Category, cp: u32) -> (r: i64)
    ensures
        r == seq_or_zero(cat, cp),
{
    match ngs_seq(cat, cp) {
        Some(n) => n as i64,
        None => 0,
    }
}

/// The variables that tell of an incoming letter.
fn ctx_of_letter(j: Jamo) -> (r: Ctx)
    ensures
        r == letter_ctx(j),
{
    let n: i64 = seq_number(j.category, j.cp);
    match j.category {
        Category::Cho => Ctx { a: n, ..Default::default() },
        Category::Jung => Ctx { b: n, ..Default::default() },
        Category::Jong => Ctx { c: n, ..Default::default() },
    }
}

impl Composer {
    fn new(l: &Layout) -> (r: Composer)
        ensures
            r@ == initial(l@),
    {
        let r = Composer {
            cur: Default::default(),
            history: Vec::new(),
            auto_state: l.automata_start,
            bksp_streak: None,
            prev_syllables: Vec::new(),
        };
        proof {
            assert(r@ =~= initial(l@));
        }
        r
    }

    /// Commits the syllable and remembers its units. The history is left as it is.
    fn commit_current(&mut self, l: &Layout) -> (s: String)
        ensures
            final(self)@ == committed(l@, old(self)@).state,
            s@ == committed(l@, old(self)@).out,
    {
        let s = render(l, &self.cur);
        if !self.cur.is_empty() && self.history.len() > 0 {
            let ghost before = self.prev_syllables@;
            self.prev_syllables.push(copy_units(&self.history));
            proof {
                assert(histories(self.prev_syllables@) =~= histories(before).push(self.history@));
            }
            if self.prev_syllables.len() > MAX_PREV_SYLLABLES {
                let ghost all = self.prev_syllables@;
                self.prev_syllables.remove(0);
                proof {
                    assert(histories(self.prev_syllables@) =~= histories(all).remove(0));
                }
            }
        }
        self.cur = Default::default();
        s
    }

    /// Commits the syllable at the end of a run of Hangul.
    fn commit_and_clear(&mut self, l: &Layout) -> (s: String)
        ensures
            final(self)@ == closed_off(l@, old(self)@).state,
            s@ == closed_off(l@, old(self)@).out,
    {
        let s = self.commit_current(l);
        self.history.clear();
        self.prev_syllables.clear();
        proof {
            assert(self@ =~= closed_off(l@, old(self)@).state);
        }
        s
    }

    /// Commits the syllable and starts a new one with a letter.
    fn start(&mut self, l: &Layout, j: Jamo) -> (s: String)
        ensures
            final(self)@ == started(l@, old(self)@, j).state,
            s@ == started(l@, old(self)@, j).out,
    {
        let s = self.commit_current(l);
        self.cur.put(j.category, j.cp);
        s
    }

    fn feed_cho(&mut self, l: &Layout, cp: u32) -> (s: String)
        ensures
            final(self)@ == feed_cho(l@, old(self)@, cp).state,
            s@ == feed_cho(l@, old(self)@, cp).out,
    {
        if self.cur.is_empty() {
            self.cur.cho = Some(cp);
            return String::new();
        }
        if let Some(cho) = self.cur.cho {
            if self.cur.jung.is_none() && self.cur.jong.is_none() {
                if let Some(r) = l.combine(Category::Cho, cho, cp) {
                    self.cur.cho = Some(r);
                    return String::new();
                }
            }
        }
        self.start(l, Jamo { category: Category::Cho, cp })
    }

    fn feed_jung(&mut self, l: &Layout, cp: u32) -> (s: String)
        ensures
            final(self)@ == feed_jung(l@, old(self)@, cp).state,
            s@ == feed_jung(l@, old(self)@, cp).out,
    {
        if self.cur.jung.is_none() && self.cur.jong.is_none() {
            self.cur.jung = Some(cp);
            return String::new();
        }
        if let Some(jung) = self.cur.jung {
            if self.cur.jong.is_none() {
                if let Some(r) = l.combine(Category::Jung, jung, cp) {
                    self.cur.jung = Some(r);
                    return String::new();
                }
            }
        }
        self.start(l, Jamo { category: Category::Jung, cp })
    }

    fn feed_jong(&mut self, l: &Layout, cp: u32) -> (s: String)
        ensures
            final(self)@ == feed_jong(l@, old(self)@, cp).state,
            s@ == feed_jong(l@, old(self)@, cp).out,
    {
        if self.cur.cho.is_some() && self.cur.jung.is_some() && self.cur.jong.is_none() {
            self.cur.jong = Some(cp);
            return String::new();
        }
        if let Some(jong) = self.cur.jong {
            if let Some(r) = l.combine(Category::Jong, jong, cp) {
                self.cur.jong = Some(r);
                return String::new();
            }
        }
        self.start(l, Jamo { category: Category::Jong, cp })
    }

    fn feed_toggle(&mut self, l: &Layout) -> (s: String)
        ensures
            final(self)@ == feed_toggle(l@, old(self)@).state,
            s@ == feed_toggle(l@, old(self)@).out,
    {
        if let Some(cho) = self.cur.cho {
            if let Some(r) = l.combine(Category::Cho, cho, TOGGLE) {
                self.cur.cho = Some(r);
            }
        }
        String::new()
    }

    fn feed_jamo(&mut self, l: &Layout, j: Jamo) -> (s: String)
        ensures
            final(self)@ == feed_jamo(l@, old(self)@, j).state,
            s@ == feed_jamo(l@, old(self)@, j).out,
    {
        match j.category {
            Category::Cho => self.feed_cho(l, j.cp),
            Category::Jung => self.feed_jung(l, j.cp),
            Category::Jong => self.feed_jong(l, j.cp),
        }
    }

    /// Brings the history up to date after a unit was fed that committed `out`.
    fn note(&mut self, out: &str, u: Unit)
        ensures
            final(self)@ == noted(Fed { state: old(self)@, out: out@ }, u).state,
    {
        if out.is_empty() {
            self.history.push(u);
        } else if self.cur.is_empty() {
            self.history.clear();
        } else {
            self.history.clear();
            self.history.push(u);
            proof {
                assert(self.history@ =~= seq![u]);
            }
        }
    }

    // ── the automaton ──────────────────────────────────────────────────────────

    /// The variables that tell of an incoming letter and of the syllable.
    fn ctx(&self, j: Jamo) -> (r: Ctx)
        ensures
            r == automaton_ctx(self@.cur, j),
    {
        let mut r = ctx_of_letter(j);
        r.d = self.slot_seq(Category::Cho);
        r.e = self.slot_seq(Category::Jung);
        r
    }

    /// The sequence number of the letter in a place, zero where there is none.
    fn slot_seq(&self, cat: Category) -> (r: i64)
        ensures
            r == slot_seq(self@.cur, cat),
    {
        match self.cur.letter(cat) {
            Some(cp) => seq_number(cat, cp),
            None => 0,
        }
    }

    /// Puts a letter in its place: combined with the one there, or in its stead. Returns whether
    /// it replaced another one.
    fn put_modify(&mut self, l: &Layout, j: Jamo) -> (replaced: bool)
        ensures
            final(self)@ == (Comp { cur: edited(l@, old(self)@.cur, j), ..old(self)@ }),
            replaced == replaces(l@, old(self)@.cur, j),
    {
        let (cp, replaced): (u32, bool) = match self.cur.letter(j.category) {
            None => (j.cp, false),
            Some(e) => match l.combine(j.category, e, j.cp) {
                Some(r) => (r, false),
                None => (j.cp, true),
            },
        };
        self.cur.put(j.category, cp);
        replaced
    }

    /// Adds a unit to the history. One that replaced another takes its place there too.
    fn record_unit(&mut self, l: &Layout, u: Unit, replaced: bool, cat: Category)
        ensures
            final(self)@ == (Comp {
                history: if replaced {
                    without_last(l@, old(self)@.history, cat).push(u)
                } else {
                    old(self)@.history.push(u)
                },
                ..old(self)@
            }),
    {
        if replaced {
            remove_last_at(l, &mut self.history, cat);
        }
        self.history.push(u);
    }

    /// The state in which a syllable of one letter is.
    fn fresh_state(l: &Layout, j: Jamo) -> (r: i64)
        requires
            fresh_state(l@, j) is Some,
        ensures
            fresh_state(l@, j) == Some(r),
    {
        match l.automata.get(&l.automata_start) {
            Some(st) => match st.value.eval(&ctx_of_letter(j)) {
                Ok(Value::Int(n)) => if n > 0 {
                    n
                } else {
                    l.automata_start
                },
                _ => l.automata_start,
            },
            None => l.automata_start,
        }
    }

    /// Feeds a letter through the automaton.
    fn automaton_feed(&mut self, l: &Layout, j: Jamo) -> (s: String)
        requires
            code(l@, old(self)@, j) !is Undefined,
            code(l@, old(self)@, j) matches Code::Go(n) ==> n > 0 || n == -2 || n == -1
                || fresh_state(l@, j) is Some,
        ensures
            ({
                let f = match code(l@, old(self)@, j) {
                    Code::Go(n) => apply_code(l@, old(self)@, n, j),
                    _ => noted(feed_jamo(l@, old(self)@, j), Unit::Jamo(j)),
                };
                final(self)@ == f.state && s@ == f.out
            }),
    {
        let ctx = self.ctx(j);
        let n: Option<i64> = match l.automata.get(&self.auto_state) {
            Some(st) => match st.value.eval(&ctx) {
                Ok(Value::Int(n)) => Some(n),
                _ => match st.default.eval(&ctx) {
                    Ok(Value::Int(n)) => Some(n),
                    _ => None,
                },
            },
            None => None,
        };
        match n {
            Some(n) => self.apply_result(l, n, j),
            None => self.feed_jamo_tracked(l, j),
        }
    }

    /// Places a letter as a code of the automaton says.
    fn apply_result(&mut self, l: &Layout, n: i64, j: Jamo) -> (s: String)
        requires
            n > 0 || n == -2 || n == -1 || fresh_state(l@, j) is Some,
        ensures
            final(self)@ == apply_code(l@, old(self)@, n, j).state,
            s@ == apply_code(l@, old(self)@, n, j).out,
    {
        if n > 0 {
            let replaced = self.put_modify(l, j);
            self.auto_state = n;
            self.record_unit(l, Unit::Jamo(j), replaced, j.category);
            String::new()
        } else if n == -2 {
            let replaced = self.put_modify(l, j);
            self.record_unit(l, Unit::Jamo(j), replaced, j.category);
            String::new()
        } else if n == -1 {
            String::new()
        } else {
            let s = self.start(l, j);
            self.history.clear();
            self.auto_state = Composer::fresh_state(l, j);
            self.history.push(Unit::Jamo(j));
            proof {
                assert(self.history@ =~= seq![Unit::Jamo(j)]);
            }
            s
        }
    }

    /// Places a letter by the built-in rules.
    fn feed_jamo_tracked(&mut self, l: &Layout, j: Jamo) -> (s: String)
        ensures
            ({
                let f = noted(feed_jamo(l@, old(self)@, j), Unit::Jamo(j));
                final(self)@ == f.state && s@ == f.out
            }),
    {
        let out = self.feed_jamo(l, j);
        self.note(out.as_str(), Unit::Jamo(j));
        out
    }

    /// The letter that a unit brings to the automaton, if it goes through it.
    fn automatic_letter(l: &Layout, u: Unit) -> (r: Option<Jamo>)
        ensures
            match r {
                Some(j) => is_automatic(l@, u) && jamo_of(l@, u) == Some(j),
                None => !is_automatic(l@, u),
            },
    {
        proof {
            assert(l@.automata.dom() =~= l.automata@.dom());
        }
        if l.automata.is_empty() {
            return None;
        }
        match letter_of_unit(l, u) {
            Some(j) => if ngs_seq(j.category, j.cp).is_some() {
                Some(j)
            } else {
                None
            },
            None => None,
        }
    }

    /// Feeds a unit.
    fn feed_unit(&mut self, l: &Layout, u: Unit) -> (s: String)
        requires
            feed_defined(l@, old(self)@, u),
        ensures
            final(self)@ == feed(l@, old(self)@, u).state,
            s@ == feed(l@, old(self)@, u).out,
    {
        if let Some(j) = Composer::automatic_letter(l, u) {
            return self.automaton_feed(l, j);
        }
        let out = match u {
            Unit::Toggle => self.feed_toggle(l),
            _ => match letter_of_unit(l, u) {
                Some(j) => self.feed_jamo(l, j),
                None => String::new(),
            },
        };
        self.note(out.as_str(), u);
        out
    }

    /// Feeds units one after the other.
    fn replay(&mut self, l: &Layout, units: &Vec<Unit>)
        requires
            replay_defined(l@, old(self)@, units@),
        ensures
            final(self)@ == replay(l@, old(self)@, units@),
    {
        let ghost start = self@;
        let mut i: usize = 0;
        while i < units.len()
            invariant
                i <= units@.len(),
                start == old(self)@,
                replay_defined(l@, start, units@),
                self@ == replay(l@, start, units@.take(i as int)),
            decreases units@.len() - i,
        {
            proof {
                lemma_replay_defined_before(l@, start, units@, i as int + 1);
                assert(units@.take(i as int + 1).drop_last() =~= units@.take(i as int));
            }
            self.feed_unit(l, units[i]);
            i = i + 1;
        }
        proof {
            assert(units@.take(units@.len() as int) =~= units@);
        }
    }

    // ── deleting ───────────────────────────────────────────────────────────────

    /// Takes out of the history what one press of the deleting key takes away.
    fn bksp_remove(&mut self, l: &Layout, mode: BkspUnit)
        ensures
            final(self)@ == (Comp { history: shortened(l@, old(self)@, mode), ..old(self)@ }),
    {
        match mode {
            BkspUnit::Syllable => {
                self.history.clear();
            },
            BkspUnit::LastKey => {
                self.history.pop();
            },
            BkspUnit::LowestLastKey | BkspUnit::LowestWhole => {
                let cat = if self.cur.jong.is_some() {
                    Category::Jong
                } else if self.cur.jung.is_some() {
                    Category::Jung
                } else if self.cur.cho.is_some() {
                    Category::Cho
                } else {
                    self.history.pop();
                    return;
                };
                if mode == BkspUnit::LowestWhole {
                    self.history = without_place(l, &self.history, cat);
                } else {
                    remove_last_at(l, &mut self.history, cat);
                }
            },
        }
    }

    /// Drops the syllable and its units.
    fn clear_syllable(&mut self, l: &Layout)
        ensures
            final(self)@ == cleared(l@, old(self)@),
    {
        self.history.clear();
        self.cur = Default::default();
        self.auto_state = l.automata_start;
        proof {
            assert(self@ =~= cleared(l@, old(self)@));
        }
    }

    /// Takes away what one press of the deleting key takes away, and composes the rest anew.
    fn undo(&mut self, l: &Layout, mode: BkspUnit)
        requires
            undone_defined(l@, old(self)@, mode),
        ensures
            final(self)@ == undone(l@, old(self)@, mode),
    {
        self.bksp_remove(l, mode);
        let rest = copy_units(&self.history);
        self.clear_syllable(l);
        proof {
            assert(self@ =~= cleared(l@, old(self)@));
        }
        self.replay(l, &rest);
    }
}

// ── asking first ───────────────────────────────────────────────────────────────

impl Composer {
    fn duplicate(&self) -> (r: Composer)
        ensures
            r@ == self@,
    {
        let mut prev: Vec<Vec<Unit>> = Vec::new();
        let mut i: usize = 0;
        while i < self.prev_syllables.len()
            invariant
                i <= self.prev_syllables@.len(),
                histories(prev@) == histories(self.prev_syllables@).take(i as int),
            decreases self.prev_syllables@.len() - i,
        {
            let ghost before = prev@;
            prev.push(copy_units(&self.prev_syllables[i]));
            proof {
                let all = histories(self.prev_syllables@);
                assert(histories(prev@) =~= histories(before).push(all[i as int]));
                assert(all.take(i as int + 1) =~= all.take(i as int).push(all[i as int]));
            }
            i = i + 1;
        }
        let r = Composer {
            cur: self.cur,
            history: copy_units(&self.history),
            auto_state: self.auto_state,
            bksp_streak: self.bksp_streak,
            prev_syllables: prev,
        };
        proof {
            assert(r@ =~= self@);
        }
        r
    }

    /// Whether every operation that feeding a unit comes to has a 64-bit result.
    fn can_feed(&self, l: &Layout, u: Unit) -> (r: bool)
        ensures
            r == feed_defined(l@, self@, u),
    {
        let j = match Composer::automatic_letter(l, u) {
            Some(j) => j,
            None => return true,
        };
        let ctx = self.ctx(j);
        let n: i64 = match l.automata.get(&self.auto_state) {
            None => return true,
            Some(st) => match st.value.checked_eval(&ctx) {
                None => return false,
                Some(Ok(Value::Int(n))) => n,
                Some(_) => match st.default.checked_eval(&ctx) {
                    None => return false,
                    Some(Ok(Value::Int(n))) => n,
                    Some(_) => return true,
                },
            },
        };
        if n > 0 || n == -2 || n == -1 {
            return true;
        }
        match l.automata.get(&l.automata_start) {
            None => true,
            Some(st) => st.value.checked_eval(&ctx_of_letter(j)).is_some(),
        }
    }

    /// Feeds units one after the other, if every operation that it comes to has a 64-bit result.
    fn try_replay(&mut self, l: &Layout, units: &Vec<Unit>) -> (r: bool)
        ensures
            r == replay_defined(l@, old(self)@, units@),
            r ==> final(self)@ == replay(l@, old(self)@, units@),
    {
        let ghost start = self@;
        let mut i: usize = 0;
        while i < units.len()
            invariant
                i <= units@.len(),
                start == old(self)@,
                replay_defined(l@, start, units@.take(i as int)),
                self@ == replay(l@, start, units@.take(i as int)),
            decreases units@.len() - i,
        {
            proof {
                assert(units@.take(i as int + 1).drop_last() =~= units@.take(i as int));
            }
            if !self.can_feed(l, units[i]) {
                proof {
                    if replay_defined(l@, start, units@) {
                        lemma_replay_defined_before(l@, start, units@, i as int + 1);
                    }
                }
                return false;
            }
            self.feed_unit(l, units[i]);
            i = i + 1;
        }
        proof {
            assert(units@.take(units@.len() as int) =~= units@);
        }
        true
    }

    /// Whether every operation that composing the rest anew comes to has a 64-bit result.
    fn can_undo(&self, l: &Layout, mode: BkspUnit) -> (r: bool)
        ensures
            r == undone_defined(l@, self@, mode),
    {
        let mut c = self.duplicate();
        c.bksp_remove(l, mode);
        let rest = copy_units(&c.history);
        c.clear_syllable(l);
        proof {
            assert(c@ =~= cleared(l@, self@));
        }
        c.try_replay(l, &rest)
    }
}

proof fn lemma_replay_defined_before(l: LayoutModel, c: Comp, units: Seq<Unit>, n: int)
    requires
        0 <= n <= units.len(),
        replay_defined(l, c, units),
    ensures
        replay_defined(l, c, units.take(n)),
    decreases units.len() - n,
{
    if n < units.len() {
        lemma_replay_defined_before(l, c, units, n + 1);
        assert(units.take(n + 1).drop_last() =~= units.take(n));
    } else {
        assert(units.take(n) =~= units);
    }
}

// ── the engine ─────────────────────────────────────────────────────────────────

/// A layout, and the syllable that is being composed with it.
#[derive(Clone, Debug)]
pub struct Engine {
    layout: Layout,
    state: Composer,
}

impl View for Engine {
    type V = Comp;

    closed spec fn view(&self) -> Comp {
        self.state@
    }
}

impl Engine {
    /// The layout with its tables as maps.
    pub closed spec fn layout_model(&self) -> LayoutModel {
        self.layout@
    }

    /// An engine that composes with the given layout.
    pub fn new(layout: Layout) -> (r: Engine)
        ensures
            r.layout_model() == layout@,
            r@ == initial(layout@),
    {
        let state = Composer::new(&layout);
        Engine { layout, state }
    }

    /// The layout.
    pub fn layout(&self) -> (r: &Layout)
        ensures
            r@ == self.layout_model(),
    {
        &self.layout
    }

    /// Whether nothing is being composed.
    pub fn is_empty(&self) -> (r: bool)
        ensures
            r == is_blank(self@.cur),
    {
        self.state.cur.is_empty()
    }

    /// The state of the automaton.
    pub fn auto_state(&self) -> (r: i64)
        ensures
            r == self@.auto_state,
    {
        self.state.auto_state
    }

    /// How much the deleting key takes away while it is pressed again and again.
    pub fn bksp_streak(&self) -> (r: Option<BkspUnit>)
        ensures
            r == self@.streak,
    {
        self.state.bksp_streak
    }

    /// The text that shows what is being composed.
    pub fn preedit(&self) -> (r: String)
        ensures
            r@ == shown(self.layout_model(), self@.cur),
    {
        render(&self.layout, &self.state.cur)
    }

    /// Commits the syllable, when the focus goes elsewhere, and starts afresh.
    pub fn flush(&mut self) -> (r: String)
        ensures
            final(self).layout_model() == old(self).layout_model(),
            final(self)@ == initial(old(self).layout_model()),
            r@ == shown(old(self).layout_model(), old(self)@.cur),
    {
        let s = self.state.commit_and_clear(&self.layout);
        self.state = Composer::new(&self.layout);
        s
    }

    /// Drops the syllable and starts afresh.
    pub fn reset(&mut self)
        ensures
            final(self).layout_model() == old(self).layout_model(),
            final(self)@ == initial(old(self).layout_model()),
    {
        self.state = Composer::new(&self.layout);
    }

    /// Whether every operation that a key press comes to has a 64-bit result. An expression that
    /// overflows, divides by zero or shifts too far has no value, and [`press`](Self::press) is
    /// not for it.
    pub fn press_defined(&self, ascii: u8, caps: bool) -> (r: bool)
        ensures
            r == press_defined(self.layout_model(), self@, ascii, caps),
    {
        match self.layout.keys.get(&(ascii as u32)) {
            None => true,
            Some(e) => match e.checked_eval(&self.key_ctx(caps)) {
                None => false,
                Some(Ok(Value::Unit(u))) => self.state.can_feed(&self.layout, u),
                Some(_) => true,
            },
        }
    }

    fn key_ctx(&self, caps: bool) -> (r: Ctx)
        ensures
            r == key_ctx(self@.cur, caps),
    {
        Ctx { t: self.t_state(), p: caps as i64, ..Default::default() }
    }

    /// How far the syllable has come.
    fn t_state(&self) -> (r: i64)
        ensures
            r == stage(self@.cur),
    {
        if self.state.cur.is_empty() {
            0
        } else if self.state.cur.jung.is_some() {
            2
        } else {
            1
        }
    }

    /// Takes the press of a key, given by the ASCII character that it stands for. `caps` tells
    /// whether Caps Lock is on.
    pub fn press(&mut self, ascii: u8, caps: bool) -> (r: KeyOutcome)
        requires
            press_defined(old(self).layout_model(), old(self)@, ascii, caps),
        ensures
            final(self).layout_model() == old(self).layout_model(),
            final(self)@ == press(old(self).layout_model(), old(self)@, ascii, caps).state,
            r@ == press(old(self).layout_model(), old(self)@, ascii, caps).outcome,
    {
        let ctx = self.key_ctx(caps);
        self.state.bksp_streak = None;
        let expr = match self.layout.keys.get(&(ascii as u32)) {
            Some(e) => e.clone(),
            None => {
                let mut commit = self.state.commit_and_clear(&self.layout);
                if commit.as_str().is_empty() {
                    return KeyOutcome {
                        commit,
                        preedit: String::new(),
                        consumed: false,
                        delete_before: 0,
                    };
                }
                commit.push(ascii as char);
                return KeyOutcome {
                    commit,
                    preedit: String::new(),
                    consumed: true,
                    delete_before: 0,
                };
            },
        };
        match expr.eval(&ctx) {
            Ok(v) => self.dispatch(v),
            Err(_) => {
                let commit = self.state.commit_and_clear(&self.layout);
                KeyOutcome { commit, preedit: String::new(), consumed: false, delete_before: 0 }
            },
        }
    }

    /// Does what the value of a key says.
    fn dispatch(&mut self, val: Value) -> (r: KeyOutcome)
        requires
            val matches Value::Unit(u) ==> feed_defined(old(self).layout_model(), old(self)@, u),
        ensures
            final(self).layout_model() == old(self).layout_model(),
            final(self)@ == dispatched(old(self).layout_model(), old(self)@, val).state,
            r@ == dispatched(old(self).layout_model(), old(self)@, val).outcome,
    {
        match val {
            Value::Unit(u) => {
                let commit = self.state.feed_unit(&self.layout, u);
                KeyOutcome { commit, preedit: self.preedit(), consumed: true, delete_before: 0 }
            },
            Value::Int(n) => {
                let mut commit = self.state.commit_and_clear(&self.layout);
                let ghost before = commit@;
                if 0 <= n && n <= 0xFFFF_FFFF {
                    if let Some(c) = char::from_u32(n as u32) {
                        commit.push(c);
                    }
                }
                proof {
                    assert(commit@ =~= before + text_of(char_of_int(n)));
                }
                KeyOutcome { commit, preedit: String::new(), consumed: true, delete_before: 0 }
            },
            Value::Command(_) => {
                let commit = self.state.commit_and_clear(&self.layout);
                proof {
                    nothing_composed_shows_nothing(self.layout@);
                }
                KeyOutcome { commit, preedit: self.preedit(), consumed: true, delete_before: 0 }
            },
        }
    }

    /// Whether every operation that the deleting key comes to has a 64-bit result. Only then is
    /// [`backspace`](Self::backspace) for it.
    pub fn backspace_defined(&self) -> (r: bool)
        ensures
            r == backspace_defined(self.layout_model(), self@),
    {
        let l = &self.layout;
        if self.state.cur.is_empty() {
            if !l.bksp.attach {
                return true;
            }
            let mut c = self.state.duplicate();
            let hist = match c.prev_syllables.pop() {
                Some(h) => h,
                None => return true,
            };
            proof {
                assert(histories(c.prev_syllables@) =~= self@.prev.drop_last());
            }
            if hist.len() == 0 {
                return true;
            }
            c.clear_syllable(l);
            if !c.try_replay(l, &hist) {
                return false;
            }
            c.bksp_streak = Some(l.bksp.composing);
            return c.can_undo(l, l.bksp.composing);
        }
        let unit = match self.state.bksp_streak {
            Some(u) => u,
            None => l.bksp.composing,
        };
        let mut c = self.state.duplicate();
        c.bksp_streak = Some(unit);
        c.can_undo(l, unit)
    }

    /// Takes the press of the deleting key: takes units out of the history of the syllable and
    /// composes the rest anew, so that a combination comes apart one step at a time.
    pub fn backspace(&mut self) -> (r: KeyOutcome)
        requires
            backspace_defined(old(self).layout_model(), old(self)@),
        ensures
            final(self).layout_model() == old(self).layout_model(),
            final(self)@ == backspace(old(self).layout_model(), old(self)@).state,
            r@ == backspace(old(self).layout_model(), old(self)@).outcome,
    {
        if self.state.cur.is_empty() {
            if self.layout.bksp.attach {
                let ghost before = self@.prev;
                if let Some(hist) = self.state.prev_syllables.pop() {
                    proof {
                        assert(histories(self.state.prev_syllables@) =~= before.drop_last());
                    }
                    if hist.len() > 0 {
                        self.state.clear_syllable(&self.layout);
                        self.state.replay(&self.layout, &hist);
                        let unit = self.layout.bksp.composing;
                        self.state.bksp_streak = Some(unit);
                        self.state.undo(&self.layout, unit);
                        return KeyOutcome {
                            commit: String::new(),
                            preedit: self.preedit(),
                            consumed: true,
                            delete_before: 1,
                        };
                    }
                }
            }
            self.state.bksp_streak = None;
            return KeyOutcome {
                commit: String::new(),
                preedit: String::new(),
                consumed: false,
                delete_before: 0,
            };
        }
        let unit = match self.state.bksp_streak {
            Some(u) => u,
            None => self.layout.bksp.composing,
        };
        self.state.bksp_streak = Some(unit);
        self.state.undo(&self.layout, unit);
        KeyOutcome {
            commit: String::new(),
            preedit: self.preedit(),
            consumed: true,
            delete_before: 0,
        }
    }
}

} // verus!
