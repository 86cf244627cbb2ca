//! What letters do to a syllable where the layout has an automaton.

use vstd::prelude::*;

use super::model::{
    automaton_ctx, code, feed, is_automatic, jamo_of, letter_ctx, shown, without_last, Code, Comp,
    Syllable,
};
use super::rules::{letter, lone, syllable};
use crate::config::LayoutModel;
use crate::expr::{evaluate, Ctx, Evaluated, Value};
use crate::ngs_seq::{seq_of, sequence_numbers_follow_the_letters};
use crate::unit::{Category, Jamo, Unit};

verus! {

// ── what the automaton is told ─────────────────────────────────────────────────

/// The sequence number of a letter, zero where there is no letter or it has none.
pub open spec fn number(cat: Category, cp: Option<u32>) -> int {
    match cp {
        Some(n) => match seq_of(cat, n) {
            Some(i) => i,
            None => 0,
        },
        None => 0,
    }
}

/// Whether the variables tell of the letter that comes in: its number is `A` for an initial, `B`
/// for a vowel and `C` for a final, and the other two are zero.
pub open spec fn tells_of_letter(ctx: Ctx, j: Jamo) -> bool {
    &&& ctx.t == 0 && ctx.p == 0
    &&& ctx.a == (if j.category == Category::Cho {
        number(Category::Cho, Some(j.cp))
    } else {
        0
    })
    &&& ctx.b == (if j.category == Category::Jung {
        number(Category::Jung, Some(j.cp))
    } else {
        0
    })
    &&& ctx.c == (if j.category == Category::Jong {
        number(Category::Jong, Some(j.cp))
    } else {
        0
    })
}

/// Whether the variables tell of the syllable: `D` is the number of its initial and `E` that of
/// its vowel.
pub open spec fn tells_of_syllable(ctx: Ctx, s: Syllable) -> bool {
    ctx.d == number(Category::Cho, s.cho) && ctx.e == number(Category::Jung, s.jung)
}

/// Whether the automaton's state answers the letter with the number: its first expression gives
/// it, or gives no integer and the second does.
pub open spec fn answers(l: LayoutModel, c: Comp, j: Jamo, n: i64) -> bool {
    l.automata.contains_key(c.auto_state) && exists|ctx: Ctx|
        tells_of_letter(ctx, j) && tells_of_syllable(ctx, c.cur) && {
            let first = #[trigger] evaluate(l.automata[c.auto_state].value, ctx);
            let second = evaluate(l.automata[c.auto_state].default, ctx);
            ||| first == Evaluated::Gives(Value::Int(n))
            ||| (!(first matches Evaluated::Gives(Value::Int(_))) && first !is Undefined && second
                == Evaluated::Gives(Value::Int(n)))
        }
}

/// Whether the unit is the letter, or stands for it, and the automaton knows the letter.
pub open spec fn is_known_letter(l: LayoutModel, u: Unit, j: Jamo) -> bool {
    &&& exists|s: i64| l.automata.contains_key(s)
    &&& seq_of(j.category, j.cp) is Some
    &&& match u {
        Unit::Jamo(k) => k == j,
        Unit::Virtual(id) => l.virtual_units.contains_key(id) && l.virtual_units[id] == j,
        Unit::Toggle => false,
    }
}

// ── what it does with the letter ───────────────────────────────────────────────

/// The letter in the place of `cat`.
pub open spec fn at_place(s: Syllable, cat: Category) -> Option<u32> {
    match cat {
        Category::Cho => s.cho,
        Category::Jung => s.jung,
        Category::Jong => s.jong,
    }
}

/// The syllables have the same letters in the other two places.
pub open spec fn same_elsewhere(s: Syllable, t: Syllable, cat: Category) -> bool {
    &&& cat == Category::Cho || s.cho == t.cho
    &&& cat == Category::Jung || s.jung == t.jung
    &&& cat == Category::Jong || s.jong == t.jong
}

proof fn lemma_answer(l: LayoutModel, c: Comp, u: Unit, j: Jamo, n: i64)
    requires
        is_known_letter(l, u, j),
        answers(l, c, j, n),
    ensures
        is_automatic(l, u),
        jamo_of(l, u) == Some(j),
        code(l, c, j) == Code::Go(n),
{
    let ctx = choose|ctx: Ctx|
        tells_of_letter(ctx, j) && tells_of_syllable(ctx, c.cur) && {
            let first = #[trigger] evaluate(l.automata[c.auto_state].value, ctx);
            let second = evaluate(l.automata[c.auto_state].default, ctx);
            ||| first == Evaluated::Gives(Value::Int(n))
            ||| (!(first matches Evaluated::Gives(Value::Int(_))) && first !is Undefined && second
                == Evaluated::Gives(Value::Int(n)))
        };
    let s = choose|s: i64| l.automata.contains_key(s);
    assert(l.automata.contains_key(s));
    sequence_numbers_follow_the_letters(j.category, j.cp, j.cp);
    if let Some(cp) = c.cur.cho {
        if seq_of(Category::Cho, cp) is Some {
            sequence_numbers_follow_the_letters(Category::Cho, cp, cp);
        }
    }
    if let Some(cp) = c.cur.jung {
        if seq_of(Category::Jung, cp) is Some {
            sequence_numbers_follow_the_letters(Category::Jung, cp, cp);
        }
    }
    assert(ctx == automaton_ctx(c.cur, j));
}

/// A positive answer, and the answer -2, put the letter in its place: it fills an empty place; it
/// turns a letter there with which it combines into what the two combine into; and it replaces a
/// letter there with which it does not combine. The other two places keep their letters, and
/// nothing is committed.
pub proof fn letters_fill_combine_or_replace(l: LayoutModel, c: Comp, u: Unit, j: Jamo, n: i64)
    requires
        is_known_letter(l, u, j),
        answers(l, c, j, n),
        n > 0 || n == -2,
    ensures
        ({
            let f = feed(l, c, u);
            &&& f.out.len() == 0
            &&& same_elsewhere(f.state.cur, c.cur, j.category)
            &&& at_place(c.cur, j.category) is None ==> at_place(f.state.cur, j.category) == Some(
                j.cp,
            )
            &&& at_place(c.cur, j.category) matches Some(e) ==> {
                &&& l.combine.contains_key((j.category, e, j.cp)) ==> at_place(
                    f.state.cur,
                    j.category,
                ) == Some(l.combine[(j.category, e, j.cp)])
                &&& !l.combine.contains_key((j.category, e, j.cp)) ==> at_place(
                    f.state.cur,
                    j.category,
                ) == Some(j.cp)
            }
        }),
{
    lemma_answer(l, c, u, j, n);
}

/// Endless editing: a letter that finds another one in its place, with which it does not combine,
/// takes its stead, and the syllable is otherwise what it was. A second such letter takes the stead
/// of the first, so that only the latest counts.
pub proof fn the_latest_letter_counts(
    l: LayoutModel,
    c: Comp,
    cat: Category,
    x: u32,
    y: u32,
    n: i64,
    m: i64,
)
    requires
        is_known_letter(l, letter(cat, x), Jamo { category: cat, cp: x }),
        is_known_letter(l, letter(cat, y), Jamo { category: cat, cp: y }),
        answers(l, c, Jamo { category: cat, cp: x }, n),
        answers(l, feed(l, c, letter(cat, x)).state, Jamo { category: cat, cp: y }, m),
        n > 0 || n == -2,
        m > 0 || m == -2,
        at_place(c.cur, cat) matches Some(e) ==> !l.combine.contains_key((cat, e, x)),
        !l.combine.contains_key((cat, x, y)),
    ensures
        ({
            let s = feed(l, feed(l, c, letter(cat, x)).state, letter(cat, y)).state.cur;
            at_place(s, cat) == Some(y) && same_elsewhere(s, c.cur, cat)
        }),
{
    letters_fill_combine_or_replace(l, c, letter(cat, x), Jamo { category: cat, cp: x }, n);
    letters_fill_combine_or_replace(
        l,
        feed(l, c, letter(cat, x)).state,
        letter(cat, y),
        Jamo { category: cat, cp: y },
        m,
    );
}

/// A positive answer is the automaton's next state. The answer -2 leaves it in its state, and -1
/// leaves all as it is.
pub proof fn answers_lead_on(l: LayoutModel, c: Comp, u: Unit, j: Jamo, n: i64)
    requires
        is_known_letter(l, u, j),
        answers(l, c, j, n),
    ensures
        ({
            let f = feed(l, c, u);
            &&& n > 0 ==> f.state.auto_state == n
            &&& n == -2 ==> f.state.auto_state == c.auto_state
            &&& n > 0 || n == -2 ==> f.state.prev == c.prev && f.state.streak == c.streak
            &&& n == -1 ==> f.state == c && f.out.len() == 0
        }),
{
    lemma_answer(l, c, u, j, n);
}

/// Zero, and any negative answer but -1 and -2, commit the syllable as it was shown and begin the
/// next one with the letter, which is all its history.
pub proof fn other_answers_commit(l: LayoutModel, c: Comp, u: Unit, j: Jamo, n: i64)
    requires
        is_known_letter(l, u, j),
        answers(l, c, j, n),
        n == 0 || n < -2,
    ensures
        ({
            let f = feed(l, c, u);
            &&& f.out == shown(l, c.cur)
            &&& f.state.cur == lone(j.category, j.cp)
            &&& f.state.history == seq![Unit::Jamo(j)]
            &&& f.state.streak == c.streak
        }),
{
    lemma_answer(l, c, u, j, n);
}

/// A syllable that begins so is in the state to which the starting state's first expression, told
/// of the letter alone, sends it: the number that it gives, if that is positive, else the starting
/// state.
pub proof fn syllables_begin_from_the_starting_state(
    l: LayoutModel,
    c: Comp,
    u: Unit,
    j: Jamo,
    n: i64,
    ctx: Ctx,
)
    requires
        is_known_letter(l, u, j),
        answers(l, c, j, n),
        n == 0 || n < -2,
        tells_of_letter(ctx, j),
        ctx.d == 0 && ctx.e == 0,
    ensures
        ({
            let s = feed(l, c, u).state.auto_state;
            let start = l.automata_start;
            if l.automata.contains_key(start) {
                match evaluate(l.automata[start].value, ctx) {
                    Evaluated::Gives(Value::Int(m)) => s == (if m > 0 {
                        m
                    } else {
                        start
                    }),
                    _ => s == start,
                }
            } else {
                s == start
            }
        }),
{
    lemma_answer(l, c, u, j, n);
    sequence_numbers_follow_the_letters(j.category, j.cp, j.cp);
    assert(ctx == letter_ctx(j));
}

/// Where a letter joins without replacing another one, it is the latest of the history.
pub proof fn joining_letters_are_noted(l: LayoutModel, c: Comp, u: Unit, j: Jamo, n: i64)
    requires
        is_known_letter(l, u, j),
        answers(l, c, j, n),
        n > 0 || n == -2,
        at_place(c.cur, j.category) matches Some(e) ==> l.combine.contains_key(
            (j.category, e, j.cp),
        ),
    ensures
        feed(l, c, u).state.history == c.history.push(Unit::Jamo(j)),
{
    lemma_answer(l, c, u, j, n);
}

/// Whether a unit belongs to a place: a letter to its own, a virtual unit to that of its letter,
/// and the toggle to that of the initial.
pub open spec fn belongs(l: LayoutModel, u: Unit, cat: Category) -> bool {
    match u {
        Unit::Jamo(j) => j.category == cat,
        Unit::Virtual(id) => l.virtual_units.contains_key(id) && l.virtual_units[id].category
            == cat,
        Unit::Toggle => cat == Category::Cho,
    }
}

/// Whether `i` is the index of the last unit of the place.
pub open spec fn is_last_of(l: LayoutModel, h: Seq<Unit>, cat: Category, i: int) -> bool {
    &&& 0 <= i < h.len()
    &&& belongs(l, h[i], cat)
    &&& forall|k: int| i < k < h.len() ==> !belongs(l, #[trigger] h[k], cat)
}

/// Where a letter replaces another one, the last unit of its place leaves the history, and the
/// letter comes to its end.
pub proof fn replacing_letters_take_the_noted_place(
    l: LayoutModel,
    c: Comp,
    u: Unit,
    j: Jamo,
    n: i64,
    i: int,
)
    requires
        is_known_letter(l, u, j),
        answers(l, c, j, n),
        n > 0 || n == -2,
        at_place(c.cur, j.category) matches Some(e) && !l.combine.contains_key(
            (j.category, e, j.cp),
        ),
        is_last_of(l, c.history, j.category, i),
    ensures
        feed(l, c, u).state.history == c.history.remove(i).push(Unit::Jamo(j)),
{
    lemma_answer(l, c, u, j, n);
    dropping_the_last_of_a_place(l, c.history, j.category, i);
}

/// A history without its last unit of a place is the history without that unit, in its order.
pub proof fn dropping_the_last_of_a_place(l: LayoutModel, h: Seq<Unit>, cat: Category, i: int)
    requires
        is_last_of(l, h, cat, i),
    ensures
        without_last(l, h, cat) == h.remove(i),
    decreases h.len(),
{
    if i == h.len() - 1 {
        assert(h.drop_last() =~= h.remove(i));
    } else {
        assert(!belongs(l, h[h.len() - 1], cat));
        assert(is_last_of(l, h.drop_last(), cat, i));
        dropping_the_last_of_a_place(l, h.drop_last(), cat, i);
        assert(h.drop_last().remove(i).push(h.last()) =~= h.remove(i));
    }
}

// ── where it has no say ────────────────────────────────────────────────────────

/// Where the automaton's state has no expressions, or neither of them gives an integer, the letter
/// does what it does without an automaton, and is noted as the letter.
pub proof fn silent_states_leave_it_to_the_rules(
    l: LayoutModel,
    c: Comp,
    u: Unit,
    j: Jamo,
    ctx: Ctx,
)
    requires
        is_known_letter(l, u, j),
        tells_of_letter(ctx, j),
        tells_of_syllable(ctx, c.cur),
        l.automata.contains_key(c.auto_state) ==> {
            let first = evaluate(l.automata[c.auto_state].value, ctx);
            let second = evaluate(l.automata[c.auto_state].default, ctx);
            &&& first !is Undefined && !(first matches Evaluated::Gives(Value::Int(_)))
            &&& second !is Undefined && !(second matches Evaluated::Gives(Value::Int(_)))
        },
    ensures
        feed(l, c, u) == feed(without_automaton(l), c, Unit::Jamo(j)),
{
    let s = choose|s: i64| l.automata.contains_key(s);
    assert(l.automata.contains_key(s));
    sequence_numbers_follow_the_letters(j.category, j.cp, j.cp);
    if let Some(cp) = c.cur.cho {
        if seq_of(Category::Cho, cp) is Some {
            sequence_numbers_follow_the_letters(Category::Cho, cp, cp);
        }
    }
    if let Some(cp) = c.cur.jung {
        if seq_of(Category::Jung, cp) is Some {
            sequence_numbers_follow_the_letters(Category::Jung, cp, cp);
        }
    }
    assert(ctx == automaton_ctx(c.cur, j));
    lemma_showing_ignores_the_automaton(l, c.cur);
}

/// The layout without its automaton.
pub open spec fn without_automaton(l: LayoutModel) -> LayoutModel {
    LayoutModel { automata: Map::empty(), ..l }
}

proof fn lemma_showing_ignores_the_automaton(l: LayoutModel, s: Syllable)
    ensures
        shown(without_automaton(l), s) == shown(l, s),
{
}

/// A letter without a sequence number, and any other unit that is no letter, does what it does
/// without an automaton.
pub proof fn unknown_letters_are_left_to_the_rules(l: LayoutModel, c: Comp, u: Unit)
    requires
        match u {
            Unit::Jamo(j) => seq_of(j.category, j.cp) is None,
            Unit::Virtual(id) => l.virtual_units.contains_key(id) ==> seq_of(
                l.virtual_units[id].category,
                l.virtual_units[id].cp,
            ) is None,
            Unit::Toggle => true,
        },
    ensures
        feed(l, c, u) == feed(without_automaton(l), c, u),
{
    lemma_showing_ignores_the_automaton(l, c.cur);
}

} // verus!
