//! What the rows of an entry's tables come to in its layout.

use vstd::prelude::*;

use super::compile::{
    behavior, bksp_value, combination, combinations, combinations_need_every_row, compiled,
    start_of, state_of, states, virtual_letters, with_flag, with_flags,
};
use super::{
    is_hangul_entry, AutomataRowModel, BkspModel, BkspUnit, ConfigErrorModel, ConfigModel,
    EntryModel, LayoutModel, StateModel, UnitMixModel, VirtualUnitModel,
};
use crate::expr::parser::parsed;
use crate::expr::{ErrorModel, ExprModel};
use crate::text::laws::{
    all_space, beginnings_have_a_rest, integers_are_read_with_signs, is_without,
    numerals_have_no_leading_zero, splitting_undoes_joining, trimming_finds_the_text, with_between,
};
use crate::text::{numeral, trimmed};
use crate::unit::{unit_of_operand, Category, Jamo, Unit};

verus! {

// ── combinations ───────────────────────────────────────────────────────────────

/// Whether the row lets `a` and `b` combine into `to`: its first and third operand stand for the
/// letters `a` and `to`, and its second for the letter `b`, or for the toggle where that is 500.
pub open spec fn lets_combine(r: UnitMixModel, a: u32, b: u32, to: u32) -> bool {
    &&& unit_of_operand(r.a, Some(r.unit)) matches Some(Unit::Jamo(j)) && j.cp == a
    &&& unit_of_operand(r.to, Some(r.unit)) matches Some(Unit::Jamo(j)) && j.cp == to
    &&& match unit_of_operand(r.b, Some(r.unit)) {
        Some(Unit::Jamo(j)) => j.cp == b,
        Some(Unit::Toggle) => b == 500,
        _ => false,
    }
}

/// In a layout two letters of a place combine into what the last row for them says.
pub proof fn the_last_row_combines(
    c: ConfigModel,
    i: usize,
    l: LayoutModel,
    k: int,
    a: u32,
    b: u32,
    to: u32,
)
    requires
        compiled(c, i) == Ok::<LayoutModel, ConfigErrorModel>(l),
        0 <= k < c.entries[i as int].unit_mix.len(),
        lets_combine(c.entries[i as int].unit_mix[k], a, b, to),
        forall|j: int, x: u32|
            k < j < c.entries[i as int].unit_mix.len() && c.entries[i as int].unit_mix[j].unit
                == c.entries[i as int].unit_mix[k].unit ==> !#[trigger] lets_combine(
                c.entries[i as int].unit_mix[j],
                a,
                b,
                x,
            ),
    ensures
        l.combine.contains_key((c.entries[i as int].unit_mix[k].unit, a, b)),
        l.combine[(c.entries[i as int].unit_mix[k].unit, a, b)] == to,
{
    lemma_last_combination(c.entries[i as int].unit_mix, k, a, b, to);
}

proof fn lemma_combination(r: UnitMixModel, a: u32, b: u32, to: u32)
    ensures
        lets_combine(r, a, b, to) <==> combination(r) == Ok::<(u32, u32, u32), ConfigErrorModel>(
            (a, b, to),
        ),
{
}

proof fn lemma_last_combination(rows: Seq<UnitMixModel>, k: int, a: u32, b: u32, to: u32)
    requires
        combinations(rows) is Ok,
        0 <= k < rows.len(),
        lets_combine(rows[k], a, b, to),
        forall|j: int, x: u32|
            k < j < rows.len() && rows[j].unit == rows[k].unit ==> !#[trigger] lets_combine(
                rows[j],
                a,
                b,
                x,
            ),
    ensures
        combinations(rows)->Ok_0.contains_key((rows[k].unit, a, b)),
        combinations(rows)->Ok_0[(rows[k].unit, a, b)] == to,
    decreases rows.len(),
{
    lemma_combination(rows[k], a, b, to);
    if k < rows.len() - 1 {
        let init = rows.drop_last();
        assert forall|j: int, x: u32|
            k < j < init.len() && init[j].unit == init[k].unit implies !#[trigger] lets_combine(
            init[j],
            a,
            b,
            x,
        ) by {
            assert(!lets_combine(rows[j], a, b, x));
        }
        lemma_last_combination(init, k, a, b, to);
        if let Ok((p, q, r)) = combination(rows.last()) {
            lemma_combination(rows.last(), p, q, r);
            if rows.last().unit == rows[k].unit && p == a && q == b {
                assert(!lets_combine(rows[rows.len() - 1], a, b, r));
            }
        }
    }
}

/// Nothing combines that no row lets combine.
pub proof fn only_rows_combine(
    c: ConfigModel,
    i: usize,
    l: LayoutModel,
    cat: Category,
    a: u32,
    b: u32,
)
    requires
        compiled(c, i) == Ok::<LayoutModel, ConfigErrorModel>(l),
        l.combine.contains_key((cat, a, b)),
    ensures
        exists|k: int|
            0 <= k < c.entries[i as int].unit_mix.len() && c.entries[i as int].unit_mix[k].unit
                == cat && #[trigger] lets_combine(
                c.entries[i as int].unit_mix[k],
                a,
                b,
                l.combine[(cat, a, b)],
            ),
{
    let rows = c.entries[i as int].unit_mix;
    let k = lemma_some_combination(rows, cat, a, b);
    assert(lets_combine(rows[k], a, b, l.combine[(cat, a, b)]));
}

proof fn lemma_some_combination(rows: Seq<UnitMixModel>, cat: Category, a: u32, b: u32) -> (k: int)
    requires
        combinations(rows) is Ok,
        combinations(rows)->Ok_0.contains_key((cat, a, b)),
    ensures
        0 <= k < rows.len(),
        rows[k].unit == cat,
        lets_combine(rows[k], a, b, combinations(rows)->Ok_0[(cat, a, b)]),
    decreases rows.len(),
{
    let (p, q, r) = combination(rows.last())->Ok_0;
    lemma_combination(rows.last(), p, q, r);
    if rows.last().unit == cat && p == a && q == b {
        rows.len() - 1
    } else {
        lemma_some_combination(rows.drop_last(), cat, a, b)
    }
}

/// An operand that stands for no letter, or as the second one for neither a letter nor the toggle,
/// is reported: in the first such row, the first operand before the third, and that before the
/// second.
pub proof fn bad_operands_are_reported(c: ConfigModel, i: usize, k: int)
    requires
        i < c.entries.len(),
        0 <= k < c.entries[i as int].unit_mix.len(),
        forall|j: int, a: u32, b: u32, to: u32|
            j == k ==> !#[trigger] lets_combine(c.entries[i as int].unit_mix[j], a, b, to),
        forall|j: int|
            0 <= j < k ==> exists|a: u32, b: u32, to: u32|
                #[trigger] lets_combine(#[trigger] c.entries[i as int].unit_mix[j], a, b, to),
    ensures
        ({
            let r = c.entries[i as int].unit_mix[k];
            let is_letter = |s: Seq<char>|
                unit_of_operand(s, Some(r.unit)) matches Some(Unit::Jamo(_));
            compiled(c, i) == Err::<LayoutModel, ConfigErrorModel>(
                ConfigErrorModel::BadUnit(
                    if !is_letter(r.a) {
                        r.a
                    } else if !is_letter(r.to) {
                        r.to
                    } else {
                        r.b
                    },
                ),
            )
        }),
{
    let rows = c.entries[i as int].unit_mix;
    assert(combination(rows[k]) is Err) by {
        if let Ok((a, b, to)) = combination(rows[k]) {
            lemma_combination(rows[k], a, b, to);
            assert(!lets_combine(rows[k], a, b, to));
        }
    }
    assert forall|j: int| 0 <= j < k implies combination(#[trigger] rows[j]) is Ok by {
        let (a, b, to) = choose|a: u32, b: u32, to: u32| #[trigger] lets_combine(rows[j], a, b, to);
        lemma_combination(rows[j], a, b, to);
    }
    lemma_first_bad(rows, k);
}

proof fn lemma_first_bad(rows: Seq<UnitMixModel>, k: int)
    requires
        0 <= k < rows.len(),
        combination(rows[k]) is Err,
        forall|j: int| 0 <= j < k ==> combination(#[trigger] rows[j]) is Ok,
    ensures
        combinations(rows) is Err,
        combinations(rows)->Err_0 == combination(rows[k])->Err_0,
    decreases rows.len(),
{
    let init = rows.drop_last();
    if k < rows.len() - 1 {
        assert forall|j: int| 0 <= j < k implies combination(#[trigger] init[j]) is Ok by {
            assert(combination(rows[j]) is Ok);
        }
        lemma_first_bad(init, k);
    } else {
        lemma_all_good(init);
    }
}

proof fn lemma_all_good(rows: Seq<UnitMixModel>)
    requires
        forall|j: int| 0 <= j < rows.len() ==> combination(#[trigger] rows[j]) is Ok,
    ensures
        combinations(rows) is Ok,
    decreases rows.len(),
{
    combinations_need_every_row(rows);
}

// ── virtual units ──────────────────────────────────────────────────────────────

/// Whether the row gives the virtual unit the letter.
pub open spec fn gives_letter(r: VirtualUnitModel, id: u32, j: Jamo) -> bool {
    r.from == id && unit_of_operand(r.to, Some(r.unit)) == Some(Unit::Jamo(j))
}

/// In a layout a virtual unit is the letter that the last row for it gives, and one without a row
/// is none.
pub proof fn the_last_row_gives_the_letter(c: ConfigModel, i: usize, l: LayoutModel, id: u32)
    requires
        compiled(c, i) == Ok::<LayoutModel, ConfigErrorModel>(l),
    ensures
        forall|k: int|
            0 <= k < c.entries[i as int].virtual_units.len() && (
            #[trigger] c.entries[i as int].virtual_units[k]).from == id && (forall|j: int|
                k < j < c.entries[i as int].virtual_units.len() ==> (
                #[trigger] c.entries[i as int].virtual_units[j]).from != id)
                ==> l.virtual_units.contains_key(id) && gives_letter(
                c.entries[i as int].virtual_units[k],
                id,
                l.virtual_units[id],
            ),
        (forall|k: int|
            0 <= k < c.entries[i as int].virtual_units.len() ==> (
            #[trigger] c.entries[i as int].virtual_units[k]).from != id)
            ==> !l.virtual_units.contains_key(id),
{
    let rows = c.entries[i as int].virtual_units;
    assert forall|k: int|
        0 <= k < rows.len() && (#[trigger] rows[k]).from == id && (forall|j: int|
            k < j < rows.len() ==> (#[trigger] rows[j]).from != id) implies l.virtual_units.contains_key(
        id,
    ) && gives_letter(rows[k], id, l.virtual_units[id]) by {
        lemma_last_letter(rows, id, k);
    }
    if forall|k: int| 0 <= k < rows.len() ==> (#[trigger] rows[k]).from != id {
        lemma_no_letter(rows, id);
    }
}

proof fn lemma_last_letter(rows: Seq<VirtualUnitModel>, id: u32, k: int)
    requires
        virtual_letters(rows) is Ok,
        0 <= k < rows.len(),
        rows[k].from == id,
        forall|j: int| k < j < rows.len() ==> (#[trigger] rows[j]).from != id,
    ensures
        virtual_letters(rows)->Ok_0.contains_key(id),
        gives_letter(rows[k], id, virtual_letters(rows)->Ok_0[id]),
    decreases rows.len(),
{
    if k < rows.len() - 1 {
        let init = rows.drop_last();
        assert forall|j: int| k < j < init.len() implies (#[trigger] init[j]).from != id by {
            assert(rows[j].from != id);
        }
        assert(rows[rows.len() - 1].from != id);
        lemma_last_letter(init, id, k);
    }
}

proof fn lemma_no_letter(rows: Seq<VirtualUnitModel>, id: u32)
    requires
        virtual_letters(rows) is Ok,
        forall|j: int| 0 <= j < rows.len() ==> (#[trigger] rows[j]).from != id,
    ensures
        !virtual_letters(rows)->Ok_0.contains_key(id),
    decreases rows.len(),
{
    if rows.len() > 0 {
        let init = rows.drop_last();
        assert forall|j: int| 0 <= j < init.len() implies (#[trigger] init[j]).from != id by {
            assert(rows[j].from != id);
        }
        assert(rows[rows.len() - 1].from != id);
        lemma_no_letter(init, id);
    }
}

// ── the automaton ──────────────────────────────────────────────────────────────

/// In a layout a state of the automaton has the expressions that the last row for it writes: the
/// first its value, the second its default. A state without a row is none.
pub proof fn the_last_row_makes_the_state(c: ConfigModel, i: usize, l: LayoutModel, s: i64)
    requires
        compiled(c, i) == Ok::<LayoutModel, ConfigErrorModel>(l),
    ensures
        forall|k: int|
            0 <= k < c.entries[i as int].automata.len() && (
            #[trigger] c.entries[i as int].automata[k]).state == s && (forall|j: int|
                k < j < c.entries[i as int].automata.len() ==> (
                #[trigger] c.entries[i as int].automata[j]).state != s)
                ==> l.automata.contains_key(s) && Ok::<ExprModel, ErrorModel>(l.automata[s].value)
                == parsed(c.entries[i as int].automata[k].value) && Ok::<ExprModel, ErrorModel>(
                l.automata[s].default,
            ) == parsed(c.entries[i as int].automata[k].default),
        (forall|k: int|
            0 <= k < c.entries[i as int].automata.len() ==> (
            #[trigger] c.entries[i as int].automata[k]).state != s)
            ==> !l.automata.contains_key(s),
{
    let rows = c.entries[i as int].automata;
    assert forall|k: int|
        0 <= k < rows.len() && (#[trigger] rows[k]).state == s && (forall|j: int|
            k < j < rows.len() ==> (#[trigger] rows[j]).state != s) implies l.automata.contains_key(s)
        && Ok::<ExprModel, ErrorModel>(l.automata[s].value) == parsed(rows[k].value) && Ok::<
        ExprModel,
        ErrorModel,
    >(l.automata[s].default) == parsed(rows[k].default) by {
        lemma_last_state(rows, s, k);
    }
    if forall|k: int| 0 <= k < rows.len() ==> (#[trigger] rows[k]).state != s {
        lemma_no_state(rows, s);
    }
}

proof fn lemma_last_state(rows: Seq<AutomataRowModel>, s: i64, k: int)
    requires
        states(rows) is Ok,
        0 <= k < rows.len(),
        rows[k].state == s,
        forall|j: int| k < j < rows.len() ==> (#[trigger] rows[j]).state != s,
    ensures
        states(rows)->Ok_0.contains_key(s),
        Ok::<ExprModel, ErrorModel>(states(rows)->Ok_0[s].value) == parsed(rows[k].value),
        Ok::<ExprModel, ErrorModel>(states(rows)->Ok_0[s].default) == parsed(rows[k].default),
    decreases rows.len(),
{
    if k < rows.len() - 1 {
        let init = rows.drop_last();
        assert forall|j: int| k < j < init.len() implies (#[trigger] init[j]).state != s by {
            assert(rows[j].state != s);
        }
        assert(rows[rows.len() - 1].state != s);
        lemma_last_state(init, s, k);
    }
}

proof fn lemma_no_state(rows: Seq<AutomataRowModel>, s: i64)
    requires
        states(rows) is Ok,
        forall|j: int| 0 <= j < rows.len() ==> (#[trigger] rows[j]).state != s,
    ensures
        !states(rows)->Ok_0.contains_key(s),
    decreases rows.len(),
{
    if rows.len() > 0 {
        let init = rows.drop_last();
        assert forall|j: int| 0 <= j < init.len() implies (#[trigger] init[j]).state != s by {
            assert(rows[j].state != s);
        }
        assert(rows[rows.len() - 1].state != s);
        lemma_no_state(init, s);
    }
}

/// The expression of a state that cannot be read is reported with the state's number, that of the
/// value first.
pub proof fn bad_states_are_reported(r: AutomataRowModel)
    ensures
        parsed(r.value) matches Err(e) ==> state_of(r) == Err::<StateModel, ConfigErrorModel>(
            ConfigErrorModel::AutomataExpr(r.state, e),
        ),
        parsed(r.value) is Ok ==> (parsed(r.default) matches Err(e) ==> state_of(r) == Err::<
            StateModel,
            ConfigErrorModel,
        >(ConfigErrorModel::AutomataExpr(r.state, e))),
{
}

/// The automaton starts in the state whose number the table gives, with white space around it or
/// not. Where it gives no number of 64 bits, that is zero.
pub proof fn the_automaton_starts_where_it_says(n: nat, before: Seq<char>, after: Seq<char>)
    requires
        all_space(before),
        all_space(after),
    ensures
        start_of(before + numeral(n, 10) + after) == (if n <= 0x7FFF_FFFF_FFFF_FFFF {
            n as i64
        } else {
            0
        }),
        start_of(before + (seq!['-'] + numeral(n, 10)) + after) == (if n <= 0x8000_0000_0000_0000 {
            (-(n as int)) as i64
        } else {
            0
        }),
        start_of(Seq::empty()) == 0,
{
    let d = numeral(n, 10);
    let m = seq!['-'] + d;
    integers_are_read_with_signs(n, 10, i64::MIN as int, i64::MAX as int);
    numerals_have_no_leading_zero(n, 10);
    assert('0' <= d[0] <= '9' && '0' <= d[d.len() - 1] <= '9');
    assert(m.last() == d.last());
    assert(m[0] == '-');
    trimming_finds_the_text(before, d, after);
    trimming_finds_the_text(before, m, after);
    assert(trimmed(Seq::empty()).len() == 0);
}

/// The rest of a layout is taken over: the keys with what they give, the name of the table, and
/// from the editor layer the letters alone and the shortcuts. There is a layout only for an entry.
pub proof fn layouts_take_over_the_rest(c: ConfigModel, i: usize)
    ensures
        i >= c.entries.len() ==> compiled(c, i) == Err::<LayoutModel, ConfigErrorModel>(
            ConfigErrorModel::NoEntry(i),
        ),
        compiled(c, i) matches Ok(l) ==> {
            &&& i < c.entries.len()
            &&& l.final_conv == c.editor.final_conv
            &&& l.shortcuts == c.editor.shortcuts
            &&& c.entries[i as int].key_table matches Some(t) ==> l.name == t.name && forall|k: u32|
                (#[trigger] l.keys.contains_key(k) <==> t.keys.contains_key(k)) && (
                t.keys.contains_key(k) ==> l.keys[k] == t.keys[k].expr)
            &&& c.entries[i as int].key_table is None ==> l.name.len() == 0 && forall|k: u32|
                !#[trigger] l.keys.contains_key(k)
        },
{
}

// ── the deleting key ───────────────────────────────────────────────────────────

/// The flags that name how much is taken away, with what they name.
pub open spec fn names_amount(flag: Seq<char>, u: BkspUnit) -> bool {
    match u {
        BkspUnit::LastKey => flag == "ByUnitStep"@ || flag == "0"@,
        BkspUnit::LowestLastKey => flag == "1"@,
        BkspUnit::LowestWhole => flag == "2"@,
        BkspUnit::Syllable => flag == "BySyllable"@ || flag == "3"@,
    }
}

proof fn lemma_flags_apart(flag: Seq<char>)
    ensures
        flag == "BkspAttach"@ ==> forall|u: BkspUnit| !#[trigger] names_amount(flag, u),
        forall|u: BkspUnit, v: BkspUnit|
            #[trigger] names_amount(flag, u) && #[trigger] names_amount(flag, v) ==> u == v,
{
    reveal_strlit("BkspAttach");
    reveal_strlit("ByUnitStep");
    reveal_strlit("BySyllable");
    reveal_strlit("0");
    reveal_strlit("1");
    reveal_strlit("2");
    reveal_strlit("3");
    assert("0"@[0] == '0' && "1"@[0] == '1' && "2"@[0] == '2' && "3"@[0] == '3');
    assert("BkspAttach"@[1] == 'k' && "ByUnitStep"@[1] == 'y' && "BySyllable"@[1] == 'y');
    assert("ByUnitStep"@[2] == 'U' && "BySyllable"@[2] == 'S');
}

/// Of the flags, with white space around them or not, `BkspAttach` anywhere lets the key take up
/// committed syllables.
pub proof fn any_flag_can_attach(flags: Seq<Seq<char>>)
    requires
        flags.len() > 0,
        forall|i: int| 0 <= i < flags.len() ==> is_without(#[trigger] flags[i], '|'),
    ensures
        bksp_value(with_between(flags, '|')).1 <==> exists|i: int|
            0 <= i < flags.len() && trimmed(#[trigger] flags[i]) == "BkspAttach"@,
{
    splitting_undoes_joining(flags, '|');
    lemma_attaches(flags);
}

proof fn lemma_attaches(flags: Seq<Seq<char>>)
    ensures
        with_flags(flags).1 <==> exists|i: int|
            0 <= i < flags.len() && trimmed(#[trigger] flags[i]) == "BkspAttach"@,
    decreases flags.len(),
{
    if flags.len() > 0 {
        let init = flags.drop_last();
        lemma_attaches(init);
        lemma_flags_apart(trimmed(flags.last()));
        if with_flags(init).1 {
            let i = choose|i: int|
                0 <= i < init.len() && trimmed(#[trigger] init[i]) == "BkspAttach"@;
            assert(trimmed(flags[i]) == "BkspAttach"@);
        } else {
            assert forall|i: int| 0 <= i < init.len() implies trimmed(#[trigger] flags[i])
                != "BkspAttach"@ by {
                assert(trimmed(init[i]) != "BkspAttach"@);
            }
        }
        if trimmed(flags.last()) == "BkspAttach"@ {
            assert(trimmed(flags[flags.len() - 1]) == "BkspAttach"@);
        }
    }
}

/// Of the flags the last that names how much is taken away counts. Where none does, the last key
/// is taken away.
pub proof fn the_last_amount_counts(flags: Seq<Seq<char>>, k: int, u: BkspUnit)
    requires
        0 <= k < flags.len(),
        forall|i: int| 0 <= i < flags.len() ==> is_without(#[trigger] flags[i], '|'),
        forall|i: int, v: BkspUnit|
            k < i < flags.len() ==> !#[trigger] names_amount(trimmed(flags[i]), v),
    ensures
        names_amount(trimmed(flags[k]), u) ==> bksp_value(with_between(flags, '|')).0 == u,
        k == 0 && (forall|v: BkspUnit| !#[trigger] names_amount(trimmed(flags[0]), v))
            ==> bksp_value(with_between(flags, '|')).0 == BkspUnit::LastKey,
{
    splitting_undoes_joining(flags, '|');
    lemma_amount(flags, k, u);
}

proof fn lemma_amount(flags: Seq<Seq<char>>, k: int, u: BkspUnit)
    requires
        0 <= k < flags.len(),
        forall|i: int, v: BkspUnit|
            k < i < flags.len() ==> !#[trigger] names_amount(trimmed(flags[i]), v),
    ensures
        names_amount(trimmed(flags[k]), u) ==> with_flags(flags).0 == u,
        k == 0 && (forall|v: BkspUnit| !#[trigger] names_amount(trimmed(flags[0]), v))
            ==> with_flags(flags).0 == BkspUnit::LastKey,
    decreases flags.len(),
{
    let init = flags.drop_last();
    let last = trimmed(flags.last());
    lemma_flags_apart(last);
    lemma_one_flag(with_flags(init), last);
    if k < flags.len() - 1 {
        assert forall|i: int, v: BkspUnit| k < i < init.len() implies !#[trigger] names_amount(
            trimmed(init[i]),
            v,
        ) by {
            assert(!names_amount(trimmed(flags[i]), v));
        }
        lemma_amount(init, k, u);
        assert forall|v: BkspUnit| !#[trigger] names_amount(last, v) by {
            assert(!names_amount(trimmed(flags[flags.len() - 1]), v));
        }
    } else if k == 0 {
        assert(with_flags(init).0 == BkspUnit::LastKey);
    }
}

proof fn lemma_one_flag(v: (BkspUnit, bool), flag: Seq<char>)
    ensures
        forall|u: BkspUnit| #[trigger] names_amount(flag, u) ==> with_flag(v, flag).0 == u,
        (forall|u: BkspUnit| !#[trigger] names_amount(flag, u)) ==> with_flag(v, flag).0 == v.0,
{
    lemma_flags_apart(flag);
    assert(names_amount(flag, BkspUnit::LastKey) || names_amount(flag, BkspUnit::LowestLastKey)
        || names_amount(flag, BkspUnit::LowestWhole) || names_amount(flag, BkspUnit::Syllable)
        || with_flag(v, flag).0 == v.0);
}

/// The deleting key does what the first row for key 1 says: its first value for a syllable that is
/// being composed, its second where there is none; either lets it take up committed syllables.
/// Where there is no such row, it takes away the last key and takes up nothing.
pub proof fn the_first_row_for_the_key_counts(c: ConfigModel, i: usize, l: LayoutModel, k: int)
    requires
        compiled(c, i) == Ok::<LayoutModel, ConfigErrorModel>(l),
        0 <= k <= c.entries[i as int].bksp.len(),
        forall|j: int| 0 <= j < k ==> (#[trigger] c.entries[i as int].bksp[j]).key != 1,
        k < c.entries[i as int].bksp.len() ==> c.entries[i as int].bksp[k].key == 1,
    ensures
        k < c.entries[i as int].bksp.len() ==> {
            let b = c.entries[i as int].bksp[k];
            &&& l.bksp.composing == bksp_value(b.value1).0
            &&& l.bksp.idle == bksp_value(b.value2).0
            &&& l.bksp.attach <==> bksp_value(b.value1).1 || bksp_value(b.value2).1
        },
        k == c.entries[i as int].bksp.len() ==> {
            &&& l.bksp.composing == BkspUnit::LastKey
            &&& l.bksp.idle == BkspUnit::LastKey
            &&& !l.bksp.attach
        },
{
    lemma_first_row(c.entries[i as int].bksp, k);
}

proof fn lemma_first_row(rows: Seq<BkspModel>, k: int)
    requires
        0 <= k <= rows.len(),
        forall|j: int| 0 <= j < k ==> (#[trigger] rows[j]).key != 1,
        k < rows.len() ==> rows[k].key == 1,
    ensures
        k < rows.len() ==> behavior(rows) == behavior(seq![rows[k]]),
        k == rows.len() ==> behavior(rows) == behavior(Seq::empty()),
    decreases k,
{
    if k > 0 {
        assert(rows[0].key != 1);
        let rest = rows.skip(1);
        assert forall|j: int| 0 <= j < k - 1 implies (#[trigger] rest[j]).key != 1 by {
            assert(rows[j + 1].key != 1);
        }
        lemma_first_row(rest, k - 1);
    } else if rows.len() == 0 {
        assert(rows =~= Seq::empty());
    }
}

// ── entries that compose ───────────────────────────────────────────────────────

/// An entry counts as one for Hangul exactly where the name of its generator begins with `CNgsIme`,
/// whatever follows, and it has a table of keys.
pub proof fn hangul_entries_are_known_by_their_generator(e: EntryModel)
    ensures
        is_hangul_entry(e) <==> e.key_table is Some && exists|rest: Seq<char>|
            e.generator_object == #[trigger] ("CNgsIme"@ + rest),
{
    beginnings_have_a_rest(e.generator_object, "CNgsIme"@);
}

} // verus!
