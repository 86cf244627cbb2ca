//! From an input entry of the settings to a layout.

use std::collections::HashMap;

use vstd::prelude::*;

use super::{
    shortcut_views, string_views, AutomataRow, AutomataRowModel, AutomataState, Bksp, BkspBehavior,
    BkspModel, BkspUnit, CombineTable, Config, ConfigError, ConfigErrorModel, ConfigModel,
    EntryModel, KeyDefModel, KeyTable, Layout, LayoutModel, Shortcut, StateModel, UnitMix,
    UnitMixModel, VirtualUnit, VirtualUnitModel,
};
use crate::expr::parser::parsed;
use crate::expr::{Expr, ExprModel};
use crate::text::{
    chars_of, integer, parse_i64, same_chars, split, split_at_each, trim, trimmed, views,
};
use crate::unit::{resolve_operand, unit_of_operand, Category, Jamo, Unit, TOGGLE};

verus! {

broadcast use vstd::std_specs::hash::group_hash_axioms;

// ── letters ────────────────────────────────────────────────────────────────────

/// The letter that an operand stands for.
pub open spec fn letter_for(s: Seq<char>, cat: Category) -> Result<Jamo, ConfigErrorModel> {
    match unit_of_operand(s, Some(cat)) {
        Some(Unit::Jamo(j)) => Ok(j),
        _ => Err(ConfigErrorModel::BadUnit(s)),
    }
}

fn resolve_jamo(s: &String, cat: Category) -> (r: Result<Jamo, ConfigError>)
    ensures
        match r {
            Ok(j) => letter_for(s@, cat) == Ok::<Jamo, ConfigErrorModel>(j),
            Err(e) => letter_for(s@, cat) == Err::<Jamo, ConfigErrorModel>(e@),
        },
{
    match resolve_operand(s.as_str(), Some(cat)) {
        Some(Unit::Jamo(j)) => Ok(j),
        _ => Err(ConfigError::BadUnit(s.clone())),
    }
}

/// The number that the second operand of a combination stands for: a letter or the toggle.
pub open spec fn partner_for(s: Seq<char>, cat: Category) -> Result<u32, ConfigErrorModel> {
    match unit_of_operand(s, Some(cat)) {
        Some(Unit::Toggle) => Ok(TOGGLE),
        Some(Unit::Jamo(j)) => Ok(j.cp),
        _ => Err(ConfigErrorModel::BadUnit(s)),
    }
}

fn resolve_partner(s: &String, cat: Category) -> (r: Result<u32, ConfigError>)
    ensures
        match r {
            Ok(n) => partner_for(s@, cat) == Ok::<u32, ConfigErrorModel>(n),
            Err(e) => partner_for(s@, cat) == Err::<u32, ConfigErrorModel>(e@),
        },
{
    match resolve_operand(s.as_str(), Some(cat)) {
        Some(Unit::Toggle) => Ok(TOGGLE),
        Some(Unit::Jamo(j)) => Ok(j.cp),
        _ => Err(ConfigError::BadUnit(s.clone())),
    }
}

// ── tables ─────────────────────────────────────────────────────────────────────

/// The combination of one row: its two parts and its result.
pub open spec fn combination(m: UnitMixModel) -> Result<(u32, u32, u32), ConfigErrorModel> {
    match letter_for(m.a, m.unit) {
        Err(e) => Err(e),
        Ok(a) => match letter_for(m.to, m.unit) {
            Err(e) => Err(e),
            Ok(to) => match partner_for(m.b, m.unit) {
                Err(e) => Err(e),
                Ok(b) => Ok((a.cp, b, to.cp)),
            },
        },
    }
}

/// The combinations of all rows. A later row overrides an earlier one with the same parts.
pub open spec fn combinations(rows: Seq<UnitMixModel>) -> Result<
    Map<(Category, u32, u32), u32>,
    ConfigErrorModel,
>
    decreases rows.len(),
{
    if rows.len() == 0 {
        Ok(Map::empty())
    } else {
        match combinations(rows.drop_last()) {
            Err(e) => Err(e),
            Ok(m) => match combination(rows.last()) {
                Err(e) => Err(e),
                Ok((a, b, to)) => Ok(m.insert((rows.last().unit, a, b), to)),
            },
        }
    }
}

/// The letters behind the virtual units of all rows. A later row overrides an earlier one.
pub open spec fn virtual_letters(rows: Seq<VirtualUnitModel>) -> Result<
    Map<u32, Jamo>,
    ConfigErrorModel,
>
    decreases rows.len(),
{
    if rows.len() == 0 {
        Ok(Map::empty())
    } else {
        match virtual_letters(rows.drop_last()) {
            Err(e) => Err(e),
            Ok(m) => match letter_for(rows.last().to, rows.last().unit) {
                Err(e) => Err(e),
                Ok(j) => Ok(m.insert(rows.last().from, j)),
            },
        }
    }
}

/// The expressions of one automaton state.
pub open spec fn state_of(r: AutomataRowModel) -> Result<StateModel, ConfigErrorModel> {
    match parsed(r.value) {
        Err(e) => Err(ConfigErrorModel::AutomataExpr(r.state, e)),
        Ok(value) => match parsed(r.default) {
            Err(e) => Err(ConfigErrorModel::AutomataExpr(r.state, e)),
            Ok(default) => Ok(StateModel { value, default }),
        },
    }
}

/// The states of all rows. A later row overrides an earlier one.
pub open spec fn states(rows: Seq<AutomataRowModel>) -> Result<
    Map<i64, StateModel>,
    ConfigErrorModel,
>
    decreases rows.len(),
{
    if rows.len() == 0 {
        Ok(Map::empty())
    } else {
        match states(rows.drop_last()) {
            Err(e) => Err(e),
            Ok(m) => match state_of(rows.last()) {
                Err(e) => Err(e),
                Ok(s) => Ok(m.insert(rows.last().state, s)),
            },
        }
    }
}

/// The starting state: the integer that the text writes, else zero.
pub open spec fn start_of(s: Seq<char>) -> i64 {
    match integer(trimmed(s), 10, i64::MIN as int, i64::MAX as int) {
        Some(n) => n as i64,
        None => 0,
    }
}

// ── the deleting key ───────────────────────────────────────────────────────────

/// What one flag says of the deleting key: how much it takes away, or that it takes up a
/// committed syllable again. Anything else says nothing.
pub open spec fn with_flag(v: (BkspUnit, bool), flag: Seq<char>) -> (BkspUnit, bool) {
    if flag == "BkspAttach"@ {
        (v.0, true)
    } else if flag == "ByUnitStep"@ || flag == "0"@ {
        (BkspUnit::LastKey, v.1)
    } else if flag == "1"@ {
        (BkspUnit::LowestLastKey, v.1)
    } else if flag == "2"@ {
        (BkspUnit::LowestWhole, v.1)
    } else if flag == "BySyllable"@ || flag == "3"@ {
        (BkspUnit::Syllable, v.1)
    } else {
        v
    }
}

/// What the flags say of the deleting key, taken in turn.
pub open spec fn with_flags(flags: Seq<Seq<char>>) -> (BkspUnit, bool)
    decreases flags.len(),
{
    if flags.len() == 0 {
        (BkspUnit::LastKey, false)
    } else {
        with_flag(with_flags(flags.drop_last()), trimmed(flags.last()))
    }
}

/// What a text of flags, separated by bars, says of the deleting key.
pub open spec fn bksp_value(s: Seq<char>) -> (BkspUnit, bool) {
    with_flags(split(s, '|'))
}

fn apply_flag(unit: BkspUnit, attach: bool, flag: &Vec<char>) -> (r: (BkspUnit, bool))
    ensures
        r == with_flag((unit, attach), flag@),
{
    if same_chars(flag, &chars_of("BkspAttach")) {
        (unit, true)
    } else if same_chars(flag, &chars_of("ByUnitStep")) || same_chars(flag, &chars_of("0")) {
        (BkspUnit::LastKey, attach)
    } else if same_chars(flag, &chars_of("1")) {
        (BkspUnit::LowestLastKey, attach)
    } else if same_chars(flag, &chars_of("2")) {
        (BkspUnit::LowestWhole, attach)
    } else if same_chars(flag, &chars_of("BySyllable")) || same_chars(flag, &chars_of("3")) {
        (BkspUnit::Syllable, attach)
    } else {
        (unit, attach)
    }
}

/// Reads what a text of flags says of the deleting key.
pub fn parse_bksp_value(s: &str) -> (r: (BkspUnit, bool))
    ensures
        r == bksp_value(s@),
{
    let parts = split_at_each(&chars_of(s), '|');
    let ghost all = split(s@, '|');
    let mut unit = BkspUnit::LastKey;
    let mut attach = false;
    let mut i: usize = 0;
    while i < parts.len()
        invariant
            i <= parts@.len(),
            views(parts@) == all,
            (unit, attach) == with_flags(all.take(i as int)),
        decreases parts@.len() - i,
    {
        proof {
            assert(all.take(i as int + 1).drop_last() =~= all.take(i as int));
            assert(all[i as int] == parts@[i as int]@);
        }
        let (u, a) = apply_flag(unit, attach, &trim(&parts[i]));
        unit = u;
        attach = a;
        i = i + 1;
    }
    proof {
        assert(all.take(all.len() as int) =~= all);
    }
    (unit, attach)
}

/// What the row of the deleting key says: its first value for a syllable that is being composed,
/// its second where there is none. Either can let it take up a committed syllable again.
pub open spec fn behavior_of(b: BkspModel) -> BkspBehavior {
    BkspBehavior {
        composing: bksp_value(b.value1).0,
        idle: bksp_value(b.value2).0,
        attach: bksp_value(b.value1).1 || bksp_value(b.value2).1,
    }
}

/// What the rows say of the deleting key: the first row for key 1 counts.
pub open spec fn behavior(rows: Seq<BkspModel>) -> BkspBehavior
    decreases rows.len(),
{
    if rows.len() == 0 {
        BkspBehavior { composing: BkspUnit::LastKey, idle: BkspUnit::LastKey, attach: false }
    } else if rows[0].key == 1 {
        behavior_of(rows[0])
    } else {
        behavior(rows.skip(1))
    }
}

// ── layouts ────────────────────────────────────────────────────────────────────

/// The expressions of the keys.
pub open spec fn key_exprs(e: EntryModel) -> Map<u32, ExprModel> {
    match e.key_table {
        Some(t) => t.keys.map_values(|k: KeyDefModel| k.expr),
        None => Map::empty(),
    }
}

/// The layout that an entry makes. Of several faults, the first in the combinations counts, then
/// in the virtual units, then in the automaton.
pub open spec fn layout_of(c: ConfigModel, e: EntryModel) -> Result<LayoutModel, ConfigErrorModel> {
    match combinations(e.unit_mix) {
        Err(x) => Err(x),
        Ok(combine) => match virtual_letters(e.virtual_units) {
            Err(x) => Err(x),
            Ok(virtual_units) => match states(e.automata) {
                Err(x) => Err(x),
                Ok(automata) => Ok(
                    LayoutModel {
                        name: match e.key_table {
                            Some(t) => t.name,
                            None => Seq::empty(),
                        },
                        keys: key_exprs(e),
                        combine,
                        virtual_units,
                        final_conv: c.editor.final_conv,
                        shortcuts: c.editor.shortcuts,
                        automata,
                        automata_start: start_of(e.automata_default),
                        bksp: behavior(e.bksp),
                    },
                ),
            },
        },
    }
}

/// The layout of the entry with the given index.
pub open spec fn compiled(c: ConfigModel, i: usize) -> Result<LayoutModel, ConfigErrorModel> {
    if i < c.entries.len() {
        layout_of(c, c.entries[i as int])
    } else {
        Err(ConfigErrorModel::NoEntry(i))
    }
}

/// The combinations can be made exactly if every row can, and then every row is among them.
pub proof fn combinations_need_every_row(rows: Seq<UnitMixModel>)
    ensures
        combinations(rows) is Ok <==> forall|i: int|
            0 <= i < rows.len() ==> combination(#[trigger] rows[i]) is Ok,
        combinations(rows) matches Ok(m) ==> forall|i: int|
            0 <= i < rows.len() ==> (combination(#[trigger] rows[i]) matches Ok((a, b, _))
                && m.contains_key((rows[i].unit, a, b))),
    decreases rows.len(),
{
    if rows.len() > 0 {
        let init = rows.drop_last();
        combinations_need_every_row(init);
        assert forall|i: int| 0 <= i < init.len() implies init[i] == #[trigger] rows[i] by {}
        if combinations(init) is Err {
            let i = choose|i: int| 0 <= i < init.len() && combination(#[trigger] init[i]) is Err;
            assert(combination(rows[i]) is Err);
        } else if combination(rows.last()) is Ok {
            assert forall|i: int| 0 <= i < rows.len() implies combination(
                #[trigger] rows[i],
            ) is Ok by {
                if i < init.len() {
                    assert(combination(init[i]) is Ok);
                }
            }
            assert forall|i: int| 0 <= i < rows.len() implies (combination(
                #[trigger] rows[i],
            ) matches Ok((a, b, _)) && combinations(rows)->Ok_0.contains_key(
                (rows[i].unit, a, b),
            )) by {
                if i < init.len() {
                    assert(combination(init[i]) is Ok);
                }
            }
        } else {
            assert(combination(rows[rows.len() - 1]) is Err);
        }
    }
}

/// The virtual units can be made exactly if every row can.
pub proof fn virtual_letters_need_every_row(rows: Seq<VirtualUnitModel>)
    ensures
        virtual_letters(rows) is Ok <==> forall|i: int|
            0 <= i < rows.len() ==> letter_for((#[trigger] rows[i]).to, rows[i].unit) is Ok,
    decreases rows.len(),
{
    if rows.len() > 0 {
        let init = rows.drop_last();
        virtual_letters_need_every_row(init);
        assert forall|i: int| 0 <= i < init.len() implies init[i] == #[trigger] rows[i] by {}
        if virtual_letters(init) is Err {
            let i = choose|i: int|
                0 <= i < init.len() && letter_for((#[trigger] init[i]).to, init[i].unit) is Err;
            assert(letter_for(rows[i].to, rows[i].unit) is Err);
        } else if letter_for(rows.last().to, rows.last().unit) is Ok {
            assert forall|i: int| 0 <= i < rows.len() implies letter_for(
                (#[trigger] rows[i]).to,
                rows[i].unit,
            ) is Ok by {
                if i < init.len() {
                    assert(letter_for(init[i].to, init[i].unit) is Ok);
                }
            }
        } else {
            let n = rows.len() - 1;
            assert(letter_for(rows[n].to, rows[n].unit) is Err);
        }
    }
}

/// The automaton can be made exactly if every row can.
pub proof fn states_need_every_row(rows: Seq<AutomataRowModel>)
    ensures
        states(rows) is Ok <==> forall|i: int|
            0 <= i < rows.len() ==> state_of(#[trigger] rows[i]) is Ok,
    decreases rows.len(),
{
    if rows.len() > 0 {
        let init = rows.drop_last();
        states_need_every_row(init);
        assert forall|i: int| 0 <= i < init.len() implies init[i] == #[trigger] rows[i] by {}
        if states(init) is Err {
            let i = choose|i: int| 0 <= i < init.len() && state_of(#[trigger] init[i]) is Err;
            assert(state_of(rows[i]) is Err);
        } else if state_of(rows.last()) is Ok {
            assert forall|i: int| 0 <= i < rows.len() implies state_of(#[trigger] rows[i]) is Ok by {
                if i < init.len() {
                    assert(state_of(init[i]) is Ok);
                }
            }
        } else {
            assert(state_of(rows[rows.len() - 1]) is Err);
        }
    }
}

/// An entry can be compiled exactly if it is there and every row of its three tables can be.
pub proof fn entries_compile_if_their_rows_do(c: ConfigModel, i: usize)
    ensures
        compiled(c, i) is Ok <==> i < c.entries.len() && {
            let e = c.entries[i as int];
            &&& forall|k: int|
                0 <= k < e.unit_mix.len() ==> combination(#[trigger] e.unit_mix[k]) is Ok
            &&& forall|k: int|
                0 <= k < e.virtual_units.len() ==> letter_for(
                    (#[trigger] e.virtual_units[k]).to,
                    e.virtual_units[k].unit,
                ) is Ok
            &&& forall|k: int| 0 <= k < e.automata.len() ==> state_of(#[trigger] e.automata[k]) is Ok
        },
{
    if i < c.entries.len() {
        let e = c.entries[i as int];
        combinations_need_every_row(e.unit_mix);
        virtual_letters_need_every_row(e.virtual_units);
        states_need_every_row(e.automata);
    }
}

fn compile_combinations(rows: &Vec<UnitMix>) -> (r: Result<CombineTable, ConfigError>)
    ensures
        ({
            let m = combinations(rows@.map_values(|m: UnitMix| m@));
            match r {
                Ok(t) => m == Ok::<Map<(Category, u32, u32), u32>, ConfigErrorModel>(t@),
                Err(e) => m == Err::<Map<(Category, u32, u32), u32>, ConfigErrorModel>(e@),
            }
        }),
{
    let ghost all = rows@.map_values(|m: UnitMix| m@);
    let mut t = CombineTable::new();
    let mut i: usize = 0;
    while i < rows.len()
        invariant
            i <= rows@.len(),
            all == rows@.map_values(|m: UnitMix| m@),
            combinations(all.take(i as int)) == Ok::<
                Map<(Category, u32, u32), u32>,
                ConfigErrorModel,
            >(t@),
        decreases rows@.len() - i,
    {
        let m = &rows[i];
        proof {
            assert(all.take(i as int + 1).drop_last() =~= all.take(i as int));
            assert(all[i as int] == m@);
            if combination(m@) is Err {
                lemma_combinations_fail(all, i as int);
            }
        }
        let a = match resolve_jamo(&m.a, m.unit) {
            Ok(j) => j,
            Err(e) => return Err(e),
        };
        let to = match resolve_jamo(&m.to, m.unit) {
            Ok(j) => j,
            Err(e) => return Err(e),
        };
        let b: u32 = match resolve_partner(&m.b, m.unit) {
            Ok(n) => n,
            Err(e) => return Err(e),
        };
        t.insert(m.unit, a.cp, b, to.cp);
        i = i + 1;
    }
    proof {
        assert(all.take(all.len() as int) =~= all);
    }
    Ok(t)
}

proof fn lemma_combinations_fail(rows: Seq<UnitMixModel>, i: int)
    requires
        0 <= i < rows.len(),
        combinations(rows.take(i)) is Ok,
        combination(rows[i]) is Err,
    ensures
        combinations(rows) == Err::<Map<(Category, u32, u32), u32>, ConfigErrorModel>(
            combination(rows[i])->Err_0,
        ),
    decreases rows.len(),
{
    if i == rows.len() - 1 {
        assert(rows.take(i) =~= rows.drop_last());
    } else {
        assert(rows.drop_last().take(i) =~= rows.take(i));
        lemma_combinations_fail(rows.drop_last(), i);
    }
}

fn compile_virtual_units(rows: &Vec<VirtualUnit>) -> (r: Result<HashMap<u32, Jamo>, ConfigError>)
    ensures
        ({
            let m = virtual_letters(rows@.map_values(|v: VirtualUnit| v@));
            match r {
                Ok(t) => m == Ok::<Map<u32, Jamo>, ConfigErrorModel>(t@),
                Err(e) => m == Err::<Map<u32, Jamo>, ConfigErrorModel>(e@),
            }
        }),
{
    let ghost all = rows@.map_values(|v: VirtualUnit| v@);
    let mut t: HashMap<u32, Jamo> = HashMap::new();
    let mut i: usize = 0;
    while i < rows.len()
        invariant
            i <= rows@.len(),
            all == rows@.map_values(|v: VirtualUnit| v@),
            virtual_letters(all.take(i as int)) == Ok::<Map<u32, Jamo>, ConfigErrorModel>(t@),
        decreases rows@.len() - i,
    {
        let v = &rows[i];
        proof {
            assert(all.take(i as int + 1).drop_last() =~= all.take(i as int));
            assert(all[i as int] == v@);
        }
        match resolve_jamo(&v.to, v.unit) {
            Ok(j) => {
                t.insert(v.from, j);
            },
            Err(e) => {
                proof {
                    lemma_virtual_letters_fail(all, i as int);
                }
                return Err(e);
            },
        }
        i = i + 1;
    }
    proof {
        assert(all.take(all.len() as int) =~= all);
    }
    Ok(t)
}

proof fn lemma_virtual_letters_fail(rows: Seq<VirtualUnitModel>, i: int)
    requires
        0 <= i < rows.len(),
        virtual_letters(rows.take(i)) is Ok,
        letter_for(rows[i].to, rows[i].unit) is Err,
    ensures
        virtual_letters(rows) == Err::<Map<u32, Jamo>, ConfigErrorModel>(
            letter_for(rows[i].to, rows[i].unit)->Err_0,
        ),
    decreases rows.len(),
{
    if i == rows.len() - 1 {
        assert(rows.take(i) =~= rows.drop_last());
    } else {
        assert(rows.drop_last().take(i) =~= rows.take(i));
        lemma_virtual_letters_fail(rows.drop_last(), i);
    }
}

fn compile_state(row: &AutomataRow) -> (r: Result<AutomataState, ConfigError>)
    ensures
        match r {
            Ok(s) => state_of(row@) == Ok::<StateModel, ConfigErrorModel>(s@),
            Err(e) => state_of(row@) == Err::<StateModel, ConfigErrorModel>(e@),
        },
{
    let value = match Expr::parse(row.value.as_str()) {
        Ok(e) => e,
        Err(source) => return Err(ConfigError::AutomataExpr { state: row.state, source }),
    };
    let default = match Expr::parse(row.default.as_str()) {
        Ok(e) => e,
        Err(source) => return Err(ConfigError::AutomataExpr { state: row.state, source }),
    };
    Ok(AutomataState { value, default })
}

fn compile_automata(rows: &Vec<AutomataRow>) -> (r: Result<
    HashMap<i64, AutomataState>,
    ConfigError,
>)
    ensures
        ({
            let m = states(rows@.map_values(|r: AutomataRow| r@));
            match r {
                Ok(t) => m == Ok::<Map<i64, StateModel>, ConfigErrorModel>(
                    t@.map_values(|s: AutomataState| s@),
                ),
                Err(e) => m == Err::<Map<i64, StateModel>, ConfigErrorModel>(e@),
            }
        }),
{
    let ghost all = rows@.map_values(|r: AutomataRow| r@);
    let mut t: HashMap<i64, AutomataState> = HashMap::new();
    let mut i: usize = 0;
    proof {
        assert(t@.map_values(|s: AutomataState| s@) =~= Map::<i64, StateModel>::empty());
    }
    while i < rows.len()
        invariant
            i <= rows@.len(),
            all == rows@.map_values(|r: AutomataRow| r@),
            states(all.take(i as int)) == Ok::<Map<i64, StateModel>, ConfigErrorModel>(
                t@.map_values(|s: AutomataState| s@),
            ),
        decreases rows@.len() - i,
    {
        let row = &rows[i];
        proof {
            assert(all.take(i as int + 1).drop_last() =~= all.take(i as int));
            assert(all[i as int] == row@);
        }
        match compile_state(row) {
            Ok(s) => {
                let ghost before = t@;
                let ghost model = s@;
                t.insert(row.state, s);
                proof {
                    assert(t@.map_values(|s: AutomataState| s@) =~= before.map_values(
                        |s: AutomataState| s@,
                    ).insert(row.state, model));
                }
            },
            Err(e) => {
                proof {
                    lemma_states_fail(all, i as int);
                }
                return Err(e);
            },
        }
        i = i + 1;
    }
    proof {
        assert(all.take(all.len() as int) =~= all);
    }
    Ok(t)
}

proof fn lemma_states_fail(rows: Seq<AutomataRowModel>, i: int)
    requires
        0 <= i < rows.len(),
        states(rows.take(i)) is Ok,
        state_of(rows[i]) is Err,
    ensures
        states(rows) == Err::<Map<i64, StateModel>, ConfigErrorModel>(state_of(rows[i])->Err_0),
    decreases rows.len(),
{
    if i == rows.len() - 1 {
        assert(rows.take(i) =~= rows.drop_last());
    } else {
        assert(rows.drop_last().take(i) =~= rows.take(i));
        lemma_states_fail(rows.drop_last(), i);
    }
}

fn compile_bksp(rows: &Vec<Bksp>) -> (r: BkspBehavior)
    ensures
        r == behavior(rows@.map_values(|b: Bksp| b@)),
{
    let ghost all = rows@.map_values(|b: Bksp| b@);
    let mut i: usize = 0;
    proof {
        assert(all.skip(0) =~= all);
    }
    while i < rows.len()
        invariant
            i <= rows@.len(),
            all == rows@.map_values(|b: Bksp| b@),
            behavior(all) == behavior(all.skip(i as int)),
        decreases rows@.len() - i,
    {
        let b = &rows[i];
        proof {
            assert(all.skip(i as int)[0] == b@);
            assert(all.skip(i as int).skip(1) =~= all.skip(i as int + 1));
        }
        if b.key == 1 {
            let (composing, attach1) = parse_bksp_value(b.value1.as_str());
            let (idle, attach2) = parse_bksp_value(b.value2.as_str());
            return BkspBehavior { composing, idle, attach: attach1 || attach2 };
        }
        i = i + 1;
    }
    Default::default()
}

fn compile_keys(t: &KeyTable) -> (r: HashMap<u32, Expr>)
    ensures
        r@.map_values(|e: Expr| e@) == t@.keys.map_values(|k: KeyDefModel| k.expr),
{
    let ghost all = t.keys@;
    let mut r: HashMap<u32, Expr> = HashMap::new();
    for (at, def) in it: t.keys.iter()
        invariant
            all == t.keys@,
            it.seq().len() == all.dom().len(),
            forall|i: int|
                0 <= i < it.seq().len() ==> all.contains_key(*(#[trigger] it.seq()[i]).0)
                    && all[*it.seq()[i].0] == *it.seq()[i].1,
            forall|k: u32| #[trigger] all.contains_key(k) ==> it.seq().contains((&k, &all[k])),
            forall|k: u32| #[trigger]
                r@.contains_key(k) ==> all.contains_key(k) && r@[k]@ == all[k].expr@,
            forall|i: int| 0 <= i < it.index() ==> r@.contains_key(*(#[trigger] it.seq()[i]).0),
    {
        r.insert(*at, def.expr.clone());
    }
    proof {
        assert forall|k: u32| all.contains_key(k) implies r@.contains_key(k) by {
        }
        assert(r@.map_values(|e: Expr| e@) =~= t@.keys.map_values(|k: KeyDefModel| k.expr));
    }
    r
}

fn copy_strings(v: &Vec<String>) -> (r: Vec<String>)
    ensures
        string_views(r@) == string_views(v@),
{
    let mut r: Vec<String> = Vec::new();
    let mut i: usize = 0;
    while i < v.len()
        invariant
            i <= v@.len(),
            string_views(r@) == string_views(v@).take(i as int),
        decreases v@.len() - i,
    {
        let ghost before = r@;
        r.push(v[i].clone());
        proof {
            let all = string_views(v@);
            assert(string_views(r@) =~= string_views(before).push(all[i as int]));
            assert(all.take(i as int + 1) =~= all.take(i as int).push(all[i as int]));
        }
        i = i + 1;
    }
    proof {
        assert(string_views(v@).take(v@.len() as int) =~= string_views(v@));
    }
    r
}

impl Clone for Shortcut {
    fn clone(&self) -> (r: Shortcut)
        ensures
            r@ == self@,
    {
        Shortcut {
            key: self.key.clone(),
            modifier: copy_strings(&self.modifier),
            usage: self.usage.clone(),
            value: self.value.clone(),
        }
    }
}

fn copy_shortcuts(v: &Vec<Shortcut>) -> (r: Vec<Shortcut>)
    ensures
        shortcut_views(r@) == shortcut_views(v@),
{
    let mut r: Vec<Shortcut> = Vec::new();
    let mut i: usize = 0;
    while i < v.len()
        invariant
            i <= v@.len(),
            shortcut_views(r@) == shortcut_views(v@).take(i as int),
        decreases v@.len() - i,
    {
        let ghost before = r@;
        r.push(v[i].clone());
        proof {
            let all = shortcut_views(v@);
            assert(shortcut_views(r@) =~= shortcut_views(before).push(all[i as int]));
            assert(all.take(i as int + 1) =~= all.take(i as int).push(all[i as int]));
        }
        i = i + 1;
    }
    proof {
        assert(shortcut_views(v@).take(v@.len() as int) =~= shortcut_views(v@));
    }
    r
}

impl Config {
    /// Makes the layout of the entry with the given index.
    pub fn compile(&self, entry_idx: usize) -> (r: Result<Layout, ConfigError>)
        ensures
            match r {
                Ok(l) => compiled(self@, entry_idx) == Ok::<LayoutModel, ConfigErrorModel>(l@),
                Err(e) => compiled(self@, entry_idx) == Err::<LayoutModel, ConfigErrorModel>(e@),
            },
    {
        if entry_idx >= self.entries.len() {
            return Err(ConfigError::NoEntry(entry_idx));
        }
        let entry = &self.entries[entry_idx];
        assert(self@.entries[entry_idx as int] == entry@);
        let combine = match compile_combinations(&entry.unit_mix) {
            Ok(t) => t,
            Err(e) => return Err(e),
        };
        let virtual_units = match compile_virtual_units(&entry.virtual_units) {
            Ok(t) => t,
            Err(e) => return Err(e),
        };
        let automata = match compile_automata(&entry.automata) {
            Ok(t) => t,
            Err(e) => return Err(e),
        };
        let automata_start: i64 = match parse_i64(
            &trim(&chars_of(entry.automata_default.as_str())),
        ) {
            Some(n) => n,
            None => 0,
        };
        let (name, keys): (String, HashMap<u32, Expr>) = match &entry.key_table {
            Some(t) => (t.name.clone(), compile_keys(t)),
            None => (String::new(), HashMap::new()),
        };
        let l = Layout {
            name,
            keys,
            combine,
            virtual_units,
            final_conv: self.editor.final_conv.clone(),
            shortcuts: copy_shortcuts(&self.editor.shortcuts),
            automata,
            automata_start,
            bksp: compile_bksp(&entry.bksp),
        };
        proof {
            assert(l@.keys =~= key_exprs(entry@));
        }
        Ok(l)
    }
}

} // verus!
