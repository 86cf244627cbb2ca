//! What holds of composing with layouts that were read from a document.

use vstd::prelude::*;

use super::model::{is_blank, shown};
use super::reached::{
    empty_exactly_where_nothing_shows, reached, spelled_expr, spelled_layout, spelled_unit, Input,
};
use crate::config::compile::{combinations, compiled, letter_for, virtual_letters};
use crate::config::document::{blank_draft, opened, shut, value_of, AttrModel, DraftModel};
use crate::config::xml::{finished, items_of, resolved, Item};
use crate::config::{
    ConfigErrorModel, ConfigModel, EntryModel, LayoutModel, UnitMixModel, VirtualUnitModel,
};
use crate::expr::lexer::{lex_from, Sym, TokModel};
use crate::expr::parser::{
    binds, infix, operand, operation, operation_from, parsed, prefix, primary, remaining, stands,
    tagged, ternary, Parsed,
};
use crate::expr::ExprModel;
use crate::text::{char_at, strip_end, strip_start};
use crate::unit::{
    named_letters_are_modern, unit_of_name, unit_of_number, unit_of_operand, Category,
};

verus! {

// ── units and expressions ──────────────────────────────────────────────────────

/// A letter that a number, a name or an operand stands for has a code point that is a character.
pub proof fn written_units_are_spelled(n: u32, s: Seq<char>, cat: Option<Category>)
    ensures
        unit_of_number(n) matches Some(u) ==> spelled_unit(u),
        unit_of_name(s, cat) matches Some(u) ==> spelled_unit(u),
        unit_of_operand(s, cat) matches Some(u) ==> spelled_unit(u),
{
    let name = strip_end(strip_start(s, '_'), '_');
    named_letters_are_modern(Category::Cho, name);
    named_letters_are_modern(Category::Jung, name);
    named_letters_are_modern(Category::Jong, name);
}

proof fn lemma_tagged_spelled(t: Seq<TokModel>, p: int, command: bool)
    requires
        0 <= p,
    ensures
        tagged(t, p, command) matches Ok(e) ==> spelled_expr(e),
{
    if p < t.len() {
        match t[p] {
            TokModel::Num(n) => written_units_are_spelled(n as u32, Seq::empty(), None),
            TokModel::Ident(s) => written_units_are_spelled(0, s, None),
            TokModel::Sym(_) => {},
        }
    }
}

proof fn lemma_ternary_spelled(t: Seq<TokModel>, p: int)
    requires
        0 <= p,
    ensures
        ternary(t, p) matches Ok(x) ==> spelled_expr(x.e),
    decreases remaining(t, p), 4int,
{
    lemma_operation_spelled(t, p, 0);
    if let Ok(c) = operation(t, p, 0) {
        let q = p + c.used;
        if stands(t, q, Sym::Question) {
            lemma_ternary_spelled(t, q + 1);
            if let Ok(a) = ternary(t, q + 1) {
                if stands(t, q + 1 + a.used, Sym::Colon) {
                    lemma_ternary_spelled(t, q + 1 + a.used + 1);
                }
            }
        }
    }
}

proof fn lemma_operation_spelled(t: Seq<TokModel>, p: int, min: int)
    requires
        0 <= p,
    ensures
        operation(t, p, min) matches Ok(x) ==> spelled_expr(x.e),
    decreases remaining(t, p), 3int,
{
    lemma_operand_spelled(t, p);
    if let Ok(left) = operand(t, p) {
        lemma_operation_from_spelled(t, p, left, min);
    }
}

proof fn lemma_operation_from_spelled(t: Seq<TokModel>, p: int, left: Parsed, min: int)
    requires
        0 <= p,
        spelled_expr(left.e),
    ensures
        operation_from(t, p, left, min) matches Ok(x) ==> spelled_expr(x.e),
    decreases remaining(t, p + left.used), 2int,
{
    let q = p + left.used;
    if q < t.len() && binds(t[q], min) {
        let (op, n) = infix(t[q])->0;
        lemma_operation_spelled(t, q + 1, n + 1);
        if let Ok(right) = operation(t, q + 1, n + 1) {
            let e = ExprModel::Binary(op, Box::new(left.e), Box::new(right.e));
            lemma_operation_from_spelled(
                t,
                p,
                Parsed { e, used: left.used + 1 + right.used },
                min,
            );
        }
    }
}

proof fn lemma_operand_spelled(t: Seq<TokModel>, p: int)
    requires
        0 <= p,
    ensures
        operand(t, p) matches Ok(x) ==> spelled_expr(x.e),
    decreases remaining(t, p), 1int,
{
    if p < t.len() && prefix(t[p]) is Some {
        lemma_operand_spelled(t, p + 1);
    } else {
        lemma_primary_spelled(t, p);
    }
}

proof fn lemma_primary_spelled(t: Seq<TokModel>, p: int)
    requires
        0 <= p,
    ensures
        primary(t, p) matches Ok(x) ==> spelled_expr(x.e),
    decreases remaining(t, p), 0int,
{
    if stands(t, p, Sym::LParen) {
        lemma_ternary_spelled(t, p + 1);
    } else if p < t.len() {
        lemma_tagged_spelled(t, p + 2, true);
        lemma_tagged_spelled(t, p + 2, false);
    }
}

/// The letters of an expression that a text writes have code points that are characters.
pub proof fn written_expressions_are_spelled(src: Seq<char>)
    ensures
        parsed(src) matches Ok(e) ==> spelled_expr(e),
{
    if let Ok(t) = lex_from(src, 0) {
        lemma_ternary_spelled(t, 0);
    }
}

// ── settings ───────────────────────────────────────────────────────────────────

/// Whether the letters of the keys of an entry have code points that are characters.
pub open spec fn spelled_entry(e: EntryModel) -> bool {
    e.key_table matches Some(t) ==> forall|k: u32| #[trigger]
        t.keys.contains_key(k) ==> spelled_expr(t.keys[k].expr)
}

/// Whether that holds of all entries.
pub open spec fn spelled_config(c: ConfigModel) -> bool {
    forall|i: int| 0 <= i < c.entries.len() ==> spelled_entry(#[trigger] c.entries[i])
}

proof fn lemma_letter_spelled(s: Seq<char>, cat: Category)
    ensures
        letter_for(s, cat) matches Ok(j) ==> char_at(j.cp as int) is Some,
{
    written_units_are_spelled(0, s, Some(cat));
}

proof fn lemma_combinations_spelled(rows: Seq<UnitMixModel>)
    ensures
        combinations(rows) matches Ok(m) ==> forall|k: (Category, u32, u32)| #[trigger]
            m.contains_key(k) ==> char_at(m[k] as int) is Some,
    decreases rows.len(),
{
    if rows.len() > 0 {
        lemma_combinations_spelled(rows.drop_last());
        lemma_letter_spelled(rows.last().to, rows.last().unit);
    }
}

proof fn lemma_virtual_letters_spelled(rows: Seq<VirtualUnitModel>)
    ensures
        virtual_letters(rows) matches Ok(m) ==> forall|k: u32| #[trigger]
            m.contains_key(k) ==> char_at(m[k].cp as int) is Some,
    decreases rows.len(),
{
    if rows.len() > 0 {
        lemma_virtual_letters_spelled(rows.drop_last());
        lemma_letter_spelled(rows.last().to, rows.last().unit);
    }
}

/// An entry whose keys give letters that are characters makes a layout whose letters are
/// characters.
pub proof fn compiled_layouts_are_spelled(c: ConfigModel, i: usize)
    requires
        spelled_config(c),
    ensures
        compiled(c, i) matches Ok(l) ==> spelled_layout(l),
{
    if let Ok(l) = compiled(c, i) {
        let e = c.entries[i as int];
        assert(spelled_entry(e));
        lemma_combinations_spelled(e.unit_mix);
        lemma_virtual_letters_spelled(e.virtual_units);
        assert forall|k: u32| #[trigger] l.keys.contains_key(k) implies spelled_expr(
            l.keys[k],
        ) by {
            assert(e.key_table->0.keys.contains_key(k));
        }
    }
}

proof fn lemma_opened_spelled(d: DraftModel, tag: Seq<u8>, a: Seq<AttrModel>)
    requires
        spelled_config(d.config),
    ensures
        opened(d, tag, a) matches Ok(e) ==> spelled_config(e.config),
{
    written_expressions_are_spelled(value_of(a, "value"@));
    if d.config.entries.len() > 0 {
        assert(spelled_entry(d.config.entries.last()));
    }
}

proof fn lemma_finished_spelled(d: DraftModel, items: Seq<Item>)
    requires
        spelled_config(d.config),
    ensures
        finished(d, items) matches Ok(c) ==> spelled_config(c),
    decreases items.len(),
{
    if items.len() > 0 {
        match items[0] {
            Item::Other => lemma_finished_spelled(d, items.skip(1)),
            Item::Close(tag) => lemma_finished_spelled(shut(d, tag), items.skip(1)),
            Item::Open(tag, attrs) => {
                if let Ok(a) = resolved(attrs) {
                    lemma_opened_spelled(d, tag, a);
                    if let Ok(next) = opened(d, tag, a) {
                        lemma_finished_spelled(next, items.skip(1));
                    }
                }
            },
            _ => {},
        }
    }
}

/// The letters of the keys that a document sets have code points that are characters.
pub proof fn read_settings_are_spelled(xml: Seq<char>)
    ensures
        finished(blank_draft(), items_of(xml)) matches Ok(c) ==> spelled_config(c),
{
    lemma_finished_spelled(blank_draft(), items_of(xml));
}

/// With any layout that is compiled from a document, nothing is being composed exactly where
/// nothing is shown, in every state.
pub proof fn documents_show_what_they_compose(
    xml: Seq<char>,
    c: ConfigModel,
    entry: usize,
    l: LayoutModel,
    inputs: Seq<Input>,
)
    requires
        finished(blank_draft(), items_of(xml)) == Ok::<ConfigModel, ConfigErrorModel>(c),
        compiled(c, entry) == Ok::<LayoutModel, ConfigErrorModel>(l),
    ensures
        spelled_layout(l),
        is_blank(reached(l, inputs).cur) <==> shown(l, reached(l, inputs).cur).len() == 0,
{
    read_settings_are_spelled(xml);
    compiled_layouts_are_spelled(c, entry);
    empty_exactly_where_nothing_shows(l, inputs);
}

} // verus!
