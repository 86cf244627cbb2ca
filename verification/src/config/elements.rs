//! What each element of a settings document says.

use vstd::prelude::*;

use super::document::{
    blank_draft, category_named, flags_of, opened, shut, spells, value_of, AttrModel, DraftModel,
    Section,
};
use super::{
    AutomataRowModel, BkspModel, ConfigErrorModel, ConfigModel, EditorModel, EntryModel,
    KeyDefModel, KeyTableModel, ShortcutModel, UnitMixModel, VirtualUnitModel,
};
use crate::expr::parser::parsed;
use crate::text::laws::{is_without, splitting_undoes_joining, with_between};
use crate::text::trimmed;
use crate::unit::{int_of, Category};

verus! {

// ── attributes ─────────────────────────────────────────────────────────────────

/// The value of an attribute is that of the last one with its name, and empty where there is none.
pub proof fn attributes_are_found_by_name(attrs: Seq<AttrModel>, name: Seq<char>)
    ensures
        forall|i: int|
            0 <= i < attrs.len() && spells((#[trigger] attrs[i]).key, name) && (forall|j: int|
                i < j < attrs.len() ==> !spells((#[trigger] attrs[j]).key, name)) ==> value_of(
                attrs,
                name,
            ) == attrs[i].value,
        (forall|i: int| 0 <= i < attrs.len() ==> !spells((#[trigger] attrs[i]).key, name))
            ==> value_of(attrs, name).len() == 0,
    decreases attrs.len(),
{
    if attrs.len() > 0 {
        let init = attrs.drop_last();
        attributes_are_found_by_name(init, name);
        assert forall|i: int|
            0 <= i < attrs.len() && spells((#[trigger] attrs[i]).key, name) && (forall|j: int|
                i < j < attrs.len() ==> !spells((#[trigger] attrs[j]).key, name)) implies value_of(
            attrs,
            name,
        ) == attrs[i].value by {
            if i < init.len() {
                assert(!spells(attrs[attrs.len() - 1].key, name));
                assert(spells(init[i].key, name));
                assert forall|j: int| i < j < init.len() implies !spells(
                    (#[trigger] init[j]).key,
                    name,
                ) by {
                    assert(!spells(attrs[j].key, name));
                }
            }
        }
        if forall|i: int| 0 <= i < attrs.len() ==> !spells((#[trigger] attrs[i]).key, name) {
            assert(!spells(attrs[attrs.len() - 1].key, name));
            assert forall|i: int| 0 <= i < init.len() implies !spells(
                (#[trigger] init[i]).key,
                name,
            ) by {
                assert(!spells(attrs[i].key, name));
            }
        }
    }
}

/// Bytes spell a name exactly where they are its characters, one for one.
pub proof fn spelling_is_byte_by_byte(bytes: Seq<u8>, name: Seq<char>)
    ensures
        spells(bytes, name) <==> bytes.map_values(|b: u8| b as char) == name && bytes.len()
            == name.len(),
{
    if spells(bytes, name) {
        assert(bytes.map_values(|b: u8| b as char) =~= name);
    }
    if bytes.map_values(|b: u8| b as char) == name {
        assert forall|i: int| 0 <= i < name.len() implies #[trigger] bytes[i] as int
            == name[i] as int by {
            assert(bytes.map_values(|b: u8| b as char)[i] == name[i]);
        }
    }
}

/// Flags are separated by bars, and white space around them does not count. An empty text holds
/// none.
pub proof fn flags_stand_between_bars(parts: Seq<Seq<char>>)
    requires
        parts.len() > 0,
        forall|i: int| 0 <= i < parts.len() ==> is_without(#[trigger] parts[i], '|'),
    ensures
        ({
            let s = with_between(parts, '|');
            if s.len() == 0 {
                flags_of(s).len() == 0
            } else {
                flags_of(s).len() == parts.len() && forall|i: int|
                    0 <= i < parts.len() ==> #[trigger] flags_of(s)[i] == trimmed(parts[i])
            }
        }),
{
    splitting_undoes_joining(parts, '|');
}

// ── names of elements ──────────────────────────────────────────────────────────

/// Whether two names differ in length or in their first or sixth character.
spec fn differ(a: Seq<char>, b: Seq<char>) -> bool {
    a.len() != b.len() || a[0] != b[0] || (a.len() > 5 && a[5] != b[5])
}

proof fn lemma_apart(tag: Seq<u8>, a: Seq<char>, b: Seq<char>)
    requires
        spells(tag, a),
        a.len() > 0,
        differ(a, b),
    ensures
        !spells(tag, b),
{
    if spells(tag, b) {
        assert(tag[0] as int == a[0] as int);
        assert(tag[0] as int == b[0] as int);
        if a.len() > 5 {
            assert(tag[5] as int == a[5] as int);
            assert(tag[5] as int == b[5] as int);
        }
    }
}

spec fn names() -> Seq<Seq<char>> {
    seq![
        "EditContextSetting"@,
        "EditorLayer"@,
        "Shortcut"@,
        "FinalConv"@,
        "InputLayer"@,
        "InputEntry"@,
        "InputSchemeSetting"@,
        "GeneratorSetting"@,
        "KeyTable"@,
        "Key"@,
        "UnitMix"@,
        "VirtualUnit"@,
        "AutomataTable"@,
        "Automata"@,
        "Bksp"@,
    ]
}

proof fn lemma_names_differ()
    ensures
        names().len() == 15,
        forall|i: int| 0 <= i < 15 ==> (#[trigger] names()[i]).len() > 0,
        forall|i: int, j: int|
            0 <= i < 15 && 0 <= j < 15 && i != j ==> differ(
                #[trigger] names()[i],
                #[trigger] names()[j],
            ),
{
    reveal_strlit("EditContextSetting");
    reveal_strlit("EditorLayer");
    reveal_strlit("Shortcut");
    reveal_strlit("FinalConv");
    reveal_strlit("InputLayer");
    reveal_strlit("InputEntry");
    reveal_strlit("InputSchemeSetting");
    reveal_strlit("GeneratorSetting");
    reveal_strlit("KeyTable");
    reveal_strlit("Key");
    reveal_strlit("UnitMix");
    reveal_strlit("VirtualUnit");
    reveal_strlit("AutomataTable");
    reveal_strlit("Automata");
    reveal_strlit("Bksp");
    let lengths: Seq<int> = seq![18, 11, 8, 9, 10, 10, 18, 16, 8, 3, 7, 11, 13, 8, 4];
    let firsts: Seq<char> = seq![
        'E', 'E', 'S', 'F', 'I', 'I', 'I', 'G', 'K', 'K', 'U', 'V', 'A', 'A', 'B',
    ];
    assert forall|i: int| 0 <= i < 15 implies (#[trigger] names()[i]).len() == lengths[i]
        && names()[i][0] == firsts[i] by {}
    assert("InputLayer"@[5] == 'L' && "InputEntry"@[5] == 'E');
    assert(names()[4] == "InputLayer"@ && names()[5] == "InputEntry"@);
}

/// An element with one name does not have another.
proof fn lemma_only(tag: Seq<u8>, k: int)
    requires
        0 <= k < 15,
        spells(tag, names()[k]),
    ensures
        forall|j: int| 0 <= j < 15 && j != k ==> !spells(tag, #[trigger] names()[j]),
        k != 0 ==> !spells(tag, "EditContextSetting"@),
        k != 1 ==> !spells(tag, "EditorLayer"@),
        k != 2 ==> !spells(tag, "Shortcut"@),
        k != 3 ==> !spells(tag, "FinalConv"@),
        k != 4 ==> !spells(tag, "InputLayer"@),
        k != 5 ==> !spells(tag, "InputEntry"@),
        k != 6 ==> !spells(tag, "InputSchemeSetting"@),
        k != 7 ==> !spells(tag, "GeneratorSetting"@),
        k != 8 ==> !spells(tag, "KeyTable"@),
        k != 9 ==> !spells(tag, "Key"@),
        k != 10 ==> !spells(tag, "UnitMix"@),
        k != 11 ==> !spells(tag, "VirtualUnit"@),
        k != 12 ==> !spells(tag, "AutomataTable"@),
        k != 13 ==> !spells(tag, "Automata"@),
        k != 14 ==> !spells(tag, "Bksp"@),
{
    lemma_names_differ();
    assert forall|j: int| 0 <= j < 15 && j != k implies !spells(tag, #[trigger] names()[j]) by {
        lemma_apart(tag, names()[k], names()[j]);
    }
    assert(names()[0] == "EditContextSetting"@ && names()[1] == "EditorLayer"@ && names()[2]
        == "Shortcut"@ && names()[3] == "FinalConv"@ && names()[4] == "InputLayer"@ && names()[5]
        == "InputEntry"@ && names()[6] == "InputSchemeSetting"@ && names()[7]
        == "GeneratorSetting"@ && names()[8] == "KeyTable"@ && names()[9] == "Key"@ && names()[10]
        == "UnitMix"@ && names()[11] == "VirtualUnit"@ && names()[12] == "AutomataTable"@
        && names()[13] == "Automata"@ && names()[14] == "Bksp"@);
}

// ── words ──────────────────────────────────────────────────────────────────────

/// The draft goes on with these settings, in the same part of the entry.
pub open spec fn goes_on_with(
    r: Result<DraftModel, ConfigErrorModel>,
    d: DraftModel,
    config: ConfigModel,
) -> bool {
    r matches Ok(e) && e.config == config && e.section == d.section
}

/// The settings with the last entry replaced.
pub open spec fn last_is(c: ConfigModel, e: EntryModel) -> ConfigModel {
    ConfigModel { entries: c.entries.drop_last().push(e), ..c }
}

/// The number that the attribute writes, else the given one.
pub open spec fn number_in(a: Seq<AttrModel>, name: Seq<char>, otherwise: int) -> int {
    match int_of(value_of(a, name)) {
        Some(n) => n,
        None => otherwise,
    }
}

// ── the document ───────────────────────────────────────────────────────────────

/// The element of the whole document says its version.
pub proof fn documents_have_a_version(d: DraftModel, tag: Seq<u8>, a: Seq<AttrModel>)
    requires
        spells(tag, "EditContextSetting"@),
    ensures
        goes_on_with(
            opened(d, tag, a),
            d,
            ConfigModel { version: value_of(a, "version"@), ..d.config },
        ),
{
}

/// The editor layer says its flags.
pub proof fn editors_have_flags(d: DraftModel, tag: Seq<u8>, a: Seq<AttrModel>)
    requires
        spells(tag, "EditorLayer"@),
    ensures
        goes_on_with(
            opened(d, tag, a),
            d,
            ConfigModel {
                editor: EditorModel { flags: flags_of(value_of(a, "flag"@)), ..d.config.editor },
                ..d.config
            },
        ),
{
    assert(names()[1] == "EditorLayer"@);
    lemma_only(tag, 1);
}

/// A shortcut comes behind those before it.
pub proof fn shortcuts_are_added(d: DraftModel, tag: Seq<u8>, a: Seq<AttrModel>)
    requires
        spells(tag, "Shortcut"@),
    ensures
        goes_on_with(
            opened(d, tag, a),
            d,
            ConfigModel {
                editor: EditorModel {
                    shortcuts: d.config.editor.shortcuts.push(
                        ShortcutModel {
                            key: value_of(a, "key"@),
                            modifier: flags_of(value_of(a, "modifier"@)),
                            usage: value_of(a, "usage"@),
                            value: value_of(a, "value"@),
                        },
                    ),
                    ..d.config.editor
                },
                ..d.config
            },
        ),
{
    assert(names()[2] == "Shortcut"@);
    lemma_only(tag, 2);
}

/// A compatibility letter is set for a letter, and counts until it is set anew. Both have to be
/// numbers; the first that is none is reported.
pub proof fn letters_alone_are_set(d: DraftModel, tag: Seq<u8>, a: Seq<AttrModel>)
    requires
        spells(tag, "FinalConv"@),
    ensures
        ({
            let from = value_of(a, "from"@);
            let to = value_of(a, "to"@);
            let r = opened(d, tag, a);
            &&& int_of(from) is None ==> r == Err::<DraftModel, ConfigErrorModel>(
                ConfigErrorModel::BadInt(from),
            )
            &&& int_of(from) is Some && int_of(to) is None ==> r == Err::<
                DraftModel,
                ConfigErrorModel,
            >(ConfigErrorModel::BadInt(to))
            &&& int_of(from) is Some && int_of(to) is Some ==> goes_on_with(
                r,
                d,
                ConfigModel {
                    editor: EditorModel {
                        final_conv: d.config.editor.final_conv.insert(
                            int_of(from)->0 as u32,
                            int_of(to)->0 as u32,
                        ),
                        ..d.config.editor
                    },
                    ..d.config
                },
            )
        }),
{
    assert(names()[3] == "FinalConv"@);
    lemma_only(tag, 3);
}

/// The input layer says which entry is the default and which the current one, each the first where
/// it says nothing.
pub proof fn layers_say_where_to_start(d: DraftModel, tag: Seq<u8>, a: Seq<AttrModel>)
    requires
        spells(tag, "InputLayer"@),
    ensures
        goes_on_with(
            opened(d, tag, a),
            d,
            ConfigModel {
                default_entry: number_in(a, "default"@, 0) as u32 as usize,
                current_entry: number_in(a, "current"@, 0) as u32 as usize,
                ..d.config
            },
        ),
{
    assert(names()[4] == "InputLayer"@);
    lemma_only(tag, 4);
}

// ── entries ────────────────────────────────────────────────────────────────────

/// An entry begins with nothing in it, behind those before it.
pub proof fn entries_begin_empty(d: DraftModel, tag: Seq<u8>, a: Seq<AttrModel>)
    requires
        spells(tag, "InputEntry"@),
    ensures
        opened(d, tag, a) matches Ok(e) && {
            let n = d.config.entries.len();
            let new = e.config.entries[n as int];
            &&& e.section == d.section
            &&& e.config == (ConfigModel { entries: d.config.entries.push(new), ..d.config })
            &&& new.scheme_object.len() == 0 && new.generator_object.len() == 0
            &&& new.key_table is None
            &&& new.unit_mix.len() == 0 && new.virtual_units.len() == 0
            &&& new.automata_default.len() == 0 && new.automata.len() == 0
            &&& new.bksp.len() == 0
        },
{
    assert(names()[5] == "InputEntry"@);
    lemma_only(tag, 5);
}

/// The scheme and the generator of an entry say which they are, and begin a part of the entry. The
/// end of either ends that part.
pub proof fn entries_have_two_parts(d: DraftModel, tag: Seq<u8>, a: Seq<AttrModel>)
    ensures
        spells(tag, "InputSchemeSetting"@) ==> {
            &&& opened(d, tag, a) matches Ok(e) && e.section == Section::Scheme && (
            d.config.entries.len() > 0 ==> e.config == last_is(
                d.config,
                EntryModel { scheme_object: value_of(a, "object"@), ..d.config.entries.last() },
            )) && (d.config.entries.len() == 0 ==> e.config == d.config)
            &&& shut(d, tag).section == Section::Outside
        },
        spells(tag, "GeneratorSetting"@) ==> {
            &&& opened(d, tag, a) matches Ok(e) && e.section == Section::Generator && (
            d.config.entries.len() > 0 ==> e.config == last_is(
                d.config,
                EntryModel { generator_object: value_of(a, "object"@), ..d.config.entries.last() },
            )) && (d.config.entries.len() == 0 ==> e.config == d.config)
            &&& shut(d, tag).section == Section::Outside
        },
        !spells(tag, "InputSchemeSetting"@) && !spells(tag, "GeneratorSetting"@) ==> shut(d, tag)
            == d,
        shut(d, tag).config == d.config,
{
    assert(names()[6] == "InputSchemeSetting"@ && names()[7] == "GeneratorSetting"@);
    if spells(tag, "InputSchemeSetting"@) {
        lemma_only(tag, 6);
    }
    if spells(tag, "GeneratorSetting"@) {
        lemma_only(tag, 7);
    }
}

/// A table of keys begins without keys, in the place of any before it. Its bounds are those of the
/// printable ASCII characters where it says nothing.
pub proof fn key_tables_begin_empty(d: DraftModel, tag: Seq<u8>, a: Seq<AttrModel>)
    requires
        spells(tag, "KeyTable"@),
        d.config.entries.len() > 0,
    ensures
        goes_on_with(
            opened(d, tag, a),
            d,
            last_is(
                d.config,
                EntryModel {
                    key_table: Some(
                        KeyTableModel {
                            name: value_of(a, "name"@),
                            from: number_in(a, "from"@, 33) as u32,
                            to: number_in(a, "to"@, 126) as u32,
                            keys: Map::empty(),
                        },
                    ),
                    ..d.config.entries.last()
                },
            ),
        ),
{
    assert(names()[8] == "KeyTable"@);
    lemma_only(tag, 8);
}

/// Within a scheme a key gives what its expression says, and counts until it is set anew. Its
/// place has to be a number, and its expression one that can be read; each is reported where it is
/// not. Outside a scheme a key says nothing, whatever its attributes.
pub proof fn keys_are_set_within_a_scheme(d: DraftModel, tag: Seq<u8>, a: Seq<AttrModel>)
    requires
        spells(tag, "Key"@),
    ensures
        ({
            let at = value_of(a, "at"@);
            let raw = value_of(a, "value"@);
            let r = opened(d, tag, a);
            let e = d.config.entries.last();
            &&& d.section != Section::Scheme ==> r == Ok::<DraftModel, ConfigErrorModel>(d)
            &&& d.section == Section::Scheme ==> {
                &&& int_of(at) is None ==> r == Err::<DraftModel, ConfigErrorModel>(
                    ConfigErrorModel::BadInt(at),
                )
                &&& int_of(at) is Some ==> match parsed(raw) {
                    Err(x) => r == Err::<DraftModel, ConfigErrorModel>(
                        ConfigErrorModel::KeyExpr(at, x),
                    ),
                    Ok(expr) => if d.config.entries.len() == 0 || e.key_table is None {
                        r == Ok::<DraftModel, ConfigErrorModel>(d)
                    } else {
                        let t = e.key_table->0;
                        goes_on_with(
                            r,
                            d,
                            last_is(
                                d.config,
                                EntryModel {
                                    key_table: Some(
                                        KeyTableModel {
                                            keys: t.keys.insert(
                                                int_of(at)->0 as u32,
                                                KeyDefModel { raw, expr },
                                            ),
                                            ..t
                                        },
                                    ),
                                    ..e
                                },
                            ),
                        )
                    },
                }
            }
        }),
{
    assert(names()[9] == "Key"@);
    lemma_only(tag, 9);
}

/// The place that a name stands for: one of three.
pub open spec fn place_named(s: Seq<char>, cat: Category) -> bool {
    match cat {
        Category::Cho => s == "CHO"@,
        Category::Jung => s == "JUNG"@,
        Category::Jong => s == "JONG"@,
    }
}

proof fn lemma_places(s: Seq<char>)
    ensures
        forall|cat: Category| #[trigger]
            place_named(s, cat) ==> category_named(s) == Ok::<Category, ConfigErrorModel>(cat),
        (forall|cat: Category| !#[trigger] place_named(s, cat)) ==> category_named(s) == Err::<
            Category,
            ConfigErrorModel,
        >(ConfigErrorModel::BadCategory(s)),
{
    reveal_strlit("CHO");
    reveal_strlit("JUNG");
    reveal_strlit("JONG");
    assert("JUNG"@[1] == 'U' && "JONG"@[1] == 'O');
    if category_named(s) is Ok {
        assert(place_named(s, category_named(s)->Ok_0));
    }
}

/// A combination comes behind those before it. A name that is no place is reported.
pub proof fn combinations_are_added(d: DraftModel, tag: Seq<u8>, a: Seq<AttrModel>, unit: Category)
    requires
        spells(tag, "UnitMix"@),
        d.config.entries.len() > 0,
    ensures
        place_named(value_of(a, "unit"@), unit) ==> goes_on_with(
            opened(d, tag, a),
            d,
            last_is(
                d.config,
                EntryModel {
                    unit_mix: d.config.entries.last().unit_mix.push(
                        UnitMixModel {
                            unit,
                            a: value_of(a, "a"@),
                            b: value_of(a, "b"@),
                            to: value_of(a, "to"@),
                        },
                    ),
                    ..d.config.entries.last()
                },
            ),
        ),
        (forall|cat: Category| !#[trigger] place_named(value_of(a, "unit"@), cat)) ==> opened(
            d,
            tag,
            a,
        ) == Err::<DraftModel, ConfigErrorModel>(
            ConfigErrorModel::BadCategory(value_of(a, "unit"@)),
        ),
{
    assert(names()[10] == "UnitMix"@);
    lemma_only(tag, 10);
    lemma_places(value_of(a, "unit"@));
}

/// A virtual unit comes behind those before it. A name that is no place is reported, and then a
/// number that is none.
pub proof fn virtual_units_are_added(
    d: DraftModel,
    tag: Seq<u8>,
    a: Seq<AttrModel>,
    unit: Category,
)
    requires
        spells(tag, "VirtualUnit"@),
        d.config.entries.len() > 0,
    ensures
        place_named(value_of(a, "unit"@), unit) ==> match int_of(value_of(a, "from"@)) {
            Some(from) => goes_on_with(
                opened(d, tag, a),
                d,
                last_is(
                    d.config,
                    EntryModel {
                        virtual_units: d.config.entries.last().virtual_units.push(
                            VirtualUnitModel { unit, from: from as u32, to: value_of(a, "to"@) },
                        ),
                        ..d.config.entries.last()
                    },
                ),
            ),
            None => opened(d, tag, a) == Err::<DraftModel, ConfigErrorModel>(
                ConfigErrorModel::BadInt(value_of(a, "from"@)),
            ),
        },
        (forall|cat: Category| !#[trigger] place_named(value_of(a, "unit"@), cat)) ==> opened(
            d,
            tag,
            a,
        ) == Err::<DraftModel, ConfigErrorModel>(
            ConfigErrorModel::BadCategory(value_of(a, "unit"@)),
        ),
{
    assert(names()[11] == "VirtualUnit"@);
    lemma_only(tag, 11);
    lemma_places(value_of(a, "unit"@));
}

/// The automaton says in which state it starts, and its states come one behind the other, each with
/// its number, which is zero where it says none.
pub proof fn states_are_added(d: DraftModel, tag: Seq<u8>, a: Seq<AttrModel>)
    requires
        d.config.entries.len() > 0,
    ensures
        spells(tag, "AutomataTable"@) ==> goes_on_with(
            opened(d, tag, a),
            d,
            last_is(
                d.config,
                EntryModel { automata_default: value_of(a, "default"@), ..d.config.entries.last() },
            ),
        ),
        spells(tag, "Automata"@) ==> goes_on_with(
            opened(d, tag, a),
            d,
            last_is(
                d.config,
                EntryModel {
                    automata: d.config.entries.last().automata.push(
                        AutomataRowModel {
                            state: number_in(a, "state"@, 0) as u32 as i64,
                            value: value_of(a, "value"@),
                            default: value_of(a, "default"@),
                            remark: value_of(a, "remark"@),
                        },
                    ),
                    ..d.config.entries.last()
                },
            ),
        ),
{
    assert(names()[12] == "AutomataTable"@ && names()[13] == "Automata"@);
    if spells(tag, "AutomataTable"@) {
        lemma_only(tag, 12);
    }
    if spells(tag, "Automata"@) {
        lemma_only(tag, 13);
    }
}

/// The rows of the deleting keys come one behind the other, each with its number, which is zero
/// where it says none.
pub proof fn deleting_keys_are_added(d: DraftModel, tag: Seq<u8>, a: Seq<AttrModel>)
    requires
        spells(tag, "Bksp"@),
        d.config.entries.len() > 0,
    ensures
        goes_on_with(
            opened(d, tag, a),
            d,
            last_is(
                d.config,
                EntryModel {
                    bksp: d.config.entries.last().bksp.push(
                        BkspModel {
                            key: number_in(a, "key"@, 0) as u32,
                            value1: value_of(a, "value1"@),
                            value2: value_of(a, "value2"@),
                            condition1: value_of(a, "condition1"@),
                            condition2: value_of(a, "condition2"@),
                        },
                    ),
                    ..d.config.entries.last()
                },
            ),
        ),
{
    assert(names()[14] == "Bksp"@);
    lemma_only(tag, 14);
}

/// What belongs to an entry says nothing where there is none, but that a place has to be one.
pub proof fn nothing_is_set_without_an_entry(d: DraftModel, tag: Seq<u8>, a: Seq<AttrModel>)
    requires
        d.config.entries.len() == 0,
        spells(tag, "KeyTable"@) || spells(tag, "AutomataTable"@) || spells(tag, "Automata"@)
            || spells(tag, "Bksp"@) || ((spells(tag, "UnitMix"@) || spells(tag, "VirtualUnit"@)) && (
        exists|cat: Category| #[trigger] place_named(value_of(a, "unit"@), cat))),
    ensures
        opened(d, tag, a) == Ok::<DraftModel, ConfigErrorModel>(d),
{
    assert(names()[8] == "KeyTable"@ && names()[10] == "UnitMix"@ && names()[11] == "VirtualUnit"@
        && names()[12] == "AutomataTable"@ && names()[13] == "Automata"@ && names()[14]
        == "Bksp"@);
    lemma_places(value_of(a, "unit"@));
    if spells(tag, "KeyTable"@) {
        lemma_only(tag, 8);
    } else if spells(tag, "AutomataTable"@) {
        lemma_only(tag, 12);
    } else if spells(tag, "Automata"@) {
        lemma_only(tag, 13);
    } else if spells(tag, "Bksp"@) {
        lemma_only(tag, 14);
    } else if spells(tag, "UnitMix"@) {
        lemma_only(tag, 10);
    } else {
        lemma_only(tag, 11);
    }
}

/// An element of any other name says nothing.
pub proof fn other_elements_say_nothing(d: DraftModel, tag: Seq<u8>, a: Seq<AttrModel>)
    requires
        !spells(tag, "EditContextSetting"@) && !spells(tag, "EditorLayer"@),
        !spells(tag, "Shortcut"@) && !spells(tag, "FinalConv"@) && !spells(tag, "InputLayer"@),
        !spells(tag, "InputEntry"@) && !spells(tag, "InputSchemeSetting"@),
        !spells(tag, "GeneratorSetting"@) && !spells(tag, "KeyTable"@) && !spells(tag, "Key"@),
        !spells(tag, "UnitMix"@) && !spells(tag, "VirtualUnit"@),
        !spells(tag, "AutomataTable"@) && !spells(tag, "Automata"@) && !spells(tag, "Bksp"@),
    ensures
        opened(d, tag, a) == Ok::<DraftModel, ConfigErrorModel>(d),
{
}

/// Before anything is read, nothing is set.
pub proof fn documents_begin_empty()
    ensures
        ({
            let d = blank_draft();
            &&& d.section == Section::Outside
            &&& d.config.version.len() == 0
            &&& d.config.default_entry == 0 && d.config.current_entry == 0
            &&& d.config.entries.len() == 0
            &&& d.config.editor.flags.len() == 0 && d.config.editor.shortcuts.len() == 0
            &&& d.config.editor.final_conv.is_empty()
        }),
{
}

} // verus!
