//! From the elements of a settings document to settings.

use std::collections::HashMap;

use vstd::prelude::*;

use super::{
    empty_editor, empty_entry, shortcut_views, string_views, AutomataRow, AutomataRowModel, Bksp,
    BkspModel, Config, ConfigError, ConfigErrorModel, ConfigModel, EditorLayer, EditorModel,
    EntryModel, InputEntry, KeyDef, KeyDefModel, KeyTable, KeyTableModel, Shortcut, ShortcutModel,
    UnitMix, UnitMixModel, VirtualUnit, VirtualUnitModel,
};
use crate::expr::parser::parsed;
use crate::expr::Expr;
use crate::text::{
    chars_of, code_point, same, split, split_at_each, string_of, trim, trimmed, views,
};
use crate::unit::{int_of, Category};

verus! {

broadcast use vstd::std_specs::hash::group_hash_axioms;

// ── attributes ─────────────────────────────────────────────────────────────────

/// An attribute of an element: its name and its value.
pub struct Attr {
    pub key: Vec<u8>,
    pub value: String,
}

/// An [`Attr`] with its parts as sequences.
pub struct AttrModel {
    pub key: Seq<u8>,
    pub value: Seq<char>,
}

impl View for Attr {
    type V = AttrModel;

    open spec fn view(&self) -> AttrModel {
        AttrModel { key: self.key@, value: self.value@ }
    }
}

/// The attributes of a vector.
pub open spec fn attr_views(v: Seq<Attr>) -> Seq<AttrModel> {
    v.map_values(|a: Attr| a@)
}

/// Whether the bytes spell the ASCII name.
pub open spec fn spells(bytes: Seq<u8>, name: Seq<char>) -> bool {
    bytes.len() == name.len() && forall|i: int|
        0 <= i < name.len() ==> #[trigger] bytes[i] as int == name[i] as int
}

/// Whether the bytes spell the ASCII name.
pub fn is_spelled(bytes: &Vec<u8>, name: &str) -> (r: bool)
    ensures
        r == spells(bytes@, name@),
{
    let v = chars_of(name);
    if bytes.len() != v.len() {
        return false;
    }
    let mut i: usize = 0;
    while i < v.len()
        invariant
            i <= v@.len(),
            v@ == name@,
            bytes@.len() == v@.len(),
            forall|k: int| 0 <= k < i ==> #[trigger] bytes@[k] as int == name@[k] as int,
        decreases v@.len() - i,
    {
        if bytes[i] as u32 != code_point(v[i]) {
            return false;
        }
        i = i + 1;
    }
    true
}

/// The value of the attribute with the given name, empty where there is none.
pub open spec fn value_of(attrs: Seq<AttrModel>, name: Seq<char>) -> Seq<char>
    decreases attrs.len(),
{
    if attrs.len() == 0 {
        Seq::empty()
    } else if spells(attrs.last().key, name) {
        attrs.last().value
    } else {
        value_of(attrs.drop_last(), name)
    }
}

/// The value of the attribute with the given name, empty where there is none.
pub fn get(attrs: &Vec<Attr>, name: &str) -> (r: String)
    ensures
        r@ == value_of(attr_views(attrs@), name@),
{
    let ghost all = attr_views(attrs@);
    let mut i: usize = attrs.len();
    proof {
        assert(all.take(all.len() as int) =~= all);
    }
    while i > 0
        invariant
            i <= attrs@.len(),
            all == attr_views(attrs@),
            value_of(all, name@) == value_of(all.take(i as int), name@),
        decreases i,
    {
        proof {
            assert(all.take(i as int).drop_last() =~= all.take(i as int - 1));
            assert(all.take(i as int).last() == attrs@[i as int - 1]@);
        }
        if is_spelled(&attrs[i - 1].key, name) {
            return attrs[i - 1].value.clone();
        }
        i = i - 1;
    }
    String::new()
}

// ── what attribute values write ────────────────────────────────────────────────

/// A number, which has to be one.
pub open spec fn needed_int(s: Seq<char>) -> Result<u32, ConfigErrorModel> {
    match int_of(s) {
        Some(n) => Ok(n as u32),
        None => Err(ConfigErrorModel::BadInt(s)),
    }
}

/// A number, or the given one.
pub open spec fn int_or(s: Seq<char>, otherwise: u32) -> u32 {
    match int_of(s) {
        Some(n) => n as u32,
        None => otherwise,
    }
}

fn parse_int(s: String) -> (r: Result<u32, ConfigError>)
    ensures
        match r {
            Ok(n) => needed_int(s@) == Ok::<u32, ConfigErrorModel>(n),
            Err(e) => needed_int(s@) == Err::<u32, ConfigErrorModel>(e@),
        },
{
    match crate::unit::parse_int(s.as_str()) {
        Some(n) => Ok(n),
        None => Err(ConfigError::BadInt(s)),
    }
}

fn parse_int_or(s: String, otherwise: u32) -> (r: u32)
    ensures
        r == int_or(s@, otherwise),
{
    match crate::unit::parse_int(s.as_str()) {
        Some(n) => n,
        None => otherwise,
    }
}

/// The place that a name stands for.
pub open spec fn category_named(s: Seq<char>) -> Result<Category, ConfigErrorModel> {
    if s == "CHO"@ {
        Ok(Category::Cho)
    } else if s == "JUNG"@ {
        Ok(Category::Jung)
    } else if s == "JONG"@ {
        Ok(Category::Jong)
    } else {
        Err(ConfigErrorModel::BadCategory(s))
    }
}

fn category_of(s: String) -> (r: Result<Category, ConfigError>)
    ensures
        match r {
            Ok(c) => category_named(s@) == Ok::<Category, ConfigErrorModel>(c),
            Err(e) => category_named(s@) == Err::<Category, ConfigErrorModel>(e@),
        },
{
    if same(s.as_str(), "CHO") {
        Ok(Category::Cho)
    } else if same(s.as_str(), "JUNG") {
        Ok(Category::Jung)
    } else if same(s.as_str(), "JONG") {
        Ok(Category::Jong)
    } else {
        Err(ConfigError::BadCategory(s))
    }
}

/// The flags of a text, which are separated by bars. An empty text holds none.
pub open spec fn flags_of(s: Seq<char>) -> Seq<Seq<char>> {
    if s.len() == 0 {
        Seq::empty()
    } else {
        split(s, '|').map_values(|p: Seq<char>| trimmed(p))
    }
}

fn split_flags(s: String) -> (r: Vec<String>)
    ensures
        string_views(r@) == flags_of(s@),
{
    let v = chars_of(s.as_str());
    let mut r: Vec<String> = Vec::new();
    if v.len() == 0 {
        proof {
            assert(string_views(r@) =~= flags_of(s@));
        }
        return r;
    }
    let parts = split_at_each(&v, '|');
    let ghost all = flags_of(s@);
    let mut i: usize = 0;
    while i < parts.len()
        invariant
            i <= parts@.len(),
            views(parts@) == split(s@, '|'),
            all == split(s@, '|').map_values(|p: Seq<char>| trimmed(p)),
            string_views(r@) =~= all.take(i as int),
        decreases parts@.len() - i,
    {
        let t = trim(&parts[i]);
        let ghost before = r@;
        proof {
            assert(views(parts@)[i as int] == parts@[i as int]@);
            assert(t@.subrange(0, t@.len() as int) =~= t@);
        }
        r.push(string_of(&t, 0, t.len()));
        proof {
            assert(string_views(r@) =~= string_views(before).push(t@));
            assert(all.take(i as int + 1) =~= all.take(i as int).push(all[i as int]));
        }
        i = i + 1;
    }
    proof {
        assert(all.take(all.len() as int) =~= all);
    }
    r
}

// ── a draft of settings ────────────────────────────────────────────────────────

/// Which part of an input entry is being read.
#[derive(Clone, Copy, Debug, PartialEq, Eq, Structural)]
pub enum Section {
    Outside,
    Scheme,
    Generator,
}

/// The settings read so far.
pub struct Draft {
    pub config: Config,
    pub section: Section,
}

/// A [`Draft`] with its texts as sequences of characters.
pub struct DraftModel {
    pub config: ConfigModel,
    pub section: Section,
}

impl View for Draft {
    type V = DraftModel;

    open spec fn view(&self) -> DraftModel {
        DraftModel { config: self.config@, section: self.section }
    }
}

/// Nothing read yet.
pub open spec fn blank_draft() -> DraftModel {
    DraftModel {
        config: ConfigModel {
            version: Seq::empty(),
            editor: empty_editor(),
            default_entry: 0,
            current_entry: 0,
            entries: Seq::empty(),
        },
        section: Section::Outside,
    }
}

/// The draft with the editor layer replaced.
pub open spec fn with_editor(d: DraftModel, editor: EditorModel) -> DraftModel {
    DraftModel { config: ConfigModel { editor, ..d.config }, ..d }
}

/// The draft with the entries replaced.
pub open spec fn with_entries(d: DraftModel, entries: Seq<EntryModel>) -> DraftModel {
    DraftModel { config: ConfigModel { entries, ..d.config }, ..d }
}

/// The draft with its last entry replaced. Without any entry nothing changes.
pub open spec fn with_last(d: DraftModel, e: EntryModel) -> DraftModel {
    if d.config.entries.len() == 0 {
        d
    } else {
        with_entries(d, d.config.entries.drop_last().push(e))
    }
}

// ── what the elements say ──────────────────────────────────────────────────────

/// A shortcut key.
pub open spec fn read_shortcut(d: DraftModel, a: Seq<AttrModel>) -> DraftModel {
    with_editor(
        d,
        EditorModel {
            shortcuts: d.config.editor.shortcuts.push(
                ShortcutModel {
                    key: value_of(a, "key"@),
                    modifier: flags_of(value_of(a, "modifier"@)),
                    usage: value_of(a, "usage"@),
                    value: value_of(a, "value"@),
                },
            ),
            ..d.config.editor
        },
    )
}

/// The compatibility letter of a conjoining letter.
pub open spec fn read_final_conv(d: DraftModel, a: Seq<AttrModel>) -> Result<
    DraftModel,
    ConfigErrorModel,
> {
    match needed_int(value_of(a, "from"@)) {
        Err(e) => Err(e),
        Ok(from) => match needed_int(value_of(a, "to"@)) {
            Err(e) => Err(e),
            Ok(to) => Ok(
                with_editor(
                    d,
                    EditorModel {
                        final_conv: d.config.editor.final_conv.insert(from, to),
                        ..d.config.editor
                    },
                ),
            ),
        },
    }
}

/// Which entries are the default and the current one.
pub open spec fn read_input_layer(d: DraftModel, a: Seq<AttrModel>) -> DraftModel {
    DraftModel {
        config: ConfigModel {
            default_entry: int_or(value_of(a, "default"@), 0) as usize,
            current_entry: int_or(value_of(a, "current"@), 0) as usize,
            ..d.config
        },
        ..d
    }
}

/// A new table of keys for the last entry.
pub open spec fn read_key_table(d: DraftModel, a: Seq<AttrModel>) -> DraftModel {
    with_last(
        d,
        EntryModel {
            key_table: Some(
                KeyTableModel {
                    name: value_of(a, "name"@),
                    from: int_or(value_of(a, "from"@), 33),
                    to: int_or(value_of(a, "to"@), 126),
                    keys: Map::empty(),
                },
            ),
            ..d.config.entries.last()
        },
    )
}

/// A key of the last entry's table.
pub open spec fn read_key(d: DraftModel, a: Seq<AttrModel>) -> Result<
    DraftModel,
    ConfigErrorModel,
> {
    let at = value_of(a, "at"@);
    let raw = value_of(a, "value"@);
    match needed_int(at) {
        Err(e) => Err(e),
        Ok(n) => match parsed(raw) {
            Err(e) => Err(ConfigErrorModel::KeyExpr(at, e)),
            Ok(expr) => Ok(
                if d.config.entries.len() > 0 && d.config.entries.last().key_table is Some {
                    let t = d.config.entries.last().key_table->0;
                    with_last(
                        d,
                        EntryModel {
                            key_table: Some(
                                KeyTableModel { keys: t.keys.insert(n, KeyDefModel { raw, expr }), ..t },
                            ),
                            ..d.config.entries.last()
                        },
                    )
                } else {
                    d
                },
            ),
        },
    }
}

/// A combination of the last entry.
pub open spec fn read_unit_mix(d: DraftModel, a: Seq<AttrModel>) -> Result<
    DraftModel,
    ConfigErrorModel,
> {
    match category_named(value_of(a, "unit"@)) {
        Err(e) => Err(e),
        Ok(unit) => Ok(
            with_last(
                d,
                EntryModel {
                    unit_mix: d.config.entries.last().unit_mix.push(
                        UnitMixModel {
                            unit,
                            a: value_of(a, "a"@),
                            b: value_of(a, "b"@),
                            to: value_of(a, "to"@),
                        },
                    ),
                    ..d.config.entries.last()
                },
            ),
        ),
    }
}

/// A virtual unit of the last entry. Its number is looked at only where there is an entry.
pub open spec fn read_virtual_unit(d: DraftModel, a: Seq<AttrModel>) -> Result<
    DraftModel,
    ConfigErrorModel,
> {
    match category_named(value_of(a, "unit"@)) {
        Err(e) => Err(e),
        Ok(unit) => if d.config.entries.len() == 0 {
            Ok(d)
        } else {
            match needed_int(value_of(a, "from"@)) {
                Err(e) => Err(e),
                Ok(from) => Ok(
                    with_last(
                        d,
                        EntryModel {
                            virtual_units: d.config.entries.last().virtual_units.push(
                                VirtualUnitModel { unit, from, to: value_of(a, "to"@) },
                            ),
                            ..d.config.entries.last()
                        },
                    ),
                ),
            }
        },
    }
}

/// A state of the last entry's automaton.
pub open spec fn read_automata(d: DraftModel, a: Seq<AttrModel>) -> DraftModel {
    with_last(
        d,
        EntryModel {
            automata: d.config.entries.last().automata.push(
                AutomataRowModel {
                    state: int_or(value_of(a, "state"@), 0) as i64,
                    value: value_of(a, "value"@),
                    default: value_of(a, "default"@),
                    remark: value_of(a, "remark"@),
                },
            ),
            ..d.config.entries.last()
        },
    )
}

/// A deleting key of the last entry.
pub open spec fn read_bksp(d: DraftModel, a: Seq<AttrModel>) -> DraftModel {
    with_last(
        d,
        EntryModel {
            bksp: d.config.entries.last().bksp.push(
                BkspModel {
                    key: int_or(value_of(a, "key"@), 0),
                    value1: value_of(a, "value1"@),
                    value2: value_of(a, "value2"@),
                    condition1: value_of(a, "condition1"@),
                    condition2: value_of(a, "condition2"@),
                },
            ),
            ..d.config.entries.last()
        },
    )
}

/// What an element with the given name and attributes makes of a draft. Elements of other names
/// say nothing, and a key says something only within an input scheme.
pub open spec fn opened(d: DraftModel, tag: Seq<u8>, a: Seq<AttrModel>) -> Result<
    DraftModel,
    ConfigErrorModel,
> {
    if spells(tag, "EditContextSetting"@) {
        Ok(
            DraftModel {
                config: ConfigModel { version: value_of(a, "version"@), ..d.config },
                ..d
            },
        )
    } else if spells(tag, "EditorLayer"@) {
        Ok(
            with_editor(
                d,
                EditorModel { flags: flags_of(value_of(a, "flag"@)), ..d.config.editor },
            ),
        )
    } else if spells(tag, "Shortcut"@) {
        Ok(read_shortcut(d, a))
    } else if spells(tag, "FinalConv"@) {
        read_final_conv(d, a)
    } else if spells(tag, "InputLayer"@) {
        Ok(read_input_layer(d, a))
    } else if spells(tag, "InputEntry"@) {
        Ok(with_entries(d, d.config.entries.push(empty_entry())))
    } else if spells(tag, "InputSchemeSetting"@) {
        Ok(
            DraftModel {
                section: Section::Scheme,
                ..with_last(
                    d,
                    EntryModel {
                        scheme_object: value_of(a, "object"@),
                        ..d.config.entries.last()
                    },
                )
            },
        )
    } else if spells(tag, "GeneratorSetting"@) {
        Ok(
            DraftModel {
                section: Section::Generator,
                ..with_last(
                    d,
                    EntryModel {
                        generator_object: value_of(a, "object"@),
                        ..d.config.entries.last()
                    },
                )
            },
        )
    } else if spells(tag, "KeyTable"@) {
        Ok(read_key_table(d, a))
    } else if spells(tag, "Key"@) && d.section == Section::Scheme {
        read_key(d, a)
    } else if spells(tag, "UnitMix"@) {
        read_unit_mix(d, a)
    } else if spells(tag, "VirtualUnit"@) {
        read_virtual_unit(d, a)
    } else if spells(tag, "AutomataTable"@) {
        Ok(
            with_last(
                d,
                EntryModel {
                    automata_default: value_of(a, "default"@),
                    ..d.config.entries.last()
                },
            ),
        )
    } else if spells(tag, "Automata"@) {
        Ok(read_automata(d, a))
    } else if spells(tag, "Bksp"@) {
        Ok(read_bksp(d, a))
    } else {
        Ok(d)
    }
}

/// What the end of an element makes of a draft.
pub open spec fn shut(d: DraftModel, tag: Seq<u8>) -> DraftModel {
    if spells(tag, "InputSchemeSetting"@) || spells(tag, "GeneratorSetting"@) {
        DraftModel { section: Section::Outside, ..d }
    } else {
        d
    }
}

/// Elements add to the entries and never take one away, and only `InputEntry` adds one.
pub proof fn entries_are_only_added(d: DraftModel, tag: Seq<u8>, a: Seq<AttrModel>)
    ensures
        opened(d, tag, a) matches Ok(e) ==> {
            &&& d.config.entries.len() <= e.config.entries.len() <= d.config.entries.len() + 1
            &&& e.config.entries.len() > d.config.entries.len() ==> spells(tag, "InputEntry"@)
        },
{
}

/// An element speaks of the last entry only: the others stay as they are.
pub proof fn earlier_entries_stay(d: DraftModel, tag: Seq<u8>, a: Seq<AttrModel>, i: int)
    requires
        0 <= i < d.config.entries.len() - 1,
    ensures
        opened(d, tag, a) matches Ok(e) ==> e.config.entries[i] == d.config.entries[i],
{
}

/// Whether a draft that is now `after` has changed as `m` says.
pub open spec fn has_changed(
    m: Result<DraftModel, ConfigErrorModel>,
    r: Result<(), ConfigError>,
    after: DraftModel,
) -> bool {
    match r {
        Ok(_) => m == Ok::<DraftModel, ConfigErrorModel>(after),
        Err(e) => m == Err::<DraftModel, ConfigErrorModel>(e@),
    }
}

spec fn entry_views(v: Seq<InputEntry>) -> Seq<EntryModel> {
    v.map_values(|e: InputEntry| e@)
}

proof fn lemma_entry_pushed(v: Seq<InputEntry>, e: InputEntry)
    ensures
        entry_views(v.push(e)) == entry_views(v).push(e@),
{
    assert(entry_views(v.push(e)) =~= entry_views(v).push(e@));
}

proof fn lemma_entry_popped(v: Seq<InputEntry>)
    requires
        v.len() > 0,
    ensures
        entry_views(v.drop_last()) == entry_views(v).drop_last(),
        entry_views(v).last() == v.last()@,
{
    assert(entry_views(v.drop_last()) =~= entry_views(v).drop_last());
}

impl Draft {
    /// A draft of nothing.
    pub fn new() -> (r: Draft)
        ensures
            r@ == blank_draft(),
    {
        let r = Draft {
            config: Config {
                version: String::new(),
                editor: Default::default(),
                default_entry: 0,
                current_entry: 0,
                entries: Vec::new(),
            },
            section: Section::Outside,
        };
        proof {
            assert(r@.config.entries =~= Seq::empty());
        }
        r
    }

    /// Takes the last entry out.
    fn take_last(&mut self) -> (r: Option<InputEntry>)
        ensures
            match r {
                Some(e) => old(self)@.config.entries.len() > 0 && e@
                    == old(self)@.config.entries.last() && final(self)@ == with_entries(
                    old(self)@,
                    old(self)@.config.entries.drop_last(),
                ),
                None => old(self)@.config.entries.len() == 0 && final(self)@ == old(self)@,
            },
    {
        proof {
            if self.config.entries@.len() > 0 {
                lemma_entry_popped(self.config.entries@);
            }
        }
        self.config.entries.pop()
    }

    /// Puts an entry at the end.
    fn put_last(&mut self, e: InputEntry)
        ensures
            final(self)@ == with_entries(old(self)@, old(self)@.config.entries.push(e@)),
    {
        proof {
            lemma_entry_pushed(self.config.entries@, e);
        }
        self.config.entries.push(e);
    }

    fn read_shortcut(&mut self, a: &Vec<Attr>)
        ensures
            final(self)@ == read_shortcut(old(self)@, attr_views(a@)),
    {
        let ghost before = self.config.editor.shortcuts@;
        let s = Shortcut {
            key: get(a, "key"),
            modifier: split_flags(get(a, "modifier")),
            usage: get(a, "usage"),
            value: get(a, "value"),
        };
        let ghost model = s@;
        self.config.editor.shortcuts.push(s);
        proof {
            assert(shortcut_views(self.config.editor.shortcuts@) =~= shortcut_views(before).push(
                model,
            ));
        }
    }

    fn read_final_conv(&mut self, a: &Vec<Attr>) -> (r: Result<(), ConfigError>)
        ensures
            has_changed(read_final_conv(old(self)@, attr_views(a@)), r, final(self)@),
    {
        let from: u32 = match parse_int(get(a, "from")) {
            Ok(n) => n,
            Err(e) => return Err(e),
        };
        let to: u32 = match parse_int(get(a, "to")) {
            Ok(n) => n,
            Err(e) => return Err(e),
        };
        self.config.editor.final_conv.insert(from, to);
        Ok(())
    }

    fn read_key_table(&mut self, a: &Vec<Attr>)
        ensures
            final(self)@ == read_key_table(old(self)@, attr_views(a@)),
    {
        if let Some(mut e) = self.take_last() {
            let t = KeyTable {
                name: get(a, "name"),
                from: parse_int_or(get(a, "from"), 33),
                to: parse_int_or(get(a, "to"), 126),
                keys: HashMap::new(),
            };
            proof {
                assert(t@.keys =~= Map::empty());
            }
            e.key_table = Some(t);
            self.put_last(e);
        }
    }

    fn read_key(&mut self, a: &Vec<Attr>) -> (r: Result<(), ConfigError>)
        ensures
            has_changed(read_key(old(self)@, attr_views(a@)), r, final(self)@),
    {
        let at = get(a, "at");
        let raw = get(a, "value");
        let n: u32 = match parse_int(at.clone()) {
            Ok(n) => n,
            Err(e) => return Err(e),
        };
        let expr = match Expr::parse(raw.as_str()) {
            Ok(e) => e,
            Err(source) => return Err(ConfigError::KeyExpr { at, source }),
        };
        if let Some(mut e) = self.take_last() {
            let ghost entry = e@;
            match e.key_table {
                Some(mut t) => {
                    let ghost before = t@;
                    let def = KeyDef { raw, expr };
                    let ghost model = def@;
                    t.keys.insert(n, def);
                    proof {
                        assert(t@.keys =~= before.keys.insert(n, model));
                    }
                    e.key_table = Some(t);
                },
                None => {
                    e.key_table = None;
                },
            }
            self.put_last(e);
            proof {
                let entries = old(self)@.config.entries;
                if entry.key_table is None {
                    assert(e@ == entry);
                    assert(entries.drop_last().push(entry) =~= entries);
                }
            }
        }
        Ok(())
    }

    fn read_unit_mix(&mut self, a: &Vec<Attr>) -> (r: Result<(), ConfigError>)
        ensures
            has_changed(read_unit_mix(old(self)@, attr_views(a@)), r, final(self)@),
    {
        let unit = match category_of(get(a, "unit")) {
            Ok(c) => c,
            Err(e) => return Err(e),
        };
        if let Some(mut e) = self.take_last() {
            let ghost before = e@;
            let m = UnitMix { unit, a: get(a, "a"), b: get(a, "b"), to: get(a, "to") };
            let ghost model = m@;
            e.unit_mix.push(m);
            proof {
                assert(e@.unit_mix =~= before.unit_mix.push(model));
            }
            self.put_last(e);
        }
        Ok(())
    }

    fn read_virtual_unit(&mut self, a: &Vec<Attr>) -> (r: Result<(), ConfigError>)
        ensures
            has_changed(read_virtual_unit(old(self)@, attr_views(a@)), r, final(self)@),
    {
        let unit = match category_of(get(a, "unit")) {
            Ok(c) => c,
            Err(e) => return Err(e),
        };
        if let Some(mut e) = self.take_last() {
            let from: u32 = match parse_int(get(a, "from")) {
                Ok(n) => n,
                Err(x) => return Err(x),
            };
            let ghost before = e@;
            let v = VirtualUnit { unit, from, to: get(a, "to") };
            let ghost model = v@;
            e.virtual_units.push(v);
            proof {
                assert(e@.virtual_units =~= before.virtual_units.push(model));
            }
            self.put_last(e);
        }
        Ok(())
    }

    fn read_automata(&mut self, a: &Vec<Attr>)
        ensures
            final(self)@ == read_automata(old(self)@, attr_views(a@)),
    {
        if let Some(mut e) = self.take_last() {
            let ghost before = e@;
            let row = AutomataRow {
                state: parse_int_or(get(a, "state"), 0) as i64,
                value: get(a, "value"),
                default: get(a, "default"),
                remark: get(a, "remark"),
            };
            let ghost model = row@;
            e.automata.push(row);
            proof {
                assert(e@.automata =~= before.automata.push(model));
            }
            self.put_last(e);
        }
    }

    fn read_bksp(&mut self, a: &Vec<Attr>)
        ensures
            final(self)@ == read_bksp(old(self)@, attr_views(a@)),
    {
        if let Some(mut e) = self.take_last() {
            let ghost before = e@;
            let b = Bksp {
                key: parse_int_or(get(a, "key"), 0),
                value1: get(a, "value1"),
                value2: get(a, "value2"),
                condition1: get(a, "condition1"),
                condition2: get(a, "condition2"),
            };
            let ghost model = b@;
            e.bksp.push(b);
            proof {
                assert(e@.bksp =~= before.bksp.push(model));
            }
            self.put_last(e);
        }
    }

    /// Takes in an element with the given name and attributes.
    pub fn open(&mut self, tag: &Vec<u8>, a: &Vec<Attr>) -> (r: Result<(), ConfigError>)
        ensures
            has_changed(opened(old(self)@, tag@, attr_views(a@)), r, final(self)@),
    {
        if is_spelled(tag, "EditContextSetting") {
            self.config.version = get(a, "version");
        } else if is_spelled(tag, "EditorLayer") {
            self.config.editor.flags = split_flags(get(a, "flag"));
        } else if is_spelled(tag, "Shortcut") {
            self.read_shortcut(a);
        } else if is_spelled(tag, "FinalConv") {
            return self.read_final_conv(a);
        } else if is_spelled(tag, "InputLayer") {
            self.config.default_entry = parse_int_or(get(a, "default"), 0) as usize;
            self.config.current_entry = parse_int_or(get(a, "current"), 0) as usize;
        } else if is_spelled(tag, "InputEntry") {
            self.put_last(Default::default());
        } else if is_spelled(tag, "InputSchemeSetting") {
            self.section = Section::Scheme;
            if let Some(mut e) = self.take_last() {
                e.scheme_object = get(a, "object");
                self.put_last(e);
            }
        } else if is_spelled(tag, "GeneratorSetting") {
            self.section = Section::Generator;
            if let Some(mut e) = self.take_last() {
                e.generator_object = get(a, "object");
                self.put_last(e);
            }
        } else if is_spelled(tag, "KeyTable") {
            self.read_key_table(a);
        } else if is_spelled(tag, "Key") && self.section == Section::Scheme {
            return self.read_key(a);
        } else if is_spelled(tag, "UnitMix") {
            return self.read_unit_mix(a);
        } else if is_spelled(tag, "VirtualUnit") {
            return self.read_virtual_unit(a);
        } else if is_spelled(tag, "AutomataTable") {
            if let Some(mut e) = self.take_last() {
                e.automata_default = get(a, "default");
                self.put_last(e);
            }
        } else if is_spelled(tag, "Automata") {
            self.read_automata(a);
        } else if is_spelled(tag, "Bksp") {
            self.read_bksp(a);
        }
        Ok(())
    }

    /// Takes in the end of an element.
    pub fn close(&mut self, tag: &Vec<u8>)
        ensures
            final(self)@ == shut(old(self)@, tag@),
    {
        if is_spelled(tag, "InputSchemeSetting") || is_spelled(tag, "GeneratorSetting") {
            self.section = Section::Outside;
        }
    }
}

} // verus!
