//! Input settings: what a settings document holds, and what an engine needs of it.

use std::collections::HashMap;

use vstd::prelude::*;

use crate::expr::{ErrorModel, Expr, ExprError, ExprModel};
use crate::text::{begins, char_at, starts_with};
use crate::unit::{compat_of, Category, Jamo};

pub mod compile;
pub mod document;
pub mod elements;
pub mod tables;
pub mod xml;

verus! {

broadcast use vstd::std_specs::hash::group_hash_axioms;

// ── errors ─────────────────────────────────────────────────────────────────────

/// An error of the XML reader.
#[verifier::external_type_specification]
#[verifier::external_body]
pub struct ExXmlError(quick_xml::Error);

/// An error in the attributes of an XML tag.
#[verifier::external_type_specification]
#[verifier::external_body]
pub struct ExAttrError(quick_xml::events::attributes::AttrError);

/// Why settings could not be read or compiled.
#[derive(Debug)]
pub enum ConfigError {
    /// The document is not XML, or holds an entity that cannot be resolved.
    Xml(quick_xml::Error),
    /// The attributes of a tag are not well formed.
    Attr(quick_xml::events::attributes::AttrError),
    /// The expression of a key cannot be read.
    KeyExpr { at: String, source: ExprError },
    /// Not a number.
    BadInt(String),
    /// Not one of the names `CHO`, `JUNG` and `JONG`.
    BadCategory(String),
    /// Not a letter, where one is needed.
    BadUnit(String),
    /// There is no input entry of this index.
    NoEntry(usize),
    /// An expression of an automaton state cannot be read.
    AutomataExpr { state: i64, source: ExprError },
}

/// A [`ConfigError`] with its texts as sequences of characters.
pub enum ConfigErrorModel {
    Xml(quick_xml::Error),
    Attr(quick_xml::events::attributes::AttrError),
    KeyExpr(Seq<char>, ErrorModel),
    BadInt(Seq<char>),
    BadCategory(Seq<char>),
    BadUnit(Seq<char>),
    NoEntry(usize),
    AutomataExpr(i64, ErrorModel),
}

impl View for ConfigError {
    type V = ConfigErrorModel;

    open spec fn view(&self) -> ConfigErrorModel {
        match *self {
            ConfigError::Xml(e) => ConfigErrorModel::Xml(e),
            ConfigError::Attr(e) => ConfigErrorModel::Attr(e),
            ConfigError::KeyExpr { at, source } => ConfigErrorModel::KeyExpr(at@, source@),
            ConfigError::BadInt(s) => ConfigErrorModel::BadInt(s@),
            ConfigError::BadCategory(s) => ConfigErrorModel::BadCategory(s@),
            ConfigError::BadUnit(s) => ConfigErrorModel::BadUnit(s@),
            ConfigError::NoEntry(i) => ConfigErrorModel::NoEntry(i),
            ConfigError::AutomataExpr { state, source } => ConfigErrorModel::AutomataExpr(
                state,
                source@,
            ),
        }
    }
}

/// The strings of a vector as sequences of characters.
pub open spec fn string_views(v: Seq<String>) -> Seq<Seq<char>> {
    v.map_values(|s: String| s@)
}

// ── settings as they stand in a document ───────────────────────────────────────

/// The settings of a document.
#[derive(Clone, Debug)]
pub struct Config {
    pub version: String,
    pub editor: EditorLayer,
    pub default_entry: usize,
    pub current_entry: usize,
    pub entries: Vec<InputEntry>,
}

/// What holds for all input entries.
#[derive(Clone, Debug)]
pub struct EditorLayer {
    pub flags: Vec<String>,
    pub shortcuts: Vec<Shortcut>,
    /// From conjoining letters to the compatibility letters that show them on their own.
    pub final_conv: HashMap<u32, u32>,
}

/// A shortcut key.
#[derive(Debug)]
pub struct Shortcut {
    pub key: String,
    pub modifier: Vec<String>,
    pub usage: String,
    pub value: String,
}

/// One way of typing.
#[derive(Clone, Debug)]
pub struct InputEntry {
    pub scheme_object: String,
    pub generator_object: String,
    pub key_table: Option<KeyTable>,
    pub unit_mix: Vec<UnitMix>,
    pub virtual_units: Vec<VirtualUnit>,
    pub automata_default: String,
    pub automata: Vec<AutomataRow>,
    pub bksp: Vec<Bksp>,
}

/// What the keys give.
#[derive(Clone, Debug)]
pub struct KeyTable {
    pub name: String,
    pub from: u32,
    pub to: u32,
    /// From the ASCII code of a key to what it gives.
    pub keys: HashMap<u32, KeyDef>,
}

/// What a key gives: the text and the expression that it writes.
#[derive(Clone, Debug)]
pub struct KeyDef {
    pub raw: String,
    pub expr: Expr,
}

/// Two letters of a place that combine into a third.
#[derive(Clone, Debug)]
pub struct UnitMix {
    pub unit: Category,
    pub a: String,
    pub b: String,
    pub to: String,
}

/// The letter behind a virtual unit.
#[derive(Clone, Debug)]
pub struct VirtualUnit {
    pub unit: Category,
    pub from: u32,
    pub to: String,
}

/// A state of the automaton.
#[derive(Clone, Debug)]
pub struct AutomataRow {
    pub state: i64,
    pub value: String,
    pub default: String,
    pub remark: String,
}

/// What a deleting key does.
#[derive(Clone, Debug)]
pub struct Bksp {
    pub key: u32,
    pub value1: String,
    pub value2: String,
    pub condition1: String,
    pub condition2: String,
}

/// A [`Shortcut`] with its texts as sequences of characters.
pub struct ShortcutModel {
    pub key: Seq<char>,
    pub modifier: Seq<Seq<char>>,
    pub usage: Seq<char>,
    pub value: Seq<char>,
}

impl View for Shortcut {
    type V = ShortcutModel;

    open spec fn view(&self) -> ShortcutModel {
        ShortcutModel {
            key: self.key@,
            modifier: string_views(self.modifier@),
            usage: self.usage@,
            value: self.value@,
        }
    }
}

/// The shortcuts of a vector.
pub open spec fn shortcut_views(v: Seq<Shortcut>) -> Seq<ShortcutModel> {
    v.map_values(|s: Shortcut| s@)
}

/// An [`EditorLayer`] with its texts as sequences of characters.
pub struct EditorModel {
    pub flags: Seq<Seq<char>>,
    pub shortcuts: Seq<ShortcutModel>,
    pub final_conv: Map<u32, u32>,
}

impl View for EditorLayer {
    type V = EditorModel;

    open spec fn view(&self) -> EditorModel {
        EditorModel {
            flags: string_views(self.flags@),
            shortcuts: shortcut_views(self.shortcuts@),
            final_conv: self.final_conv@,
        }
    }
}

/// A [`KeyDef`] with its text as a sequence of characters.
pub struct KeyDefModel {
    pub raw: Seq<char>,
    pub expr: ExprModel,
}

impl View for KeyDef {
    type V = KeyDefModel;

    open spec fn view(&self) -> KeyDefModel {
        KeyDefModel { raw: self.raw@, expr: self.expr@ }
    }
}

/// A [`KeyTable`] with its texts as sequences of characters.
pub struct KeyTableModel {
    pub name: Seq<char>,
    pub from: u32,
    pub to: u32,
    pub keys: Map<u32, KeyDefModel>,
}

impl View for KeyTable {
    type V = KeyTableModel;

    open spec fn view(&self) -> KeyTableModel {
        KeyTableModel {
            name: self.name@,
            from: self.from,
            to: self.to,
            keys: self.keys@.map_values(|k: KeyDef| k@),
        }
    }
}

/// A [`UnitMix`] with its texts as sequences of characters.
pub struct UnitMixModel {
    pub unit: Category,
    pub a: Seq<char>,
    pub b: Seq<char>,
    pub to: Seq<char>,
}

impl View for UnitMix {
    type V = UnitMixModel;

    open spec fn view(&self) -> UnitMixModel {
        UnitMixModel { unit: self.unit, a: self.a@, b: self.b@, to: self.to@ }
    }
}

/// A [`VirtualUnit`] with its text as a sequence of characters.
pub struct VirtualUnitModel {
    pub unit: Category,
    pub from: u32,
    pub to: Seq<char>,
}

impl View for VirtualUnit {
    type V = VirtualUnitModel;

    open spec fn view(&self) -> VirtualUnitModel {
        VirtualUnitModel { unit: self.unit, from: self.from, to: self.to@ }
    }
}

/// An [`AutomataRow`] with its texts as sequences of characters.
pub struct AutomataRowModel {
    pub state: i64,
    pub value: Seq<char>,
    pub default: Seq<char>,
    pub remark: Seq<char>,
}

impl View for AutomataRow {
    type V = AutomataRowModel;

    open spec fn view(&self) -> AutomataRowModel {
        AutomataRowModel {
            state: self.state,
            value: self.value@,
            default: self.default@,
            remark: self.remark@,
        }
    }
}

/// A [`Bksp`] with its texts as sequences of characters.
pub struct BkspModel {
    pub key: u32,
    pub value1: Seq<char>,
    pub value2: Seq<char>,
    pub condition1: Seq<char>,
    pub condition2: Seq<char>,
}

impl View for Bksp {
    type V = BkspModel;

    open spec fn view(&self) -> BkspModel {
        BkspModel {
            key: self.key,
            value1: self.value1@,
            value2: self.value2@,
            condition1: self.condition1@,
            condition2: self.condition2@,
        }
    }
}

/// An [`InputEntry`] with its texts as sequences of characters.
pub struct EntryModel {
    pub scheme_object: Seq<char>,
    pub generator_object: Seq<char>,
    pub key_table: Option<KeyTableModel>,
    pub unit_mix: Seq<UnitMixModel>,
    pub virtual_units: Seq<VirtualUnitModel>,
    pub automata_default: Seq<char>,
    pub automata: Seq<AutomataRowModel>,
    pub bksp: Seq<BkspModel>,
}

impl View for InputEntry {
    type V = EntryModel;

    open spec fn view(&self) -> EntryModel {
        EntryModel {
            scheme_object: self.scheme_object@,
            generator_object: self.generator_object@,
            key_table: match self.key_table {
                Some(t) => Some(t@),
                None => None,
            },
            unit_mix: self.unit_mix@.map_values(|m: UnitMix| m@),
            virtual_units: self.virtual_units@.map_values(|v: VirtualUnit| v@),
            automata_default: self.automata_default@,
            automata: self.automata@.map_values(|r: AutomataRow| r@),
            bksp: self.bksp@.map_values(|b: Bksp| b@),
        }
    }
}

/// A [`Config`] with its texts as sequences of characters.
pub struct ConfigModel {
    pub version: Seq<char>,
    pub editor: EditorModel,
    pub default_entry: usize,
    pub current_entry: usize,
    pub entries: Seq<EntryModel>,
}

impl View for Config {
    type V = ConfigModel;

    open spec fn view(&self) -> ConfigModel {
        ConfigModel {
            version: self.version@,
            editor: self.editor@,
            default_entry: self.default_entry,
            current_entry: self.current_entry,
            entries: self.entries@.map_values(|e: InputEntry| e@),
        }
    }
}

/// Nothing set.
pub open spec fn empty_editor() -> EditorModel {
    EditorModel { flags: Seq::empty(), shortcuts: Seq::empty(), final_conv: Map::empty() }
}

impl Default for EditorLayer {
    fn default() -> (r: EditorLayer)
        ensures
            r@ == empty_editor(),
    {
        let r = EditorLayer { flags: Vec::new(), shortcuts: Vec::new(), final_conv: HashMap::new() };
        proof {
            assert(string_views(r.flags@) =~= Seq::empty());
            assert(shortcut_views(r.shortcuts@) =~= Seq::empty());
        }
        r
    }
}

/// An entry with nothing set.
pub open spec fn empty_entry() -> EntryModel {
    EntryModel {
        scheme_object: Seq::empty(),
        generator_object: Seq::empty(),
        key_table: None,
        unit_mix: Seq::empty(),
        virtual_units: Seq::empty(),
        automata_default: Seq::empty(),
        automata: Seq::empty(),
        bksp: Seq::empty(),
    }
}

impl Default for InputEntry {
    fn default() -> (r: InputEntry)
        ensures
            r@ == empty_entry(),
    {
        let r = InputEntry {
            scheme_object: String::new(),
            generator_object: String::new(),
            key_table: None,
            unit_mix: Vec::new(),
            virtual_units: Vec::new(),
            automata_default: String::new(),
            automata: Vec::new(),
            bksp: Vec::new(),
        };
        proof {
            assert(r@.unit_mix =~= Seq::empty());
            assert(r@.virtual_units =~= Seq::empty());
            assert(r@.automata =~= Seq::empty());
            assert(r@.bksp =~= Seq::empty());
        }
        r
    }
}

/// Whether an entry composes Hangul: its generator is one of the Hangul generators and it has
/// keys.
pub open spec fn is_hangul_entry(e: EntryModel) -> bool {
    begins(e.generator_object, "CNgsIme"@) && e.key_table is Some
}

impl Config {
    /// The index of the first entry that composes Hangul.
    pub fn first_hangul_entry(&self) -> (r: Option<usize>)
        ensures
            match r {
                Some(i) => i < self@.entries.len() && is_hangul_entry(self@.entries[i as int])
                    && forall|k: int|
                    0 <= k < i ==> !is_hangul_entry(#[trigger] self@.entries[k]),
                None => forall|k: int|
                    0 <= k < self@.entries.len() ==> !is_hangul_entry(#[trigger] self@.entries[k]),
            },
    {
        let mut i: usize = 0;
        while i < self.entries.len()
            invariant
                i <= self.entries@.len(),
                forall|k: int| 0 <= k < i ==> !is_hangul_entry(#[trigger] self@.entries[k]),
            decreases self.entries@.len() - i,
        {
            let e = &self.entries[i];
            assert(self@.entries[i as int] == e@);
            if starts_with(e.generator_object.as_str(), "CNgsIme") && e.key_table.is_some() {
                return Some(i);
            }
            i = i + 1;
        }
        None
    }
}

// ── settings as an engine needs them ───────────────────────────────────────────

/// A state of the automaton: an expression for where a letter leads, and one for where the first
/// gives no integer.
#[derive(Clone, Debug)]
pub struct AutomataState {
    pub value: Expr,
    pub default: Expr,
}

/// An [`AutomataState`] with its names as sequences of characters.
pub struct StateModel {
    pub value: ExprModel,
    pub default: ExprModel,
}

impl View for AutomataState {
    type V = StateModel;

    open spec fn view(&self) -> StateModel {
        StateModel { value: self.value@, default: self.default@ }
    }
}

/// How much one press of the deleting key takes away.
#[derive(Clone, Copy, Debug, PartialEq, Eq, Structural)]
pub enum BkspUnit {
    /// The last key press.
    LastKey,
    /// The last key press of the lowest letter: of the final, else the vowel, else the initial.
    LowestLastKey,
    /// The whole of the lowest letter.
    LowestWhole,
    /// The whole syllable.
    Syllable,
}

impl Default for BkspUnit {
    fn default() -> (r: BkspUnit)
        ensures
            r == BkspUnit::LastKey,
    {
        BkspUnit::LastKey
    }
}

/// What the deleting key does.
#[derive(Clone, Copy, Debug, PartialEq, Eq, Structural)]
pub struct BkspBehavior {
    /// How much it takes from the syllable that is being composed.
    pub composing: BkspUnit,
    /// How much it takes where nothing is being composed.
    pub idle: BkspUnit,
    /// Whether it takes up a committed syllable again once nothing is being composed.
    pub attach: bool,
}

impl Default for BkspBehavior {
    fn default() -> (r: BkspBehavior)
        ensures
            r == (BkspBehavior {
                composing: BkspUnit::LastKey,
                idle: BkspUnit::LastKey,
                attach: false,
            }),
    {
        BkspBehavior { composing: BkspUnit::LastKey, idle: BkspUnit::LastKey, attach: false }
    }
}

/// Which two letters of a place combine, and into what. The second may be the toggle.
#[derive(Clone, Debug)]
pub struct CombineTable {
    table: HashMap<u128, u32>,
}

/// A combination as one number.
spec fn packed(cat: Category, a: u32, b: u32) -> u128 {
    let high: int = match cat {
        Category::Cho => 0,
        Category::Jung => 1,
        Category::Jong => 2,
    };
    (high * 0x1_0000_0000_0000_0000 + a * 0x1_0000_0000 + b) as u128
}

fn pack(cat: Category, a: u32, b: u32) -> (r: u128)
    ensures
        r == packed(cat, a, b),
{
    let high: u128 = match cat {
        Category::Cho => 0,
        Category::Jung => 1,
        Category::Jong => 2,
    };
    high * 0x1_0000_0000_0000_0000 + a as u128 * 0x1_0000_0000 + b as u128
}

impl View for CombineTable {
    type V = Map<(Category, u32, u32), u32>;

    closed spec fn view(&self) -> Map<(Category, u32, u32), u32> {
        Map::new(
            |k: (Category, u32, u32)| self.table@.contains_key(packed(k.0, k.1, k.2)),
            |k: (Category, u32, u32)| self.table@[packed(k.0, k.1, k.2)],
        )
    }
}

impl CombineTable {
    /// No combinations.
    pub fn new() -> (r: CombineTable)
        ensures
            r@ == Map::<(Category, u32, u32), u32>::empty(),
    {
        let r = CombineTable { table: HashMap::new() };
        proof {
            assert(r@ =~= Map::<(Category, u32, u32), u32>::empty());
        }
        r
    }

    /// Lets `a` and `b` combine into `to`.
    pub fn insert(&mut self, cat: Category, a: u32, b: u32, to: u32)
        ensures
            final(self)@ == old(self)@.insert((cat, a, b), to),
    {
        self.table.insert(pack(cat, a, b), to);
        proof {
            assert(self@ =~= old(self)@.insert((cat, a, b), to));
        }
    }

    /// What `a` and `b` combine into.
    pub fn get(&self, cat: Category, a: u32, b: u32) -> (r: Option<u32>)
        ensures
            r == lookup(self@, (cat, a, b)),
    {
        match self.table.get(&pack(cat, a, b)) {
            Some(to) => Some(*to),
            None => None,
        }
    }
}

/// What a map holds under a key.
pub open spec fn lookup<K, V>(m: Map<K, V>, k: K) -> Option<V> {
    if m.contains_key(k) {
        Some(m[k])
    } else {
        None
    }
}

/// An input entry, ready for an engine.
#[derive(Clone, Debug)]
pub struct Layout {
    pub name: String,
    /// From the ASCII code of a key to what it gives.
    pub keys: HashMap<u32, Expr>,
    /// Which letters combine.
    pub combine: CombineTable,
    /// The letters behind the virtual units.
    pub virtual_units: HashMap<u32, Jamo>,
    /// From conjoining letters to the compatibility letters that show them on their own.
    pub final_conv: HashMap<u32, u32>,
    /// The shortcut keys, for the front end.
    pub shortcuts: Vec<Shortcut>,
    /// The states of the automaton. Without any, letters are placed by the built-in rules.
    pub automata: HashMap<i64, AutomataState>,
    /// The state in which a syllable starts.
    pub automata_start: i64,
    /// What the deleting key does.
    pub bksp: BkspBehavior,
}

/// A [`Layout`] with its texts as sequences of characters and its tables as maps.
pub struct LayoutModel {
    pub name: Seq<char>,
    pub keys: Map<u32, ExprModel>,
    pub combine: Map<(Category, u32, u32), u32>,
    pub virtual_units: Map<u32, Jamo>,
    pub final_conv: Map<u32, u32>,
    pub shortcuts: Seq<ShortcutModel>,
    pub automata: Map<i64, StateModel>,
    pub automata_start: i64,
    pub bksp: BkspBehavior,
}

impl View for Layout {
    type V = LayoutModel;

    open spec fn view(&self) -> LayoutModel {
        LayoutModel {
            name: self.name@,
            keys: self.keys@.map_values(|e: Expr| e@),
            combine: self.combine@,
            virtual_units: self.virtual_units@,
            final_conv: self.final_conv@,
            shortcuts: shortcut_views(self.shortcuts@),
            automata: self.automata@.map_values(|s: AutomataState| s@),
            automata_start: self.automata_start,
            bksp: self.bksp,
        }
    }
}

/// What two letters of a place combine into.
pub open spec fn combined(l: LayoutModel, cat: Category, a: u32, b: u32) -> Option<u32> {
    lookup(l.combine, (cat, a, b))
}

/// The character that shows a letter on its own: the one that the settings give, else the
/// compatibility letter of a modern letter.
pub open spec fn standalone_of(l: LayoutModel, j: Jamo) -> Option<char> {
    let cp = if l.final_conv.contains_key(j.cp) {
        Some(l.final_conv[j.cp])
    } else {
        compat_of(j)
    };
    match cp {
        Some(n) => char_at(n as int),
        None => None,
    }
}

impl Layout {
    /// What two letters of a place, or a letter and the toggle, combine into.
    pub fn combine(&self, cat: Category, a_cp: u32, b_cp: u32) -> (r: Option<u32>)
        ensures
            r == combined(self@, cat, a_cp, b_cp),
    {
        self.combine.get(cat, a_cp, b_cp)
    }

    /// The character that shows a letter on its own.
    pub fn standalone(&self, j: Jamo) -> (r: Option<char>)
        ensures
            r == standalone_of(self@, j),
    {
        let cp: Option<u32> = match self.final_conv.get(&j.cp) {
            Some(n) => Some(*n),
            None => j.default_compat(),
        };
        match cp {
            Some(n) => char::from_u32(n),
            None => None,
        }
    }
}

} // verus!
