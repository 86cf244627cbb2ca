//! The front end: takes the events of an input bus and says what to tell the bus.
//!
//! It holds all entries of the settings. One of them is active; switching keys go from one to
//! another. An entry whose keys give Hangul units composes, any other types characters.

use std::collections::HashMap;

use vstd::prelude::*;

use crate::config::{lookup, shortcut_views, Config, Layout};
use crate::engine::Engine;
use crate::evdev::us_qwerty_ascii;
use crate::expr::lexer::{lex_from, run_end, scan, At, Sym, TokModel};
use crate::expr::parser::{operand, operation, parsed, primary, Parsed};
use crate::expr::{evaluate, Ctx, ErrorModel, Expr, ExprModel, Value};
use crate::settings::{default_settings, settings_of, Settings};
use crate::text::{chars_of, code_point, digit_char, numeral, same, write_numeral};

pub mod entries;
pub mod events;
pub mod laws;
pub mod model;

use model::{
    capped, class_of, dropped, first_or_second, flushed, front_of, has_hangul_key, is_modifier,
    keysym_named, latin_char, latin_ctx, mode_of, modes_of, processed, processed_defined, subscript,
    switch_defined, switched, switches, switches_of, symbol, target, told, typed, typed_defined,
    valid, with_settings, ActionModel, Front, KeyClass, ModeModel, Reply, KEY_BACKSPACE, KEY_HANGUL,
    LOCK_MASK, RELEASE_MASK, SHIFT_MASK, SPECIAL_MODS,
};

verus! {

broadcast use vstd::std_specs::hash::group_hash_axioms;

// ── texts ──────────────────────────────────────────────────────────────────────

proof fn lemma_numeral_digits(n: nat)
    ensures
        forall|i: int| 0 <= i < numeral(n, 10).len() ==> '0' <= #[trigger] numeral(n, 10)[i] <= '9',
    decreases n,
{
    let all = numeral(n, 10);
    if n >= 10 {
        lemma_numeral_digits(n / 10);
        let high = numeral(n / 10, 10);
        assert(all == high.push(digit_char((n % 10) as int)));
        assert forall|i: int| 0 <= i < all.len() implies '0' <= #[trigger] all[i] <= '9' by {
            if i < high.len() {
                assert(all[i] == high[i]);
            }
        }
    } else {
        assert(all == seq![digit_char(n as int)]);
    }
}

/// `n` in subscript digits.
pub fn subscript_digits(n: usize) -> (r: String)
    ensures
        r@ == subscript(n as nat),
{
    let mut plain = String::new();
    write_numeral(&mut plain, n as u64, 10);
    let digits = chars_of(plain.as_str());
    let mut r = String::new();
    let mut i: usize = 0;
    proof {
        assert(plain@ =~= numeral(n as nat, 10));
        lemma_numeral_digits(n as nat);
    }
    while i < digits.len()
        invariant
            i <= digits@.len(),
            digits@ == numeral(n as nat, 10),
            forall|k: int| 0 <= k < digits@.len() ==> '0' <= #[trigger] digits@[k] <= '9',
            r@ == subscript(n as nat).take(i as int),
        decreases digits@.len() - i,
    {
        let c = digits[i];
        let cp: u32 = 0x2080 + (code_point(c) - 0x30);
        proof {
            let all = subscript(n as nat);
            assert(all.take(i as int + 1) =~= all.take(i as int).push(all[i as int]));
        }
        match char::from_u32(cp) {
            Some(d) => r.push(d),
            None => r.push(c),
        }
        i = i + 1;
    }
    proof {
        assert(subscript(n as nat).take(digits@.len() as int) =~= subscript(n as nat));
    }
    r
}

// ── keys ───────────────────────────────────────────────────────────────────────

/// Whether the key symbol is that of a modifier.
pub fn is_modifier_keysym(keyval: u32) -> (r: bool)
    ensures
        r == is_modifier(keyval),
{
    (0xffe1 <= keyval && keyval <= 0xffee) || (0xfe01 <= keyval && keyval <= 0xfe0f) || keyval
        == 0xff7e
}

/// The key symbol of a virtual key name.
pub fn vk_to_keysyms(vk: &str) -> (r: Option<u32>)
    ensures
        r == keysym_named(vk@),
{
    if same(vk, "VK_HANGUL") {
        Some(0xff31)
    } else if same(vk, "VK_HANJA") {
        Some(0xff34)
    } else if same(vk, "VK_CAPITAL") {
        Some(0xffe5)
    } else if same(vk, "VK_SPACE") {
        Some(0x20)
    } else if same(vk, "VK_RMENU") {
        Some(0xffea)
    } else if same(vk, "VK_RCONTROL") {
        Some(0xffe4)
    } else {
        None
    }
}

// ── what to tell the bus ───────────────────────────────────────────────────────

/// Something to tell the input bus.
#[derive(Debug, PartialEq, Eq)]
pub enum Action {
    /// Commit a text.
    Commit(String),
    /// Show a text as being composed.
    Preedit { text: String, cursor: u32, visible: bool },
    /// Announce the mode indicator with this symbol.
    Register(String),
    /// Show this symbol in the mode indicator.
    Indicate(String),
}

impl View for Action {
    type V = ActionModel;

    open spec fn view(&self) -> ActionModel {
        match *self {
            Action::Commit(s) => ActionModel::Commit(s@),
            Action::Preedit { text, cursor, visible } => ActionModel::Preedit(
                text@,
                cursor,
                visible,
            ),
            Action::Register(s) => ActionModel::Register(s@),
            Action::Indicate(s) => ActionModel::Indicate(s@),
        }
    }
}

/// The actions of a vector.
pub open spec fn action_views(v: Seq<Action>) -> Seq<ActionModel> {
    v.map_values(|a: Action| a@)
}

/// Commits a text, if there is any, and shows another as being composed.
pub fn emit(commit: String, preedit: String) -> (r: Vec<Action>)
    ensures
        action_views(r@) == told(commit@, preedit@),
{
    let mut r: Vec<Action> = Vec::new();
    let ghost c = commit@;
    let ghost p = preedit@;
    if !commit.as_str().is_empty() {
        r.push(Action::Commit(commit));
    }
    let chars = chars_of(preedit.as_str());
    let cursor: u32 = chars.len() as u32;
    let visible = chars.len() > 0;
    r.push(Action::Preedit { text: preedit, cursor, visible });
    proof {
        assert(action_views(r@) =~= told(c, p));
    }
    r
}

// ── entries at work ────────────────────────────────────────────────────────────

/// An entry at work.
#[derive(Debug)]
pub enum Mode {
    /// Composes Hangul.
    Hangul(Box<Engine>),
    /// Types the characters that its keys give.
    Latin { keys: HashMap<u32, Expr> },
}

impl View for Mode {
    type V = ModeModel;

    open spec fn view(&self) -> ModeModel {
        match *self {
            Mode::Hangul(e) => ModeModel::Hangul(e.layout_model(), e@),
            Mode::Latin { keys } => ModeModel::Latin(keys@.map_values(|e: Expr| e@)),
        }
    }
}

impl Mode {
    /// Whether the entry composes Hangul.
    pub fn is_hangul(&self) -> (r: bool)
        ensures
            r == (self@ is Hangul),
    {
        match self {
            Mode::Hangul(_) => true,
            Mode::Latin { .. } => false,
        }
    }

    /// The letter that stands for the entry in the mode indicator.
    pub fn symbol_prefix(&self) -> (r: &'static str)
        ensures
            r@ == (if self@ is Hangul {
                "가"@
            } else {
                "A"@
            }),
    {
        if self.is_hangul() {
            "가"
        } else {
            "A"
        }
    }
}

/// Whether a key of the layout can give a Hangul unit.
fn gives_hangul(l: &Layout) -> (r: bool)
    ensures
        r == has_hangul_key(l@),
{
    let ghost all = l.keys@;
    for (at, e) in it: l.keys.iter()
        invariant
            all == l.keys@,
            forall|i: int|
                0 <= i < it.seq().len() ==> all.contains_key(*(#[trigger] it.seq()[i]).0)
                    && all[*it.seq()[i].0] == *it.seq()[i].1,
            forall|k: u32| #[trigger] all.contains_key(k) ==> it.seq().contains((&k, &all[k])),
            forall|i: int|
                0 <= i < it.index() ==> !Expr::has_unit((*(#[trigger] it.seq()[i]).1)@),
    {
        if e.contains_unit() {
            proof {
                assert(l@.keys.contains_key(*at) && Expr::has_unit(l@.keys[*at]));
            }
            return true;
        }
    }
    proof {
        assert forall|k: u32| l@.keys.contains_key(k) implies !Expr::has_unit(
            #[trigger] l@.keys[k],
        ) by {
            assert(all.contains_key(k));
        }
    }
    false
}

fn mode_at(config: &Config, i: usize) -> (r: Mode)
    ensures
        r@ == mode_of(config@, i),
{
    match config.compile(i) {
        Ok(layout) => if gives_hangul(&layout) {
            Mode::Hangul(Box::new(Engine::new(layout)))
        } else {
            Mode::Latin { keys: layout.keys }
        },
        Err(_) => {
            let m = Mode::Latin { keys: HashMap::new() };
            proof {
                assert(m@->Latin_0 =~= Map::empty());
            }
            m
        },
    }
}

spec fn mode_views(v: Seq<Mode>) -> Seq<ModeModel> {
    v.map_values(|m: Mode| m@)
}

fn all_modes(config: &Config) -> (r: Vec<Mode>)
    ensures
        mode_views(r@) == modes_of(config@),
{
    let mut r: Vec<Mode> = Vec::new();
    let mut i: usize = 0;
    let ghost all = modes_of(config@);
    while i < config.entries.len()
        invariant
            i <= config.entries@.len(),
            all == modes_of(config@),
            config@.entries.len() == config.entries@.len(),
            mode_views(r@).len() == i,
            forall|k: int| 0 <= k < i ==> #[trigger] mode_views(r@)[k] == mode_of(
                config@,
                k as usize,
            ),
        decreases config.entries@.len() - i,
    {
        let ghost before = r@;
        let m = mode_at(config, i);
        let ghost model = m@;
        r.push(m);
        proof {
            assert(mode_views(r@) =~= mode_views(before).push(model));
        }
        i = i + 1;
    }
    if r.len() == 0 {
        let m = Mode::Latin { keys: HashMap::new() };
        proof {
            assert(m@->Latin_0 =~= Map::empty());
        }
        r.push(m);
    }
    proof {
        assert(mode_views(r@) =~= modes_of(config@));
    }
    r
}

// ── switching keys ─────────────────────────────────────────────────────────────

proof fn lemma_default_switch()
    ensures
        parsed("!A"@) == Ok::<ExprModel, ErrorModel>(first_or_second()),
{
    reveal_strlit("!A");
    reveal_strlit("A");
    let s = "!A"@;
    assert(s.len() == 2 && s[0] == '!' && s[1] == 'A');
    reveal_with_fuel(lex_from, 4);
    reveal_with_fuel(run_end, 3);
    assert(s.subrange(1, 2) =~= "A"@);
    let last = seq![TokModel::Ident("A"@)];
    let t = seq![TokModel::Sym(Sym::Bang), TokModel::Ident("A"@)];
    assert(scan(s, 1) == At::Token(TokModel::Ident("A"@), 2));
    assert(lex_from(s, 2) == Ok::<Seq<TokModel>, ErrorModel>(Seq::empty()));
    assert(last + Seq::<TokModel>::empty() =~= last);
    assert(lex_from(s, 1) == Ok::<Seq<TokModel>, ErrorModel>(last));
    assert(seq![TokModel::Sym(Sym::Bang)] + last =~= t);
    assert(lex_from(s, 0) == Ok::<Seq<TokModel>, ErrorModel>(t));
    assert(primary(t, 1) == Ok::<Parsed, ErrorModel>(Parsed { e: ExprModel::Var("A"@), used: 1 }));
    assert(operand(t, 1) == primary(t, 1));
    assert(operand(t, 0) is Ok);
    assert(operation(t, 0, 0) == operand(t, 0));
}

spec fn exprs(m: Map<u32, Expr>) -> Map<u32, ExprModel> {
    m.map_values(|e: Expr| e@)
}

/// The switching keys of the shortcuts, with the Hangul key among them.
fn all_switches(config: &Config) -> (r: HashMap<u32, Expr>)
    ensures
        exprs(r@) == switches_of(config@),
{
    let shortcuts = &config.editor.shortcuts;
    let ghost all = config@.editor.shortcuts;
    let mut r: HashMap<u32, Expr> = HashMap::new();
    let mut i: usize = 0;
    proof {
        assert(exprs(r@) =~= switches(all.take(0)));
    }
    while i < shortcuts.len()
        invariant
            i <= shortcuts@.len(),
            all == shortcut_views(shortcuts@),
            exprs(r@) == switches(all.take(i as int)),
        decreases shortcuts@.len() - i,
    {
        let sc = &shortcuts[i];
        let ghost before = r@;
        proof {
            assert(all.take(i as int + 1).drop_last() =~= all.take(i as int));
            assert(all[i as int] == sc@);
        }
        if same(sc.usage.as_str(), "IME_SWITCH") {
            if let Ok(e) = Expr::parse(sc.value.as_str()) {
                if let Some(k) = vk_to_keysyms(sc.key.as_str()) {
                    let ghost model = e@;
                    r.insert(k, e);
                    proof {
                        assert(exprs(r@) =~= exprs(before).insert(k, model));
                    }
                }
            }
        }
        i = i + 1;
    }
    proof {
        assert(all.take(all.len() as int) =~= all);
    }
    if !r.contains_key(&KEY_HANGUL) {
        proof {
            lemma_default_switch();
        }
        if let Ok(e) = Expr::parse("!A") {
            let ghost before = r@;
            let ghost model = e@;
            r.insert(KEY_HANGUL, e);
            proof {
                assert(exprs(r@) =~= exprs(before).insert(KEY_HANGUL, model));
            }
        }
    }
    r
}

// ── the front end ──────────────────────────────────────────────────────────────

fn cap(i: usize, n: usize) -> (r: usize)
    requires
        n > 0,
    ensures
        r == capped(i, n as nat),
{
    if i < n {
        i
    } else {
        n - 1
    }
}

/// The front end for one input context.
#[derive(Debug)]
pub struct IBusEngine {
    entries: Vec<Mode>,
    current: usize,
    default_entry: usize,
    ime_switch: HashMap<u32, Expr>,
    settings: Settings,
    hangul_idx: usize,
    latin_idx: usize,
}

/// What an event leads to.
#[derive(Debug)]
pub struct Response {
    /// What to tell the bus, in this order.
    pub actions: Vec<Action>,
    /// Whether the event is used up.
    pub handled: bool,
}

impl View for IBusEngine {
    type V = Front;

    closed spec fn view(&self) -> Front {
        Front {
            entries: mode_views(self.entries@),
            current: self.current,
            default_entry: self.default_entry,
            ime_switch: exprs(self.ime_switch@),
            settings: self.settings,
            hangul_idx: self.hangul_idx,
            latin_idx: self.latin_idx,
        }
    }
}

/// Whether a front end that is now `after` has replied as `m` says.
pub open spec fn has_replied(m: Reply, r: Response, after: Front) -> bool {
    after == m.state && action_views(r.actions@) == m.actions && r.handled == m.handled
}

impl IBusEngine {
    /// The front end for a document and the text of a settings file, if there is one.
    pub fn new(config: &Config, ini: Option<&str>) -> (r: IBusEngine)
        ensures
            valid(r@),
            r@ == front_of(
                config@,
                match ini {
                    Some(b) => settings_of(b@),
                    None => default_settings(),
                },
            ),
    {
        IBusEngine::with_settings(config, Settings::load(ini))
    }

    /// The front end for a document and settings.
    pub fn with_settings(config: &Config, st: Settings) -> (r: IBusEngine)
        ensures
            valid(r@),
            r@ == front_of(config@, st),
    {
        let entries = all_modes(config);
        let ime_switch = all_switches(config);
        proof {
            assert(mode_views(entries@).len() == entries@.len());
        }
        let default_entry: usize = cap(config.default_entry, entries.len());
        let mut engine = IBusEngine {
            entries,
            current: default_entry,
            default_entry,
            ime_switch,
            settings: Default::default(),
            hangul_idx: 0,
            latin_idx: 0,
        };
        engine.apply_settings(st);
        engine
    }

    /// Puts settings in force.
    pub fn apply_settings(&mut self, st: Settings)
        requires
            valid(old(self)@),
        ensures
            valid(final(self)@),
            final(self)@ == with_settings(old(self)@, st),
    {
        let n: usize = self.entries.len();
        let was_simple = self.settings.simple_mode;
        self.hangul_idx = cap(st.hangul_entry, n);
        self.latin_idx = cap(st.latin_entry, n);
        if st.simple_mode {
            if !was_simple || (self.current != self.hangul_idx && self.current != self.latin_idx) {
                self.current = self.hangul_idx;
            }
        } else if was_simple {
            self.current = cap(self.default_entry, n);
        }
        self.settings = st;
    }

    /// Puts the settings of the given text in force, if they differ from those in force. Returns
    /// whether they do.
    pub fn reload_settings(&mut self, ini: Option<&str>) -> (r: bool)
        requires
            valid(old(self)@),
        ensures
            valid(final(self)@),
            ({
                let st = match ini {
                    Some(b) => settings_of(b@),
                    None => default_settings(),
                };
                &&& r == (st != old(self)@.settings)
                &&& final(self)@ == (if r {
                    with_settings(old(self)@, st)
                } else {
                    old(self)@
                })
            }),
    {
        let st = Settings::load(ini);
        if st == self.settings {
            return false;
        }
        self.apply_settings(st);
        true
    }

    /// The settings in force.
    pub fn settings(&self) -> (r: Settings)
        ensures
            r == self@.settings,
    {
        self.settings
    }

    /// The index of the active entry.
    pub fn current(&self) -> (r: usize)
        ensures
            r == self@.current,
    {
        self.current
    }

    /// The switching keys: from key symbols to the expressions that say where to go.
    pub fn ime_switch(&self) -> (r: &HashMap<u32, Expr>)
        ensures
            r@.map_values(|e: Expr| e@) == self@.ime_switch,
    {
        &self.ime_switch
    }

    /// The active entry.
    pub fn cur(&self) -> (r: &Mode)
        requires
            valid(self@),
        ensures
            r@ == self@.entries[self@.current as int],
    {
        &self.entries[self.current]
    }

    /// The symbol of the active entry for the mode indicator.
    pub fn mode_symbol(&self) -> (r: String)
        requires
            valid(self@),
        ensures
            r@ == symbol(self@),
    {
        let mut r = self.cur().symbol_prefix().to_owned();
        if !self.settings.simple_mode {
            let number = subscript_digits(self.current);
            r.append(number.as_str());
        }
        r
    }

    /// What a key event is, whatever entry is active.
    pub fn classify(&self, keyval: u32, keycode: u32, state: u32) -> (r: KeyClass)
        ensures
            r == class_of(self@, keyval, keycode, state),
    {
        if self.ime_switch.contains_key(&keyval) {
            return KeyClass::ImeSwitch;
        }
        if state & RELEASE_MASK != 0 {
            return KeyClass::Release;
        }
        if is_modifier_keysym(keyval) {
            return KeyClass::Modifier;
        }
        if state & SPECIAL_MODS != 0 {
            return KeyClass::ShortcutCombo;
        }
        if keyval == KEY_BACKSPACE {
            return KeyClass::Backspace;
        }
        let shift = state & SHIFT_MASK != 0;
        if let Some(ascii) = us_qwerty_ascii(keycode, shift) {
            return KeyClass::Printable(ascii);
        }
        if 0x20 <= keyval && keyval <= 0x7e {
            return KeyClass::Printable(keyval as u8);
        }
        KeyClass::FunctionKey
    }

    /// The entry that a switching key leads to.
    pub fn switch_target(&self, keyval: u32) -> (r: usize)
        requires
            valid(self@),
            switch_defined(self@, keyval),
        ensures
            r == target(self@, keyval),
            r < self@.entries.len(),
    {
        if self.settings.simple_mode {
            return if self.current == self.hangul_idx {
                self.latin_idx
            } else {
                self.hangul_idx
            };
        }
        let n: usize = self.entries.len();
        match self.ime_switch.get(&keyval) {
            Some(e) => match e.eval(&Ctx { a: self.current as i64, ..Default::default() }) {
                Ok(Value::Int(t)) => if t < 0 {
                    0
                } else if t as u64 >= n as u64 {
                    n - 1
                } else {
                    t as usize
                },
                _ => self.current,
            },
            None => self.current,
        }
    }

    /// Commits what the active entry is composing.
    pub fn flush_current(&mut self) -> (r: Vec<Action>)
        requires
            valid(old(self)@),
        ensures
            valid(final(self)@),
            final(self)@ == flushed(old(self)@).state,
            action_views(r@) == flushed(old(self)@).actions,
    {
        let i: usize = self.current;
        let mut r: Vec<Action> = Vec::new();
        if let Mode::Hangul(core) = &mut self.entries[i] {
            let commit = core.flush();
            if !commit.as_str().is_empty() {
                r = emit(commit, String::new());
            }
        }
        proof {
            assert(self@ =~= flushed(old(self)@).state);
            assert(action_views(r@) =~= flushed(old(self)@).actions);
        }
        r
    }

    /// Goes to the entry that a switching key leads to.
    fn switch(&mut self, keyval: u32) -> (r: Response)
        requires
            valid(old(self)@),
            switch_defined(old(self)@, keyval),
        ensures
            valid(final(self)@),
            has_replied(switched(old(self)@, keyval), r, final(self)@),
    {
        let t: usize = self.switch_target(keyval);
        if t == self.current {
            let actions: Vec<Action> = Vec::new();
            proof {
                assert(action_views(actions@) =~= Seq::empty());
            }
            return Response { actions, handled: true };
        }
        let mut actions = self.flush_current();
        self.current = t;
        let ghost before = actions@;
        let indicator = Action::Indicate(self.mode_symbol());
        let ghost model = indicator@;
        actions.push(indicator);
        proof {
            assert(action_views(actions@) =~= action_views(before).push(model));
        }
        Response { actions, handled: true }
    }

    /// The character that a key types in an entry for Latin letters.
    fn char_of_key(keys: &HashMap<u32, Expr>, class: KeyClass, caps: bool) -> (r: Option<char>)
        requires
            class matches KeyClass::Printable(ascii) ==> (lookup(exprs(keys@), ascii as u32) matches
                Some(e) ==> evaluate(e, latin_ctx(caps)) !is Undefined),
        ensures
            r == latin_char(exprs(keys@), class, caps),
    {
        if let KeyClass::Printable(ascii) = class {
            if let Some(e) = keys.get(&(ascii as u32)) {
                let ctx = Ctx { p: caps as i64, ..Default::default() };
                if let Ok(Value::Int(n)) = e.eval(&ctx) {
                    if 0 <= n && n <= 0xFFFF_FFFF {
                        return char::from_u32(n as u32);
                    }
                }
            }
        }
        None
    }

    /// What a key does in the active entry.
    fn type_key(&mut self, class: KeyClass, caps: bool) -> (r: Response)
        requires
            valid(old(self)@),
            typed_defined(old(self)@, class, caps),
        ensures
            valid(final(self)@),
            has_replied(typed(old(self)@, class, caps), r, final(self)@),
    {
        let i: usize = self.current;
        let ghost f = self@;
        assert(f.entries[i as int] == self.entries@[i as int]@);
        let mut actions: Vec<Action> = Vec::new();
        let mut handled = false;
        proof {
            assert(action_views(actions@) =~= Seq::empty());
            assert(f.entries.update(i as int, f.entries[i as int]) =~= f.entries);
        }
        match &mut self.entries[i] {
            Mode::Hangul(core) => match class {
                KeyClass::Backspace => {
                    if !core.is_empty() {
                        let out = core.backspace();
                        handled = out.consumed;
                        actions = emit(out.commit, out.preedit);
                    }
                },
                KeyClass::Printable(ascii) => {
                    let out = core.press(ascii, caps);
                    handled = out.consumed;
                    actions = emit(out.commit, out.preedit);
                },
                _ => {
                    let commit = core.flush();
                    if !commit.as_str().is_empty() {
                        actions = emit(commit, String::new());
                    }
                },
            },
            Mode::Latin { keys } => {
                if let Some(c) = IBusEngine::char_of_key(keys, class, caps) {
                    let mut commit = String::new();
                    commit.push(c);
                    proof {
                        assert(commit@ =~= seq![c]);
                    }
                    actions = emit(commit, String::new());
                    handled = true;
                }
            },
        }
        proof {
            assert(self@ =~= typed(f, class, caps).state);
        }
        Response { actions, handled }
    }

    /// Takes a key event, given by the key's symbol, its place on the keyboard, and the
    /// modifiers.
    pub fn process_key_event(&mut self, keyval: u32, keycode: u32, state: u32) -> (r: Response)
        requires
            valid(old(self)@),
            processed_defined(old(self)@, keyval, keycode, state),
        ensures
            valid(final(self)@),
            has_replied(processed(old(self)@, keyval, keycode, state), r, final(self)@),
    {
        let class = self.classify(keyval, keycode, state);
        let none: Vec<Action> = Vec::new();
        proof {
            assert(action_views(none@) =~= Seq::empty());
        }
        match class {
            KeyClass::ImeSwitch => if state & RELEASE_MASK != 0 {
                Response { actions: none, handled: true }
            } else {
                self.switch(keyval)
            },
            KeyClass::Release | KeyClass::Modifier => Response { actions: none, handled: false },
            KeyClass::ShortcutCombo => Response { actions: self.flush_current(), handled: false },
            KeyClass::Backspace | KeyClass::Printable(_) | KeyClass::FunctionKey => self.type_key(
                class,
                state & LOCK_MASK != 0,
            ),
        }
    }

    /// Whether every operation that a key event comes to has a 64-bit result.
    pub fn key_event_defined(&self, keyval: u32, keycode: u32, state: u32) -> (r: bool)
        requires
            valid(self@),
        ensures
            r == processed_defined(self@, keyval, keycode, state),
    {
        let class = self.classify(keyval, keycode, state);
        let caps = state & LOCK_MASK != 0;
        assert(self@.entries[self@.current as int] == self.entries@[self.current as int]@);
        match class {
            KeyClass::ImeSwitch => if state & RELEASE_MASK != 0 || self.settings.simple_mode {
                true
            } else {
                match self.ime_switch.get(&keyval) {
                    Some(e) => e.checked_eval(
                        &Ctx { a: self.current as i64, ..Default::default() },
                    ).is_some(),
                    None => true,
                }
            },
            KeyClass::Release | KeyClass::Modifier | KeyClass::ShortcutCombo => true,
            KeyClass::FunctionKey => true,
            KeyClass::Backspace => match &self.entries[self.current] {
                Mode::Hangul(core) => core.is_empty() || core.backspace_defined(),
                Mode::Latin { .. } => true,
            },
            KeyClass::Printable(ascii) => match &self.entries[self.current] {
                Mode::Hangul(core) => core.press_defined(ascii, caps),
                Mode::Latin { keys } => match keys.get(&(ascii as u32)) {
                    Some(e) => e.checked_eval(
                        &Ctx { p: caps as i64, ..Default::default() },
                    ).is_some(),
                    None => true,
                },
            },
        }
    }

    /// Takes note that an input context has the focus: puts the settings of the given text in
    /// force and announces the mode indicator.
    pub fn focus_in(&mut self, ini: Option<&str>) -> (r: Vec<Action>)
        requires
            valid(old(self)@),
        ensures
            valid(final(self)@),
            ({
                let st = match ini {
                    Some(b) => settings_of(b@),
                    None => default_settings(),
                };
                final(self)@ == (if st == old(self)@.settings {
                    old(self)@
                } else {
                    with_settings(old(self)@, st)
                })
            }),
            action_views(r@) == seq![ActionModel::Register(symbol(final(self)@))],
    {
        self.reload_settings(ini);
        let mut r: Vec<Action> = Vec::new();
        r.push(Action::Register(self.mode_symbol()));
        proof {
            assert(action_views(r@) =~= seq![ActionModel::Register(symbol(self@))]);
        }
        r
    }

    /// Takes note that the front end is switched on, as [`focus_in`](Self::focus_in) does.
    pub fn enable(&mut self, ini: Option<&str>) -> (r: Vec<Action>)
        requires
            valid(old(self)@),
        ensures
            valid(final(self)@),
            ({
                let st = match ini {
                    Some(b) => settings_of(b@),
                    None => default_settings(),
                };
                final(self)@ == (if st == old(self)@.settings {
                    old(self)@
                } else {
                    with_settings(old(self)@, st)
                })
            }),
            action_views(r@) == seq![ActionModel::Register(symbol(final(self)@))],
    {
        self.focus_in(ini)
    }

    /// Takes note that the focus goes elsewhere: commits what is being composed.
    pub fn focus_out(&mut self) -> (r: Vec<Action>)
        requires
            valid(old(self)@),
        ensures
            valid(final(self)@),
            final(self)@ == flushed(old(self)@).state,
            action_views(r@) == flushed(old(self)@).actions,
    {
        self.flush_current()
    }

    /// Takes note that the front end is switched off: commits what is being composed.
    pub fn disable(&mut self) -> (r: Vec<Action>)
        requires
            valid(old(self)@),
        ensures
            valid(final(self)@),
            final(self)@ == flushed(old(self)@).state,
            action_views(r@) == flushed(old(self)@).actions,
    {
        self.flush_current()
    }

    /// Drops what is being composed.
    pub fn reset(&mut self) -> (r: Vec<Action>)
        requires
            valid(old(self)@),
        ensures
            valid(final(self)@),
            final(self)@ == dropped(old(self)@).state,
            action_views(r@) == dropped(old(self)@).actions,
    {
        let i: usize = self.current;
        if let Mode::Hangul(core) = &mut self.entries[i] {
            core.reset();
        }
        proof {
            assert(self@ =~= dropped(old(self)@).state);
        }
        emit(String::new(), String::new())
    }

    /// Whether activating the property of the given name is to open the settings window.
    pub fn opens_settings(name: &str) -> (r: bool)
        ensures
            r == (name@ == "InputMode"@),
    {
        same(name, "InputMode")
    }
}

} // verus!
