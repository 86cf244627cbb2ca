//! User settings: a short text of `key = value` lines.
//!
//! ```ini
//! # On: type with the two entries below only.
//! simple_mode = false
//! # The entry that composes Hangul.
//! hangul_entry = 0
//! # The entry for Latin letters.
//! latin_entry = 1
//! ```

use vstd::prelude::*;

use crate::paths::{file_path, find_file, opt_view};
use crate::text::{
    chars_of, first_index, integer, is_space, lowercase, parse_usize, position, same, same_chars,
    slice_of, split, split_at_each, to_lowercase, trim, trimmed, views,
};

use crate::text::laws::{
    all_space, first_places_come_first, has_bare_ends, is_without, joining_undoes_splitting,
    small_letters_replace_capitals, splitting_undoes_joining, trimming_finds_the_text, with_between,
};

verus! {

/// The settings of a user.
#[derive(Clone, Copy, Debug, PartialEq, Eq, Structural)]
pub struct Settings {
    /// Whether only the two entries below are used. If not, all of them are.
    pub simple_mode: bool,
    /// The index of the entry that composes Hangul, for the simple mode.
    pub hangul_entry: usize,
    /// The index of the entry for Latin letters, for the simple mode.
    pub latin_entry: usize,
}

/// The settings where the user has said nothing.
pub open spec fn default_settings() -> Settings {
    Settings { simple_mode: false, hangul_entry: 0, latin_entry: 1 }
}

impl Default for Settings {
    fn default() -> (r: Settings)
        ensures
            r == default_settings(),
    {
        Settings { simple_mode: false, hangul_entry: 0, latin_entry: 1 }
    }
}

/// The truth value that a word stands for, in any case.
pub open spec fn truth(v: Seq<char>) -> Option<bool> {
    let w = lowercase(v);
    if w == "true"@ || w == "1"@ || w == "yes"@ || w == "on"@ {
        Some(true)
    } else if w == "false"@ || w == "0"@ || w == "no"@ || w == "off"@ {
        Some(false)
    } else {
        None
    }
}

/// The truth value that a word stands for, in any case.
pub fn parse_bool(v: &Vec<char>) -> (r: Option<bool>)
    ensures
        r == truth(v@),
{
    let w = to_lowercase(v);
    if same_chars(&w, &chars_of("true")) || same_chars(&w, &chars_of("1")) || same_chars(
        &w,
        &chars_of("yes"),
    ) || same_chars(&w, &chars_of("on")) {
        Some(true)
    } else if same_chars(&w, &chars_of("false")) || same_chars(&w, &chars_of("0")) || same_chars(
        &w,
        &chars_of("no"),
    ) || same_chars(&w, &chars_of("off")) {
        Some(false)
    } else {
        None
    }
}

/// The settings with one key set. A key or a value that means nothing changes nothing.
pub open spec fn with_pair(s: Settings, key: Seq<char>, value: Seq<char>) -> Settings {
    if key == "simple_mode"@ {
        match truth(value) {
            Some(b) => Settings { simple_mode: b, ..s },
            None => s,
        }
    } else if key == "hangul_entry"@ {
        match integer(value, 10, 0, usize::MAX as int) {
            Some(n) => Settings { hangul_entry: n as usize, ..s },
            None => s,
        }
    } else if key == "latin_entry"@ {
        match integer(value, 10, 0, usize::MAX as int) {
            Some(n) => Settings { latin_entry: n as usize, ..s },
            None => s,
        }
    } else {
        s
    }
}

/// The settings with one line taken in. Blank lines, lines that start with `#` and lines without
/// `=` change nothing.
pub open spec fn with_line(s: Settings, line: Seq<char>) -> Settings {
    let t = trimmed(line);
    let k = first_index(t, '=');
    if t.len() == 0 || t[0] == '#' || k >= t.len() {
        s
    } else {
        with_pair(s, trimmed(t.take(k)), trimmed(t.skip(k + 1)))
    }
}

/// The settings with lines taken in one after the other.
pub open spec fn with_lines(lines: Seq<Seq<char>>) -> Settings
    decreases lines.len(),
{
    if lines.len() == 0 {
        default_settings()
    } else {
        with_line(with_lines(lines.drop_last()), lines.last())
    }
}

/// The settings that a text writes.
pub open spec fn settings_of(body: Seq<char>) -> Settings {
    with_lines(split(body, '\n'))
}

/// Where nothing is said, all entries are used. The simple mode would use the first entry for
/// Hangul and the second for Latin letters.
pub proof fn nothing_said_means_the_full_mode()
    ensures
        !default_settings().simple_mode,
        default_settings().hangul_entry == 0,
        default_settings().latin_entry == 1,
        settings_of(Seq::empty()) == default_settings(),
{
    let lines = split(Seq::<char>::empty(), '\n');
    assert(lines == seq![Seq::<char>::empty()]);
    assert(lines.drop_last() =~= Seq::<Seq<char>>::empty());
    assert(with_lines(lines.drop_last()) == default_settings());
}

/// Of two settings of one key the later counts, if its value means anything.
pub proof fn later_settings_count(s: Settings, key: Seq<char>, v1: Seq<char>, v2: Seq<char>)
    requires
        key == "simple_mode"@ ==> truth(v2) is Some,
        key == "hangul_entry"@ || key == "latin_entry"@ ==> integer(
            v2,
            10,
            0,
            usize::MAX as int,
        ) is Some,
    ensures
        with_pair(with_pair(s, key, v1), key, v2) == with_pair(s, key, v2),
{
}

/// A key or a value that means nothing leaves the settings as they are.
pub proof fn meaningless_settings_are_ignored(s: Settings, key: Seq<char>, value: Seq<char>)
    requires
        key == "simple_mode"@ ==> truth(value) is None,
        key == "hangul_entry"@ || key == "latin_entry"@ ==> integer(
            value,
            10,
            0,
            usize::MAX as int,
        ) is None,
    ensures
        with_pair(s, key, value) == s,
{
}

/// Comments and blank lines leave the settings as they are.
pub proof fn comments_are_ignored(s: Settings, line: Seq<char>)
    requires
        trimmed(line).len() == 0 || trimmed(line)[0] == '#',
    ensures
        with_line(s, line) == s,
{
}

impl Settings {
    /// The settings of a file with the given text, or the default where there is no file.
    pub fn load(body: Option<&str>) -> (r: Settings)
        ensures
            r == match body {
                Some(b) => settings_of(b@),
                None => default_settings(),
            },
    {
        match body {
            Some(b) => Settings::parse(b),
            None => Default::default(),
        }
    }

    fn set(&mut self, key: &Vec<char>, value: &Vec<char>)
        ensures
            *final(self) == with_pair(*old(self), key@, value@),
    {
        if same_chars(key, &chars_of("simple_mode")) {
            if let Some(b) = parse_bool(value) {
                self.simple_mode = b;
            }
        } else if same_chars(key, &chars_of("hangul_entry")) {
            if let Some(n) = parse_usize(value) {
                self.hangul_entry = n;
            }
        } else if same_chars(key, &chars_of("latin_entry")) {
            if let Some(n) = parse_usize(value) {
                self.latin_entry = n;
            }
        }
    }

    fn take_line(&mut self, line: &Vec<char>)
        ensures
            *final(self) == with_line(*old(self), line@),
    {
        let t = trim(line);
        if t.len() == 0 || t[0] == '#' {
            return;
        }
        let k: usize = position(&t, '=');
        if k >= t.len() {
            return;
        }
        let key = slice_of(&t, 0, k);
        let value = slice_of(&t, k + 1, t.len());
        proof {
            assert(key@ =~= t@.take(k as int));
            assert(value@ =~= t@.skip(k as int + 1));
        }
        self.set(&trim(&key), &trim(&value));
    }

    /// Reads settings. What a text does not set stays at its default.
    pub fn parse(body: &str) -> (r: Settings)
        ensures
            r == settings_of(body@),
    {
        let lines = split_at_each(&chars_of(body), '\n');
        let ghost all = split(body@, '\n');
        let mut s: Settings = Default::default();
        let mut i: usize = 0;
        while i < lines.len()
            invariant
                i <= lines@.len(),
                views(lines@) == all,
                s == with_lines(all.take(i as int)),
            decreases lines@.len() - i,
        {
            proof {
                assert(all.take(i as int + 1).drop_last() =~= all.take(i as int));
                assert(all[i as int] == lines@[i as int]@);
            }
            s.take_line(&lines[i]);
            i = i + 1;
        }
        proof {
            assert(all.take(all.len() as int) =~= all);
        }
        s
    }
}

impl Settings {
    /// The path of the settings file, by the values of the environment variables
    /// `PRESGUEL_CONFIG_INI`, `XDG_CONFIG_HOME` and `HOME`.
    pub fn path(given: Option<&str>, xdg: Option<&str>, home: Option<&str>) -> (r: Option<String>)
        ensures
            match r {
                Some(s) => file_path(
                    opt_view(given),
                    opt_view(xdg),
                    opt_view(home),
                    "config.ini"@,
                ) == Some(s@),
                None => file_path(
                    opt_view(given),
                    opt_view(xdg),
                    opt_view(home),
                    "config.ini"@,
                ) is None,
            },
    {
        find_file(given, xdg, home, "config.ini")
    }
}

/// Whether the value of the environment variable `PRESGUEL_DEBUG_KEYS` asks for key events to be
/// shown.
pub open spec fn asks_for_keys(v: Option<Seq<char>>) -> bool {
    v matches Some(s) && (s == "1"@ || s == "true"@ || s == "yes"@ || s == "on"@)
}

/// Whether the value of the environment variable `PRESGUEL_DEBUG_KEYS` asks for key events to be
/// shown.
pub fn debug_keys_enabled(v: Option<&str>) -> (r: bool)
    ensures
        r == asks_for_keys(opt_view(v)),
{
    match v {
        Some(s) => same(s, "1") || same(s, "true") || same(s, "yes") || same(s, "on"),
        None => false,
    }
}

/// The words for yes and for no, in small letters. In capitals, or in both, they say the same.
pub proof fn eight_words_are_truth_values(v: Seq<char>)
    ensures
        ({
            let w = lowercase(v);
            &&& truth(v) == Some(true) <==> w == "true"@ || w == "1"@ || w == "yes"@ || w == "on"@
            &&& truth(v) == Some(false) <==> w == "false"@ || w == "0"@ || w == "no"@ || w == "off"@
            &&& truth(w) == truth(v)
        }),
{
    small_letters_replace_capitals(v);
    reveal_strlit("true");
    reveal_strlit("1");
    reveal_strlit("yes");
    reveal_strlit("on");
    reveal_strlit("false");
    reveal_strlit("0");
    reveal_strlit("no");
    reveal_strlit("off");
    assert("1"@[0] == '1' && "0"@[0] == '0' && "on"@[0] == 'o' && "no"@[0] == 'n' && "yes"@[0]
        == 'y' && "off"@[0] == 'o');
}

/// Each of the three keys sets its own setting, to what its value says, and leaves the others: the
/// mode to a truth value, the entries to numbers.
pub proof fn each_key_sets_its_own(s: Settings, value: Seq<char>)
    ensures
        truth(value) matches Some(b) ==> with_pair(s, "simple_mode"@, value) == (Settings {
            simple_mode: b,
            hangul_entry: s.hangul_entry,
            latin_entry: s.latin_entry,
        }),
        integer(value, 10, 0, usize::MAX as int) matches Some(n) ==> {
            &&& with_pair(s, "hangul_entry"@, value) == (Settings {
                simple_mode: s.simple_mode,
                hangul_entry: n as usize,
                latin_entry: s.latin_entry,
            })
            &&& with_pair(s, "latin_entry"@, value) == (Settings {
                simple_mode: s.simple_mode,
                hangul_entry: s.hangul_entry,
                latin_entry: n as usize,
            })
        },
{
    reveal_strlit("simple_mode");
    reveal_strlit("hangul_entry");
    reveal_strlit("latin_entry");
    assert("simple_mode"@[0] == 's' && "latin_entry"@[0] == 'l' && "hangul_entry"@.len() == 12
        && "simple_mode"@.len() == 11 && "latin_entry"@.len() == 11);
}

/// A line sets the key before its first `=` to the value behind it, and white space around either
/// does not count. The value may hold a further `=`.
pub proof fn lines_set_keys_to_values(
    s: Settings,
    a: Seq<char>,
    key: Seq<char>,
    b: Seq<char>,
    c: Seq<char>,
    value: Seq<char>,
    d: Seq<char>,
)
    requires
        all_space(a) && all_space(b) && all_space(c) && all_space(d),
        has_bare_ends(key) && has_bare_ends(value),
        key.len() > 0 && value.len() > 0,
        key[0] != '#',
        is_without(key, '='),
    ensures
        with_line(s, a + key + b + seq!['='] + c + value + d) == with_pair(s, key, value),
{
    let t = key + b + seq!['='] + c + value;
    let line = a + key + b + seq!['='] + c + value + d;
    assert(line =~= a + t + d);
    assert(t[0] == key[0]);
    assert(t.last() == value.last());
    trimming_finds_the_text(a, t, d);
    let k = key.len() + b.len();
    assert(t[k as int] == '=');
    assert forall|i: int| 0 <= i < k implies t[i] != '=' by {
        if i < key.len() {
            assert(t[i] == key[i]);
        } else {
            assert(t[i] == b[i - key.len()]);
            assert(is_space(b[i - key.len()]));
        }
    }
    first_places_come_first(t, '=');
    let f = first_index(t, '=');
    if f > k {
        assert(t.take(f)[k as int] == '=');
    }
    assert(f == k);
    assert(t.take(f) =~= Seq::<char>::empty() + key + b);
    assert(t.skip(f + 1) =~= c + value + Seq::<char>::empty());
    trimming_finds_the_text(Seq::empty(), key, b);
    trimming_finds_the_text(c, value, Seq::empty());
}

/// A text is read line by line: one more line changes the settings as that line does.
pub proof fn settings_are_read_line_by_line(body: Seq<char>, line: Seq<char>)
    requires
        is_without(line, '\n'),
    ensures
        settings_of(body.push('\n') + line) == with_line(settings_of(body), line),
        settings_of(line) == with_line(default_settings(), line),
{
    let parts = split(body, '\n');
    let all = parts.push(line);
    joining_undoes_splitting(body, '\n');
    assert forall|i: int| 0 <= i < all.len() implies is_without(#[trigger] all[i], '\n') by {
        if i < parts.len() {
            assert(is_without(parts[i], '\n'));
        }
    }
    assert(all.drop_last() =~= parts);
    splitting_undoes_joining(all, '\n');
    assert(with_between(all, '\n') =~= body.push('\n') + line);
    let one = seq![line];
    splitting_undoes_joining(one, '\n');
    assert(with_between(one, '\n') == line);
    assert(one.drop_last() =~= Seq::<Seq<char>>::empty());
    assert(with_lines(one.drop_last()) == default_settings());
}

/// A line without `=`, a blank line and a line that begins with `#`, behind white space or not, say
/// nothing.
pub proof fn other_lines_say_nothing(s: Settings, a: Seq<char>, t: Seq<char>, d: Seq<char>)
    requires
        all_space(a) && all_space(d),
        has_bare_ends(t),
        t.len() == 0 || t[0] == '#' || is_without(t, '='),
    ensures
        with_line(s, a + t + d) == s,
{
    trimming_finds_the_text(a, t, d);
    first_places_come_first(t, '=');
    let f = first_index(t, '=');
    if f < t.len() {
        assert(t[f] == '=');
    }
}

/// Key events are shown for four words, in small letters only.
pub proof fn four_words_ask_for_keys(v: Seq<char>)
    ensures
        asks_for_keys(Some(v)) <==> v == "1"@ || v == "true"@ || v == "yes"@ || v == "on"@,
        !asks_for_keys(None),
{
}

} // verus!
