//! Hangul letters, and the units that a key can feed into a syllable.

use vstd::prelude::*;

use crate::text::{
    chars_of, integer, parse_unsigned, same, same_chars, strip, strip_end, strip_start,
};

pub mod laws;

verus! {

/// The place of a letter in a syllable.
#[derive(Clone, Copy, Debug, PartialEq, Eq, Hash, Structural)]
pub enum Category {
    /// The initial consonant.
    Cho,
    /// The medial vowel.
    Jung,
    /// The final consonant.
    Jong,
}

/// A letter: its place and its conjoining code point.
#[derive(Clone, Copy, Debug, PartialEq, Eq, Hash, Structural)]
pub struct Jamo {
    pub category: Category,
    pub cp: u32,
}

/// What a key feeds into the syllable.
#[derive(Clone, Copy, Debug, PartialEq, Eq, Hash, Structural)]
pub enum Unit {
    /// A letter.
    Jamo(Jamo),
    /// Turns the initial consonant into its tense or plain counterpart.
    Toggle,
    /// A letter that the settings name by a number.
    Virtual(u32),
}

/// The number that stands for the toggle in number form.
pub const TOGGLE: u32 = 500;

// ── code points ────────────────────────────────────────────────────────────────

/// The place of the conjoining letter with code point `cp`, by the Unicode blocks Hangul Jamo,
/// Hangul Jamo Extended-A and Hangul Jamo Extended-B.
pub open spec fn category_at(cp: u32) -> Option<Category> {
    if 0x1100 <= cp <= 0x115F || 0xA960 <= cp <= 0xA97C {
        Some(Category::Cho)
    } else if 0x1160 <= cp <= 0x11A7 || 0xD7B0 <= cp <= 0xD7C6 {
        Some(Category::Jung)
    } else if 0x11A8 <= cp <= 0x11FF || 0xD7CB <= cp <= 0xD7FB {
        Some(Category::Jong)
    } else {
        None
    }
}

fn category_of_code_point(cp: u32) -> (r: Option<Category>)
    ensures
        r == category_at(cp),
{
    if (0x1100 <= cp && cp <= 0x115F) || (0xA960 <= cp && cp <= 0xA97C) {
        Some(Category::Cho)
    } else if (0x1160 <= cp && cp <= 0x11A7) || (0xD7B0 <= cp && cp <= 0xD7C6) {
        Some(Category::Jung)
    } else if (0x11A8 <= cp && cp <= 0x11FF) || (0xD7CB <= cp && cp <= 0xD7FB) {
        Some(Category::Jong)
    } else {
        None
    }
}

/// The first of the modern letters of a place.
pub open spec fn first_modern(cat: Category) -> u32 {
    match cat {
        Category::Cho => 0x1100,
        Category::Jung => 0x1161,
        Category::Jong => 0x11A8,
    }
}

/// How many modern letters a place has.
pub open spec fn modern_count(cat: Category) -> u32 {
    match cat {
        Category::Cho => 19,
        Category::Jung => 21,
        Category::Jong => 27,
    }
}

/// The number of a modern letter among those of its place, counted from zero.
pub open spec fn modern_index(cat: Category, cp: u32) -> Option<int> {
    if first_modern(cat) <= cp < first_modern(cat) + modern_count(cat) {
        Some(cp - first_modern(cat))
    } else {
        None
    }
}

/// The number of a modern letter among those of its place, counted from zero.
pub fn index_of_modern(cat: Category, cp: u32) -> (r: Option<u32>)
    ensures
        match r {
            Some(i) => modern_index(cat, cp) == Some(i as int) && i < modern_count(cat),
            None => modern_index(cat, cp) is None,
        },
{
    let (first, count): (u32, u32) = match cat {
        Category::Cho => (0x1100, 19),
        Category::Jung => (0x1161, 21),
        Category::Jong => (0x11A8, 27),
    };
    if first <= cp && cp < first + count {
        Some(cp - first)
    } else {
        None
    }
}

// ── compatibility letters ──────────────────────────────────────────────────────

/// The compatibility letters of the modern initial consonants.
pub open spec fn cho_compat() -> Seq<u32> {
    seq![
        0x3131, 0x3132, 0x3134, 0x3137, 0x3138, 0x3139, 0x3141, 0x3142, 0x3143, 0x3145, 0x3146,
        0x3147, 0x3148, 0x3149, 0x314A, 0x314B, 0x314C, 0x314D, 0x314E,
    ]
}

/// The compatibility letters of the modern final consonants.
pub open spec fn jong_compat() -> Seq<u32> {
    seq![
        0x3131, 0x3132, 0x3133, 0x3134, 0x3135, 0x3136, 0x3137, 0x3139, 0x313A, 0x313B, 0x313C,
        0x313D, 0x313E, 0x313F, 0x3140, 0x3141, 0x3142, 0x3144, 0x3145, 0x3146, 0x3147, 0x3148,
        0x314A, 0x314B, 0x314C, 0x314D, 0x314E,
    ]
}

/// The compatibility letter that shows a modern letter on its own.
pub open spec fn compat_of(j: Jamo) -> Option<u32> {
    match modern_index(j.category, j.cp) {
        Some(i) => Some(
            match j.category {
                Category::Cho => cho_compat()[i],
                Category::Jung => (0x314F + i) as u32,
                Category::Jong => jong_compat()[i],
            },
        ),
        None => None,
    }
}

impl Jamo {
    /// The letter with the given place and code point.
    pub fn new(category: Category, cp: u32) -> (j: Jamo)
        ensures
            j == (Jamo { category, cp }),
    {
        Jamo { category, cp }
    }

    /// The compatibility letter that shows this letter on its own, for the modern letters.
    pub fn default_compat(&self) -> (r: Option<u32>)
        ensures
            r == compat_of(*self),
    {
        let cho: [u32; 19] = [
        0x3131, 0x3132, 0x3134, 0x3137, 0x3138, 0x3139, 0x3141, 0x3142, 0x3143, 0x3145, 0x3146,
        0x3147, 0x3148, 0x3149, 0x314A, 0x314B, 0x314C, 0x314D, 0x314E,
        ];
        let jong: [u32; 27] = [
        0x3131, 0x3132, 0x3133, 0x3134, 0x3135, 0x3136, 0x3137, 0x3139, 0x313A, 0x313B, 0x313C,
        0x313D, 0x313E, 0x313F, 0x3140, 0x3141, 0x3142, 0x3144, 0x3145, 0x3146, 0x3147, 0x3148,
        0x314A, 0x314B, 0x314C, 0x314D, 0x314E,
        ];
        proof {
            assert(cho@ =~= cho_compat());
            assert(jong@ =~= jong_compat());
        }
        match index_of_modern(self.category, self.cp) {
            Some(i) => Some(
                match self.category {
                    Category::Cho => cho[i as usize],
                    Category::Jung => 0x314F + i,
                    Category::Jong => jong[i as usize],
                },
            ),
            None => None,
        }
    }
}

/// Every compatibility letter is a character of the block Hangul Compatibility Jamo.
pub proof fn compatibility_letters_are_characters(j: Jamo)
    ensures
        compat_of(j) matches Some(n) ==> 0x3131 <= n <= 0x3163,
{
}

// ── numbers ────────────────────────────────────────────────────────────────────

/// The number that `s` writes: hexadecimal after `0x` or `0X`, else decimal.
pub open spec fn int_of(s: Seq<char>) -> Option<int> {
    if s.len() >= 2 && s[0] == '0' && (s[1] == 'x' || s[1] == 'X') {
        integer(s.skip(2), 16, 0, u32::MAX as int)
    } else {
        integer(s, 10, 0, u32::MAX as int)
    }
}

/// Reads a number: hexadecimal after `0x` or `0X`, else decimal.
pub fn parse_int(s: &str) -> (r: Option<u32>)
    ensures
        match r {
            Some(n) => int_of(s@) == Some(n as int),
            None => int_of(s@) is None,
        },
{
    let v = chars_of(s);
    let n = if v.len() >= 2 && v[0] == '0' && (v[1] == 'x' || v[1] == 'X') {
        let digits = crate::text::slice_of(&v, 2, v.len());
        proof {
            assert(digits@ == s@.skip(2));
        }
        parse_unsigned(&digits, 16, 0xFFFF_FFFF)
    } else {
        parse_unsigned(&v, 10, 0xFFFF_FFFF)
    };
    match n {
        Some(n) => Some(n as u32),
        None => None,
    }
}

/// The unit that a number stands for: the toggle, a letter by its code point, or, with the low
/// sixteen bits clear, the virtual unit that the high bits number.
pub open spec fn unit_of_number(n: u32) -> Option<Unit> {
    if n == TOGGLE {
        Some(Unit::Toggle)
    } else if category_at(n) is Some {
        Some(Unit::Jamo(Jamo { category: category_at(n)->0, cp: n }))
    } else if n >= 0x10000 && n % 0x10000 == 0 {
        Some(Unit::Virtual(n / 0x10000))
    } else {
        None
    }
}

/// The unit that a number stands for.
pub fn resolve_numeric(n: u32) -> (r: Option<Unit>)
    ensures
        r == unit_of_number(n),
{
    if n == TOGGLE {
        return Some(Unit::Toggle);
    }
    match category_of_code_point(n) {
        Some(category) => Some(Unit::Jamo(Jamo { category, cp: n })),
        None => if n >= 0x10000 && n % 0x10000 == 0 {
            Some(Unit::Virtual(n / 0x10000))
        } else {
            None
        },
    }
}

// ── names ──────────────────────────────────────────────────────────────────────

/// The names of the modern letters of a place, in the order of their code points.
pub open spec fn letter_names(cat: Category) -> Seq<Seq<char>> {
    match cat {
        Category::Cho => seq![
            "G"@, "GG"@, "N"@, "D"@, "DD"@, "R"@, "M"@, "B"@, "BB"@, "S"@, "SS"@, "Q"@, "J"@,
            "JJ"@, "C"@, "K"@, "T"@, "P"@, "H"@,
        ],
        Category::Jung => seq![
            "A"@, "AE"@, "YA"@, "YAE"@, "EO"@, "E"@, "YEO"@, "YE"@, "O"@, "WA"@, "WAE"@, "OE"@,
            "YO"@, "U"@, "WEO"@, "WE"@, "WI"@, "YU"@, "EU"@, "YI"@, "I"@,
        ],
        Category::Jong => seq![
            "G"@, "GG"@, "GS"@, "N"@, "NJ"@, "NH"@, "D"@, "R"@, "RG"@, "RM"@, "RB"@, "RS"@,
            "RT"@, "RP"@, "RH"@, "M"@, "B"@, "BS"@, "S"@, "SS"@, "Q"@, "J"@, "C"@, "K"@, "T"@,
            "P"@, "H"@,
        ],
    }
}

/// The strings as sequences of characters.
pub open spec fn str_views(v: Seq<&'static str>) -> Seq<Seq<char>> {
    v.map_values(|s: &'static str| s@)
}

fn names_of_letters(cat: Category) -> (v: Vec<&'static str>)
    ensures
        str_views(v@) == letter_names(cat),
{
    let v: Vec<&'static str> = match cat {
        Category::Cho => vec![
            "G", "GG", "N", "D", "DD", "R", "M", "B", "BB", "S", "SS", "Q", "J", "JJ", "C",
            "K", "T", "P", "H",
        ],
        Category::Jung => vec![
            "A", "AE", "YA", "YAE", "EO", "E", "YEO", "YE", "O", "WA", "WAE", "OE", "YO", "U",
            "WEO", "WE", "WI", "YU", "EU", "YI", "I",
        ],
        Category::Jong => vec![
            "G", "GG", "GS", "N", "NJ", "NH", "D", "R", "RG", "RM", "RB", "RS", "RT", "RP",
            "RH", "M", "B", "BS", "S", "SS", "Q", "J", "C", "K", "T", "P", "H",
        ],
    };
    proof {
        assert(str_views(v@) =~= letter_names(cat));
    }
    v
}

/// The index of the first `s` among the names, or their number if it is not there.
pub open spec fn name_index(names: Seq<Seq<char>>, s: Seq<char>) -> int
    decreases names.len(),
{
    if names.len() == 0 || names[0] == s {
        0
    } else {
        1 + name_index(names.skip(1), s)
    }
}

/// The letter of a place with the given name. The vowel `OE` is also called `OI`.
pub open spec fn letter_named(cat: Category, name: Seq<char>) -> Option<Jamo> {
    let i = name_index(letter_names(cat), name);
    if i < letter_names(cat).len() {
        Some(Jamo { category: cat, cp: (first_modern(cat) + i) as u32 })
    } else if cat == Category::Jung && name == "OI"@ {
        Some(Jamo { category: cat, cp: 0x116C })
    } else {
        None
    }
}

fn find_letter(cat: Category, name: &Vec<char>) -> (r: Option<Jamo>)
    ensures
        r == letter_named(cat, name@),
{
    let names = names_of_letters(cat);
    let ghost all = letter_names(cat);
    let mut i: usize = 0;
    proof {
        assert(all.skip(0) == all);
        assert(all.len() == modern_count(cat));
    }
    while i < names.len()
        invariant
            i <= names@.len(),
            all == letter_names(cat),
            str_views(names@) == all,
            all.len() == modern_count(cat),
            name_index(all, name@) == i + name_index(all.skip(i as int), name@),
        decreases names@.len() - i,
    {
        proof {
            assert(all[i as int] == names@[i as int]@);
            assert(all.skip(i as int)[0] == all[i as int]);
            assert(all.skip(i as int).skip(1) == all.skip(i as int + 1));
        }
        if same_chars(&chars_of(names[i]), name) {
            let first: u32 = match cat {
                Category::Cho => 0x1100,
                Category::Jung => 0x1161,
                Category::Jong => 0x11A8,
            };
            return Some(Jamo { category: cat, cp: first + i as u32 });
        }
        i = i + 1;
    }
    if cat == Category::Jung && same_chars(&chars_of("OI"), name) {
        Some(Jamo { category: cat, cp: 0x116C })
    } else {
        None
    }
}

/// The letter that a name stands for. Underscores pad a name to its width. Where the place is
/// not given, a leading underscore says that the letter is a final consonant, and any other name
/// is that of an initial consonant or else of a vowel.
pub open spec fn unit_of_name(s: Seq<char>, cat: Option<Category>) -> Option<Unit> {
    let name = strip_end(strip_start(s, '_'), '_');
    let letter = match cat {
        Some(c) => letter_named(c, name),
        None => if s.len() > 0 && s[0] == '_' {
            letter_named(Category::Jong, name)
        } else if letter_named(Category::Cho, name) is Some {
            letter_named(Category::Cho, name)
        } else {
            letter_named(Category::Jung, name)
        },
    };
    match letter {
        Some(j) => Some(Unit::Jamo(j)),
        None => None,
    }
}

/// The letter that a name stands for.
pub fn resolve_mnemonic(s: &str, cat: Option<Category>) -> (r: Option<Unit>)
    ensures
        r == unit_of_name(s@, cat),
{
    let v = chars_of(s);
    let name = strip(&v, '_');
    let letter = match cat {
        Some(c) => find_letter(c, &name),
        None => if v.len() > 0 && v[0] == '_' {
            find_letter(Category::Jong, &name)
        } else {
            match find_letter(Category::Cho, &name) {
                Some(j) => Some(j),
                None => find_letter(Category::Jung, &name),
            }
        },
    };
    match letter {
        Some(j) => Some(Unit::Jamo(j)),
        None => None,
    }
}

/// The unit that a number or a name stands for.
pub open spec fn unit_of_operand(s: Seq<char>, cat: Option<Category>) -> Option<Unit> {
    match int_of(s) {
        Some(n) => unit_of_number(n as u32),
        None => unit_of_name(s, cat),
    }
}

/// The unit that a number or a name stands for.
pub fn resolve_operand(s: &str, cat: Option<Category>) -> (r: Option<Unit>)
    ensures
        r == unit_of_operand(s@, cat),
{
    match parse_int(s) {
        Some(n) => resolve_numeric(n),
        None => resolve_mnemonic(s, cat),
    }
}

proof fn lemma_name_index_bounded(names: Seq<Seq<char>>, s: Seq<char>)
    ensures
        0 <= name_index(names, s) <= names.len(),
    decreases names.len(),
{
    if names.len() > 0 && names[0] != s {
        lemma_name_index_bounded(names.skip(1), s);
    }
}

/// A letter that a name stands for is a modern letter of the place that was asked for.
pub proof fn named_letters_are_modern(cat: Category, name: Seq<char>)
    ensures
        letter_named(cat, name) matches Some(j) ==> j.category == cat && modern_index(
            cat,
            j.cp,
        ) is Some,
{
    lemma_name_index_bounded(letter_names(cat), name);
}

/// Names and numbers agree: the code point of a letter that a name stands for, taken as a number,
/// stands for the same letter.
pub proof fn names_and_numbers_agree(s: Seq<char>, cat: Option<Category>)
    ensures
        unit_of_name(s, cat) matches Some(Unit::Jamo(j)) ==> unit_of_number(j.cp) == Some(
            Unit::Jamo(j),
        ),
{
    let name = strip_end(strip_start(s, '_'), '_');
    named_letters_are_modern(Category::Cho, name);
    named_letters_are_modern(Category::Jung, name);
    named_letters_are_modern(Category::Jong, name);
}

} // verus!
