//! What holds of names and numbers of letters.

use vstd::prelude::*;

use super::{
    cho_compat, compat_of, int_of, jong_compat, letter_named, letter_names, name_index,
    unit_of_name, unit_of_number, unit_of_operand, Category, Jamo, Unit,
};
use crate::text::laws::{all_are, integers_are_read_with_signs, stripping_finds_the_text};
use crate::text::{digit_value, numeral, numerals_read_back};

verus! {

// ── numbers ────────────────────────────────────────────────────────────────────

/// A number that is written in decimal, or in hexadecimal behind `0x` or `0X`, is read as what was
/// written, if it has 32 bits. Else it is not read.
pub proof fn numbers_are_read_in_both_forms(n: nat)
    ensures
        ({
            let r = if n <= 0xFFFF_FFFF {
                Some(n as int)
            } else {
                None
            };
            &&& int_of(numeral(n, 10)) == r
            &&& int_of(seq!['0', 'x'] + numeral(n, 16)) == r
            &&& int_of(seq!['0', 'X'] + numeral(n, 16)) == r
        }),
{
    let d = numeral(n, 10);
    let h = numeral(n, 16);
    integers_are_read_with_signs(n, 10, 0, u32::MAX as int);
    integers_are_read_with_signs(n, 16, 0, u32::MAX as int);
    numerals_read_back(n, 10);
    if d.len() >= 2 {
        assert(digit_value(d[1]) < 10);
    }
    assert((seq!['0', 'x'] + h).skip(2) =~= h);
    assert((seq!['0', 'X'] + h).skip(2) =~= h);
}

/// 500 is the toggle. A code point of the conjoining letters is that letter, with its place by the
/// part of its block. A number with its low sixteen bits clear is the virtual unit that its high
/// bits number. Any other number is no unit.
pub proof fn numbers_stand_for_units(n: u32)
    ensures
        ({
            let u = unit_of_number(n);
            let cho = 0x1100 <= n <= 0x115F || 0xA960 <= n <= 0xA97C;
            let jung = 0x1160 <= n <= 0x11A7 || 0xD7B0 <= n <= 0xD7C6;
            let jong = 0x11A8 <= n <= 0x11FF || 0xD7CB <= n <= 0xD7FB;
            &&& u == Some(Unit::Toggle) <==> n == 500
            &&& u == Some(Unit::Jamo(Jamo { category: Category::Cho, cp: n })) <==> cho
            &&& u == Some(Unit::Jamo(Jamo { category: Category::Jung, cp: n })) <==> jung
            &&& u == Some(Unit::Jamo(Jamo { category: Category::Jong, cp: n })) <==> jong
            &&& forall|id: u32|
                u == Some(#[trigger] virtual_unit(id)) <==> id > 0 && n == id * 0x10000
            &&& u is None <==> n != 500 && !cho && !jung && !jong && (n == 0 || n % 0x10000 != 0)
        }),
{
}

/// The virtual unit with the number.
pub open spec fn virtual_unit(id: u32) -> Unit {
    Unit::Virtual(id)
}

/// Where an operand is a number, it stands for what the number does, whatever place was asked for.
pub proof fn numeric_operands_ignore_the_place(n: nat, cat: Option<Category>)
    requires
        n <= 0xFFFF_FFFF,
    ensures
        unit_of_operand(numeral(n, 10), cat) == unit_of_number(n as u32),
        unit_of_operand(seq!['0', 'x'] + numeral(n, 16), cat) == unit_of_number(n as u32),
{
    numbers_are_read_in_both_forms(n);
}

// ── names ──────────────────────────────────────────────────────────────────────

/// The names of the compatibility consonants, in the order of their code points from U+3131 on.
pub open spec fn consonant_names() -> Seq<Seq<char>> {
    seq![
        "G"@, "GG"@, "GS"@, "N"@, "NJ"@, "NH"@, "D"@, "DD"@, "R"@, "RG"@, "RM"@, "RB"@, "RS"@, "RT"@,
        "RP"@, "RH"@, "M"@, "B"@, "BB"@, "BS"@, "S"@, "SS"@, "Q"@, "J"@, "JJ"@, "C"@, "K"@, "T"@,
        "P"@, "H"@,
    ]
}

/// The names of the compatibility vowels, in the order of their code points from U+314F on.
pub open spec fn vowel_names() -> Seq<Seq<char>> {
    seq![
        "A"@, "AE"@, "YA"@, "YAE"@, "EO"@, "E"@, "YEO"@, "YE"@, "O"@, "WA"@, "WAE"@, "OE"@, "YO"@,
        "U"@, "WEO"@, "WE"@, "WI"@, "YU"@, "EU"@, "YI"@, "I"@,
    ]
}

/// A name as a number: its letters, as digits to the base of 256.
spec fn key(s: Seq<char>) -> int {
    if s.len() == 1 {
        s[0] as int
    } else if s.len() == 2 {
        s[0] as int * 256 + s[1] as int
    } else if s.len() == 3 {
        s[0] as int * 65536 + s[1] as int * 256 + s[2] as int
    } else {
        0
    }
}

spec fn consonant_keys() -> Seq<int> {
    seq![
        71, 18247, 18259, 78, 20042, 20040, 68, 17476, 82, 21063, 21069, 21058, 21075, 21076, 21072,
        21064, 77, 66, 16962, 16979, 83, 21331, 81, 74, 19018, 67, 75, 84, 80, 72,
    ]
}

spec fn cho_keys() -> Seq<int> {
    seq![71, 18247, 78, 68, 17476, 82, 77, 66, 16962, 83, 21331, 81, 74, 19018, 67, 75, 84, 80, 72]
}

spec fn jong_keys() -> Seq<int> {
    seq![
        71, 18247, 18259, 78, 20042, 20040, 68, 82, 21063, 21069, 21058, 21075, 21076, 21072, 21064,
        77, 66, 16979, 83, 21331, 81, 74, 67, 75, 84, 80, 72,
    ]
}

spec fn jung_keys() -> Seq<int> {
    seq![
        65, 16709, 22849, 5849413, 17743, 69, 5850447, 22853, 79, 22337, 5718341, 20293, 22863, 85,
        5719375, 22341, 22345, 22869, 17749, 22857, 73,
    ]
}

proof fn lemma_consonants()
    ensures
        forall|i: int| 0 <= i < 30 ==> key(#[trigger] consonant_names()[i]) == consonant_keys()[i],
        forall|i: int|
            0 <= i < 19 ==> key(#[trigger] letter_names(Category::Cho)[i]) == cho_keys()[i],
        forall|i: int|
            0 <= i < 27 ==> key(#[trigger] letter_names(Category::Jong)[i]) == jong_keys()[i],
{
    reveal_strlit("G");
    reveal_strlit("GG");
    reveal_strlit("GS");
    reveal_strlit("N");
    reveal_strlit("NJ");
    reveal_strlit("NH");
    reveal_strlit("D");
    reveal_strlit("DD");
    reveal_strlit("R");
    reveal_strlit("RG");
    reveal_strlit("RM");
    reveal_strlit("RB");
    reveal_strlit("RS");
    reveal_strlit("RT");
    reveal_strlit("RP");
    reveal_strlit("RH");
    reveal_strlit("M");
    reveal_strlit("B");
    reveal_strlit("BB");
    reveal_strlit("BS");
    reveal_strlit("S");
    reveal_strlit("SS");
    reveal_strlit("Q");
    reveal_strlit("J");
    reveal_strlit("JJ");
    reveal_strlit("C");
    reveal_strlit("K");
    reveal_strlit("T");
    reveal_strlit("P");
    reveal_strlit("H");
}

proof fn lemma_vowels()
    ensures
        forall|i: int| 0 <= i < 21 ==> key(#[trigger] vowel_names()[i]) == jung_keys()[i],
        forall|i: int|
            0 <= i < 21 ==> key(#[trigger] letter_names(Category::Jung)[i]) == jung_keys()[i],
{
    reveal_strlit("A");
    reveal_strlit("AE");
    reveal_strlit("YA");
    reveal_strlit("YAE");
    reveal_strlit("EO");
    reveal_strlit("E");
    reveal_strlit("YEO");
    reveal_strlit("YE");
    reveal_strlit("O");
    reveal_strlit("WA");
    reveal_strlit("WAE");
    reveal_strlit("OE");
    reveal_strlit("YO");
    reveal_strlit("U");
    reveal_strlit("WEO");
    reveal_strlit("WE");
    reveal_strlit("WI");
    reveal_strlit("YU");
    reveal_strlit("EU");
    reveal_strlit("YI");
    reveal_strlit("I");
}

proof fn lemma_index_of_name(names: Seq<Seq<char>>, s: Seq<char>)
    ensures
        0 <= name_index(names, s) <= names.len(),
        name_index(names, s) < names.len() ==> names[name_index(names, s)] == s,
        forall|k: int| 0 <= k < name_index(names, s) ==> #[trigger] names[k] != s,
    decreases names.len(),
{
    if names.len() > 0 && names[0] != s {
        lemma_index_of_name(names.skip(1), s);
        let n = name_index(names, s);
        assert forall|k: int| 0 <= k < n implies #[trigger] names[k] != s by {
            if k > 0 {
                assert(names.skip(1)[k - 1] == names[k]);
            }
        }
    }
}

/// The consonants of one name agree: as an initial and as a final, a letter is shown alone as the
/// compatibility letter of its name. Every such name is that of an initial or of a final.
pub proof fn consonants_are_shown_by_their_names(i: int)
    requires
        0 <= i < 30,
    ensures
        ({
            let name = consonant_names()[i];
            let cho = letter_named(Category::Cho, name);
            let jong = letter_named(Category::Jong, name);
            &&& cho matches Some(j) ==> j.category == Category::Cho && compat_of(j) == Some(
                (0x3131 + i) as u32,
            )
            &&& jong matches Some(j) ==> j.category == Category::Jong && compat_of(j) == Some(
                (0x3131 + i) as u32,
            )
            &&& cho is Some || jong is Some
        }),
{
    lemma_consonants();
    let name = consonant_names()[i];
    let cs = letter_names(Category::Cho);
    let js = letter_names(Category::Jong);
    lemma_index_of_name(cs, name);
    lemma_index_of_name(js, name);
    let a = name_index(cs, name);
    let b = name_index(js, name);
    if a < 19 {
        assert(key(cs[a]) == cho_keys()[a]);
        assert(cho_compat()[a] == 0x3131 + i);
    }
    if b < 27 {
        assert(key(js[b]) == jong_keys()[b]);
        assert(jong_compat()[b] == 0x3131 + i);
    }
    // Each name is that of the final or of the initial with this number.
    let finals: Seq<int> = seq![0, 1, 2, 3, 4, 5, 6, 31, 7, 8, 9, 10, 11, 12, 13, 14, 15, 16, 35, 17, 18, 19, 20, 21, 40, 22, 23, 24, 25, 26];
    let k = finals[i];
    if k < 27 {
        assert(js[k] == name);
    } else {
        assert(cs[k - 27] == name);
    }
}

/// A vowel is shown alone as the compatibility letter of its name, which has the same place in its
/// block. `OI` is another name of `OE`.
pub proof fn vowels_are_shown_by_their_names(i: int)
    requires
        0 <= i < 21,
    ensures
        letter_named(Category::Jung, vowel_names()[i]) == Some(
            Jamo { category: Category::Jung, cp: (0x1161 + i) as u32 },
        ),
        compat_of(Jamo { category: Category::Jung, cp: (0x1161 + i) as u32 }) == Some(
            (0x314F + i) as u32,
        ),
        letter_named(Category::Jung, "OI"@) == letter_named(Category::Jung, "OE"@),
{
    lemma_vowels();
    reveal_strlit("OI");
    let vs = letter_names(Category::Jung);
    let name = vowel_names()[i];
    assert(vs =~= vowel_names());
    lemma_index_of_name(vs, name);
    let a = name_index(vs, name);
    assert(vs[i] == name);
    assert(a <= i);
    assert(key(vs[a]) == jung_keys()[a]);
    assert(a == i);
    let oi = name_index(vs, "OI"@);
    lemma_index_of_name(vs, "OI"@);
    assert(key("OI"@) == 20297);
    if oi < 21 {
        assert(key(vs[oi]) == jung_keys()[oi]);
    }
    let oe = name_index(vs, "OE"@);
    lemma_index_of_name(vs, "OE"@);
    assert(vs[11] == "OE"@);
    assert(key(vs[oe]) == jung_keys()[oe]);
    assert(oe == 11);
}

/// Padding does not matter, but where no place was asked for: there a padding in front means a
/// final, and without one a name is that of an initial, or, where there is no such initial, of a
/// vowel.
pub proof fn padding_says_where_a_letter_belongs(
    front: Seq<char>,
    name: Seq<char>,
    back: Seq<char>,
    cat: Category,
)
    requires
        all_are(front, '_'),
        all_are(back, '_'),
        name.len() > 0,
        name[0] != '_' && name.last() != '_',
    ensures
        ({
            let s = front + name + back;
            let cho = letter_named(Category::Cho, name);
            let jung = letter_named(Category::Jung, name);
            let jong = letter_named(Category::Jong, name);
            &&& unit_of_name(s, Some(cat)) == as_unit(letter_named(cat, name))
            &&& front.len() > 0 ==> unit_of_name(s, None) == as_unit(jong)
            &&& front.len() == 0 && cho is Some ==> unit_of_name(s, None) == as_unit(cho)
            &&& front.len() == 0 && cho is None ==> unit_of_name(s, None) == as_unit(jung)
        }),
{
    let s = front + name + back;
    stripping_finds_the_text(front, name, back, '_');
    if front.len() > 0 {
        assert(s[0] == front[0]);
    } else {
        assert(s[0] == name[0]);
    }
}

/// A letter as a unit.
pub open spec fn as_unit(j: Option<Jamo>) -> Option<Unit> {
    match j {
        Some(j) => Some(Unit::Jamo(j)),
        None => None,
    }
}

} // verus!
