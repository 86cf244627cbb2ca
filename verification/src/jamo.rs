//! Precomposed modern syllables.

use vstd::prelude::*;

use crate::unit::{index_of_modern, modern_index, Category};

verus! {

/// The precomposed syllable of the given letters, if all of them are modern: the syllables
/// stand from U+AC00 on, ordered by initial, then vowel, then final.
pub open spec fn syllable_of(cho: u32, jung: u32, jong: Option<u32>) -> Option<char> {
    let l = modern_index(Category::Cho, cho);
    let v = modern_index(Category::Jung, jung);
    let t = match jong {
        Some(cp) => match modern_index(Category::Jong, cp) {
            Some(i) => Some(i + 1),
            None => None,
        },
        None => Some(0),
    };
    match (l, v, t) {
        (Some(l), Some(v), Some(t)) => Some((0xAC00 + (l * 21 + v) * 28 + t) as char),
        _ => None,
    }
}

/// Composes an initial, a vowel and an optional final into one precomposed syllable. `None`
/// where a letter is not a modern one of its place.
pub fn compose(cho: u32, jung: u32, jong: Option<u32>) -> (r: Option<char>)
    ensures
        r == syllable_of(cho, jung, jong),
{
    let l: u32 = match index_of_modern(Category::Cho, cho) {
        Some(i) => i,
        None => return None,
    };
    let v: u32 = match index_of_modern(Category::Jung, jung) {
        Some(i) => i,
        None => return None,
    };
    let t: u32 = match jong {
        Some(cp) => match index_of_modern(Category::Jong, cp) {
            Some(i) => i + 1,
            None => return None,
        },
        None => 0,
    };
    char::from_u32(0xAC00 + (l * 21 + v) * 28 + t)
}

/// A precomposed syllable lies in the block Hangul Syllables.
pub proof fn syllables_lie_in_their_block(cho: u32, jung: u32, jong: Option<u32>)
    requires
        syllable_of(cho, jung, jong) is Some,
    ensures
        0xAC00 <= syllable_of(cho, jung, jong)->0 as int <= 0xD7A3,
{
}

/// Two different combinations of modern letters never compose into the same syllable.
pub proof fn compose_is_injective(
    cho1: u32,
    jung1: u32,
    jong1: Option<u32>,
    cho2: u32,
    jung2: u32,
    jong2: Option<u32>,
)
    requires
        syllable_of(cho1, jung1, jong1) is Some,
        syllable_of(cho1, jung1, jong1) == syllable_of(cho2, jung2, jong2),
    ensures
        cho1 == cho2,
        jung1 == jung2,
        jong1 == jong2,
{
}

/// The syllables of the modern letters count up from U+AC00: first without a final and then through
/// the 27 finals, so for each of the 21 vowels, and so for each of the 19 initials.
pub proof fn syllables_count_up(i: u32, v: u32, f: u32)
    requires
        i < 19,
        v < 21,
        f < 28,
    ensures
        ({
            let jong = if f == 0 {
                None
            } else {
                Some((0x11A7 + f) as u32)
            };
            syllable_of((0x1100 + i) as u32, (0x1161 + v) as u32, jong) matches Some(c) && c as int
                == 0xAC00 + 588 * i + 28 * v + f
        }),
{
}

/// A letter that is not a modern one of its place makes no precomposed syllable.
pub proof fn other_letters_make_no_syllable(cho: u32, jung: u32, jong: Option<u32>)
    ensures
        !(0x1100 <= cho <= 0x1112) ==> syllable_of(cho, jung, jong) is None,
        !(0x1161 <= jung <= 0x1175) ==> syllable_of(cho, jung, jong) is None,
        jong matches Some(n) && !(0x11A8 <= n <= 0x11C2) ==> syllable_of(cho, jung, jong) is None,
{
}

/// Every character of the block Hangul Syllables is made by some letters.
pub proof fn every_syllable_is_made(c: char) -> (r: (u32, u32, Option<u32>))
    requires
        0xAC00 <= c as int <= 0xD7A3,
    ensures
        syllable_of(r.0, r.1, r.2) == Some(c),
{
    let n = c as int - 0xAC00;
    let i = n / 588;
    let v = (n % 588) / 28;
    let f = n % 28;
    syllables_count_up(i as u32, v as u32, f as u32);
    (
        (0x1100 + i) as u32,
        (0x1161 + v) as u32,
        if f == 0 {
            None
        } else {
            Some((0x11A7 + f) as u32)
        },
    )
}

} // verus!
