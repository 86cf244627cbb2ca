//! The sequence numbers by which automaton expressions speak of letters.

use vstd::prelude::*;

use crate::unit::{index_of_modern, modern_index, Category};

verus! {

/// The sequence number of a letter within its place: positive, and ordered as the letters are.
/// Only the modern letters have one.
pub open spec fn seq_of(cat: Category, cp: u32) -> Option<int> {
    match modern_index(cat, cp) {
        Some(i) => Some(
            if cat == Category::Cho && i == 18 {
                185
            } else if cat == Category::Cho && i >= 15 {
                i - 15 + 176
            } else {
                i + 1
            },
        ),
        None => None,
    }
}

/// The sequence number of a letter within its place.
pub fn ngs_seq(cat: Category, cp: u32) -> (r: Option<u16>)
    ensures
        match r {
            Some(n) => seq_of(cat, cp) == Some(n as int),
            None => seq_of(cat, cp) is None,
        },
{
    match index_of_modern(cat, cp) {
        Some(i) => Some(
            if cat == Category::Cho && i == 18 {
                185
            } else if cat == Category::Cho && i >= 15 {
                (i - 15 + 176) as u16
            } else {
                (i + 1) as u16
            },
        ),
        None => None,
    }
}

/// Sequence numbers tell the letters of a place apart and order them as their code points do.
pub proof fn sequence_numbers_follow_the_letters(cat: Category, a: u32, b: u32)
    requires
        seq_of(cat, a) is Some,
        seq_of(cat, b) is Some,
    ensures
        0 < seq_of(cat, a)->0 < 500,
        a < b <==> seq_of(cat, a)->0 < seq_of(cat, b)->0,
{
}

/// Exactly the modern letters have a sequence number. Vowels and finals count from one, and so do
/// the first fifteen initials; the next three count from 176, and the last has 185.
pub proof fn sequence_numbers_count_up(cat: Category, cp: u32)
    ensures
        seq_of(cat, cp) is Some <==> match cat {
            Category::Cho => 0x1100 <= cp <= 0x1112,
            Category::Jung => 0x1161 <= cp <= 0x1175,
            Category::Jong => 0x11A8 <= cp <= 0x11C2,
        },
        cat == Category::Jung && 0x1161 <= cp <= 0x1175 ==> seq_of(cat, cp) == Some(cp - 0x1160),
        cat == Category::Jong && 0x11A8 <= cp <= 0x11C2 ==> seq_of(cat, cp) == Some(cp - 0x11A7),
        cat == Category::Cho && 0x1100 <= cp <= 0x110E ==> seq_of(cat, cp) == Some(cp - 0x10FF),
        cat == Category::Cho && 0x110F <= cp <= 0x1111 ==> seq_of(cat, cp) == Some(
            cp - 0x110F + 176,
        ),
        cat == Category::Cho && cp == 0x1112 ==> seq_of(cat, cp) == Some(185int),
{
}

} // verus!
