//! Syllables, and how they are written.

use vstd::prelude::*;

use super::model::{alone, conjoining, is_blank, no_syllable, shown, slot, with_slot, Syllable};
use crate::config::Layout;
use crate::jamo::compose;
use crate::unit::{Category, Jamo};

verus! {

impl Syllable {
    /// Whether the syllable has no letter.
    pub fn is_empty(&self) -> (r: bool)
        ensures
            r == is_blank(*self),
    {
        self.cho.is_none() && self.jung.is_none() && self.jong.is_none()
    }

    /// The letter in a place.
    pub(crate) fn letter(&self, cat: Category) -> (r: Option<u32>)
        ensures
            r == slot(*self, cat),
    {
        match cat {
            Category::Cho => self.cho,
            Category::Jung => self.jung,
            Category::Jong => self.jong,
        }
    }

    /// Puts a letter in a place.
    pub(crate) fn put(&mut self, cat: Category, cp: u32)
        ensures
            *final(self) == with_slot(*old(self), cat, cp),
    {
        match cat {
            Category::Cho => self.cho = Some(cp),
            Category::Jung => self.jung = Some(cp),
            Category::Jong => self.jong = Some(cp),
        }
    }
}

impl Default for Syllable {
    fn default() -> (r: Syllable)
        ensures
            r == no_syllable(),
    {
        Syllable { cho: None, jung: None, jong: None }
    }
}

pub(crate) fn push_conjoining(out: &mut String, cp: Option<u32>)
    ensures
        final(out)@ == old(out)@ + conjoining(cp),
{
    let ghost before = out@;
    if let Some(n) = cp {
        if let Some(c) = char::from_u32(n) {
            out.push(c);
        }
    }
    proof {
        assert(out@ =~= before + conjoining(cp));
    }
}

pub(crate) fn push_alone(out: &mut String, l: &Layout, cat: Category, cp: Option<u32>)
    ensures
        final(out)@ == old(out)@ + alone(l@, cat, cp),
{
    let ghost before = out@;
    if let Some(n) = cp {
        match l.standalone(Jamo::new(cat, n)) {
            Some(c) => {
                out.push(c);
                proof {
                    assert(out@ =~= before + alone(l@, cat, cp));
                }
            },
            None => push_conjoining(out, cp),
        }
    }
    proof {
        assert(out@ =~= before + alone(l@, cat, cp));
    }
}

/// How a syllable is written.
pub(crate) fn render(l: &Layout, s: &Syllable) -> (r: String)
    ensures
        r@ == shown(l@, *s),
{
    let mut r = String::new();
    if let (Some(cho), Some(jung)) = (s.cho, s.jung) {
        if let Some(c) = compose(cho, jung, s.jong) {
            r.push(c);
            proof {
                assert(r@ =~= shown(l@, *s));
            }
            return r;
        }
        push_conjoining(&mut r, s.cho);
        push_conjoining(&mut r, s.jung);
        push_conjoining(&mut r, s.jong);
    } else {
        push_alone(&mut r, l, Category::Cho, s.cho);
        push_alone(&mut r, l, Category::Jung, s.jung);
        push_alone(&mut r, l, Category::Jong, s.jong);
    }
    proof {
        assert(r@ =~= shown(l@, *s));
    }
    r
}

} // verus!
