//! Units, and the histories that they make up.

use vstd::prelude::*;

use super::model::{jamo_of, place, without_any, without_last};
use crate::config::{Layout, LayoutModel};
use crate::unit::{Category, Jamo, Unit};

verus! {

broadcast use vstd::std_specs::hash::group_hash_axioms;

pub(crate) fn copy_units(v: &Vec<Unit>) -> (r: Vec<Unit>)
    ensures
        r@ == v@,
{
    let mut r: Vec<Unit> = Vec::new();
    let mut i: usize = 0;
    while i < v.len()
        invariant
            i <= v@.len(),
            r@ == v@.take(i as int),
        decreases v@.len() - i,
    {
        proof {
            assert(v@.take(i as int + 1) =~= v@.take(i as int).push(v@[i as int]));
        }
        r.push(v[i]);
        i = i + 1;
    }
    proof {
        assert(v@.take(v@.len() as int) =~= v@);
    }
    r
}

/// The letter that a unit stands for.
pub(crate) fn letter_of_unit(l: &Layout, u: Unit) -> (r: Option<Jamo>)
    ensures
        r == jamo_of(l@, u),
{
    match u {
        Unit::Jamo(j) => Some(j),
        Unit::Virtual(id) => match l.virtual_units.get(&id) {
            Some(j) => Some(*j),
            None => None,
        },
        Unit::Toggle => None,
    }
}

/// The place of a unit's letter.
pub(crate) fn unit_cat(l: &Layout, u: Unit) -> (r: Option<Category>)
    ensures
        r == place(l@, u),
{
    match u {
        Unit::Toggle => Some(Category::Cho),
        _ => match letter_of_unit(l, u) {
            Some(j) => Some(j.category),
            None => None,
        },
    }
}

pub(crate) fn is_at(l: &Layout, u: Unit, cat: Category) -> (r: bool)
    ensures
        r == (place(l@, u) == Some(cat)),
{
    match unit_cat(l, u) {
        Some(c) => c == cat,
        None => false,
    }
}

proof fn lemma_without_last_at(l: LayoutModel, h: Seq<Unit>, cat: Category, p: int)
    requires
        -1 <= p < h.len(),
        p >= 0 ==> place(l, h[p]) == Some(cat),
        forall|k: int| p < k < h.len() ==> place(l, #[trigger] h[k]) != Some(cat),
    ensures
        without_last(l, h, cat) == (if p >= 0 {
            h.remove(p)
        } else {
            h
        }),
    decreases h.len(),
{
    if h.len() > 0 {
        if p == h.len() - 1 {
            assert(h.remove(p) =~= h.drop_last());
        } else {
            assert(place(l, h[h.len() - 1]) != Some(cat));
            let rest = h.drop_last();
            assert forall|k: int| p < k < rest.len() implies place(l, #[trigger] rest[k]) != Some(
                cat,
            ) by {
                assert(rest[k] == h[k]);
            }
            lemma_without_last_at(l, rest, cat, p);
            if p >= 0 {
                assert(rest.remove(p).push(h.last()) =~= h.remove(p));
            } else {
                assert(rest.push(h.last()) =~= h);
            }
        }
    }
}

/// Takes the last unit of a place out of the history.
pub(crate) fn remove_last_at(l: &Layout, h: &mut Vec<Unit>, cat: Category)
    ensures
        final(h)@ == without_last(l@, old(h)@, cat),
{
    let ghost all = h@;
    let mut i: usize = h.len();
    while i > 0
        invariant
            i <= h@.len(),
            h@ == all,
            all == old(h)@,
            forall|k: int| i <= k < all.len() ==> place(l@, #[trigger] all[k]) != Some(cat),
        decreases i,
    {
        if is_at(l, h[i - 1], cat) {
            proof {
                lemma_without_last_at(l@, all, cat, i - 1);
            }
            h.remove(i - 1);
            return;
        }
        i = i - 1;
    }
    proof {
        lemma_without_last_at(l@, all, cat, -1);
    }
}

/// The history without any unit of a place.
pub(crate) fn without_place(l: &Layout, h: &Vec<Unit>, cat: Category) -> (r: Vec<Unit>)
    ensures
        r@ == without_any(l@, h@, cat),
{
    let mut r: Vec<Unit> = Vec::new();
    let mut i: usize = 0;
    while i < h.len()
        invariant
            i <= h@.len(),
            r@ == without_any(l@, h@.take(i as int), cat),
        decreases h@.len() - i,
    {
        proof {
            assert(h@.take(i as int + 1).drop_last() =~= h@.take(i as int));
        }
        if !is_at(l, h[i], cat) {
            r.push(h[i]);
        }
        i = i + 1;
    }
    proof {
        assert(h@.take(h@.len() as int) =~= h@);
    }
    r
}

} // verus!
