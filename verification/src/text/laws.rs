//! What holds of cutting strings up and of reading numbers.

use vstd::prelude::*;

use super::{
    begins, digit_char, digit_value, first_index, integer, is_digit, is_letter, is_number, is_space,
    lowercase, number_value, numeral, numerals_read_back, split, strip_end, strip_start, trim_end,
    trim_start, trimmed,
};

verus! {

// ── characters ─────────────────────────────────────────────────────────────────

/// White space is five controls and the blank of ASCII, and, beyond ASCII, the further characters
/// that Unicode calls so.
pub proof fn white_space_is_that_of_unicode(c: char)
    ensures
        is_space(c) <==> {
            ||| c == '\t' || c == '\n' || c == '\u{b}' || c == '\u{c}' || c == '\r' || c == ' '
            ||| c == '\u{85}' || c == '\u{a0}' || c == '\u{1680}'
            ||| '\u{2000}' <= c <= '\u{200a}'
            ||| c == '\u{2028}' || c == '\u{2029}' || c == '\u{202f}' || c == '\u{205f}'
            ||| c == '\u{3000}'
        },
{
}

/// No character is of two kinds among letters, digits and white space. The letters are twice 26,
/// and the digits are ten.
pub proof fn kinds_of_characters_are_apart(c: char)
    ensures
        is_letter(c) <==> 65 <= c as int <= 90 || 97 <= c as int <= 122,
        is_digit(c) <==> 48 <= c as int <= 57,
        !(is_letter(c) && is_digit(c)),
        !(is_letter(c) && is_space(c)),
        !(is_digit(c) && is_space(c)),
{
}

/// In small letters a text has no capital, every capital has become the letter with the same place
/// in the alphabet, and nothing else has changed. Doing it twice changes nothing more.
pub proof fn small_letters_replace_capitals(s: Seq<char>)
    ensures
        lowercase(s).len() == s.len(),
        forall|i: int|
            #![trigger lowercase(s)[i]]
            0 <= i < s.len() ==> {
                let c = lowercase(s)[i];
                &&& !('A' <= c <= 'Z')
                &&& if 'A' <= s[i] <= 'Z' {
                    'a' <= c <= 'z' && c as int - 'a' as int == s[i] as int - 'A' as int
                } else {
                    c == s[i]
                }
            },
        lowercase(lowercase(s)) == lowercase(s),
{
    assert(lowercase(lowercase(s)) =~= lowercase(s));
}

// ── cutting ────────────────────────────────────────────────────────────────────

/// Whether every character of the text is white space.
pub open spec fn all_space(s: Seq<char>) -> bool {
    forall|i: int| 0 <= i < s.len() ==> is_space(#[trigger] s[i])
}

/// Whether the text neither begins nor ends with white space.
pub open spec fn has_bare_ends(s: Seq<char>) -> bool {
    s.len() > 0 ==> !is_space(s[0]) && !is_space(s.last())
}

/// Trimming takes white space, and nothing else, from the two ends, and leaves none there.
pub proof fn trimming_bares_the_ends(s: Seq<char>) -> (r: (Seq<char>, Seq<char>))
    ensures
        s == r.0 + trimmed(s) + r.1,
        all_space(r.0),
        all_space(r.1),
        has_bare_ends(trimmed(s)),
{
    let a = lemma_trim_start(s);
    let b = lemma_trim_end(trim_start(s));
    assert(s =~= a + trimmed(s) + b);
    (a, b)
}

/// A text with bare ends is what trimming leaves of it, whatever white space stands around it.
pub proof fn trimming_finds_the_text(a: Seq<char>, t: Seq<char>, b: Seq<char>)
    requires
        all_space(a),
        all_space(b),
        has_bare_ends(t),
    ensures
        trimmed(a + t + b) == t,
    decreases a.len(), b.len(),
{
    let s = a + t + b;
    if a.len() > 0 {
        assert(s[0] == a[0]);
        assert(s.skip(1) =~= a.skip(1) + t + b);
        trimming_finds_the_text(a.skip(1), t, b);
    } else if t.len() == 0 {
        assert(s =~= b);
        lemma_trim_space(b);
    } else {
        assert(s[0] == t[0]);
        assert(trim_start(s) == s);
        lemma_trim_end_space(t, b);
        assert(s =~= t + b);
    }
}

proof fn lemma_trim_space(b: Seq<char>)
    requires
        all_space(b),
    ensures
        trim_start(b).len() == 0,
    decreases b.len(),
{
    if b.len() > 0 {
        assert(is_space(b[0]));
        assert forall|i: int| 0 <= i < b.skip(1).len() implies is_space(#[trigger] b.skip(1)[i]) by {
            assert(is_space(b[i + 1]));
        }
        lemma_trim_space(b.skip(1));
    }
}

proof fn lemma_trim_end_space(t: Seq<char>, b: Seq<char>)
    requires
        all_space(b),
        t.len() > 0,
        !is_space(t.last()),
    ensures
        trim_end(t + b) == t,
    decreases b.len(),
{
    if b.len() == 0 {
        assert(t + b =~= t);
    } else {
        assert((t + b).last() == b.last());
        assert(is_space(b[b.len() - 1]));
        assert((t + b).drop_last() =~= t + b.drop_last());
        lemma_trim_end_space(t, b.drop_last());
    }
}

proof fn lemma_trim_start(s: Seq<char>) -> (a: Seq<char>)
    ensures
        s == a + trim_start(s),
        all_space(a),
        trim_start(s).len() > 0 ==> !is_space(trim_start(s)[0]),
    decreases s.len(),
{
    if s.len() > 0 && is_space(s[0]) {
        let a = lemma_trim_start(s.skip(1));
        let r = seq![s[0]] + a;
        assert(s =~= seq![s[0]] + s.skip(1));
        assert(trim_start(s) == trim_start(s.skip(1)));
        assert(seq![s[0]] + (a + trim_start(s)) =~= r + trim_start(s));
        assert(s =~= r + trim_start(s));
        r
    } else {
        assert(s =~= Seq::<char>::empty() + s);
        Seq::empty()
    }
}

proof fn lemma_trim_end(s: Seq<char>) -> (b: Seq<char>)
    ensures
        s == trim_end(s) + b,
        all_space(b),
        trim_end(s).len() > 0 ==> !is_space(trim_end(s).last()) && trim_end(s)[0] == s[0],
    decreases s.len(),
{
    if s.len() > 0 && is_space(s.last()) {
        let b = lemma_trim_end(s.drop_last());
        let r = b.push(s.last());
        assert(s =~= s.drop_last().push(s.last()));
        assert(trim_end(s) == trim_end(s.drop_last()));
        assert((trim_end(s) + b).push(s.last()) =~= trim_end(s) + r);
        assert(s =~= trim_end(s) + r);
        r
    } else {
        assert(s =~= s + Seq::<char>::empty());
        Seq::empty()
    }
}

/// Whether the character stands nowhere in the text.
pub open spec fn is_without(s: Seq<char>, c: char) -> bool {
    forall|i: int| 0 <= i < s.len() ==> #[trigger] s[i] != c
}

/// The parts one after the other, with the separator between them.
pub open spec fn with_between(parts: Seq<Seq<char>>, sep: char) -> Seq<char>
    decreases parts.len(),
{
    if parts.len() == 0 {
        Seq::empty()
    } else if parts.len() == 1 {
        parts[0]
    } else {
        with_between(parts.drop_last(), sep).push(sep) + parts.last()
    }
}

/// Parts that do not hold the separator, put one after the other with the separator between them,
/// are the parts into which the whole is split.
pub proof fn splitting_undoes_joining(parts: Seq<Seq<char>>, sep: char)
    requires
        parts.len() > 0,
        forall|i: int| 0 <= i < parts.len() ==> is_without(#[trigger] parts[i], sep),
    ensures
        split(with_between(parts, sep), sep) == parts,
    decreases parts.len(), parts.last().len(),
{
    let s = with_between(parts, sep);
    let last = parts.last();
    if last.len() == 0 {
        if parts.len() == 1 {
            assert(s =~= Seq::<char>::empty());
            assert(split(s, sep) =~= parts);
        } else {
            let init = parts.drop_last();
            splitting_undoes_joining(init, sep);
            assert(s =~= with_between(init, sep).push(sep));
            assert(s.drop_last() =~= with_between(init, sep));
            assert(s.last() == sep);
            assert(split(s, sep) == init.push(Seq::empty()));
            assert(last =~= Seq::<char>::empty());
            assert(split(s, sep) =~= parts);
        }
    } else {
        let shorter = parts.drop_last().push(last.drop_last());
        assert forall|i: int| 0 <= i < shorter.len() implies is_without(
            #[trigger] shorter[i],
            sep,
        ) by {
            assert(is_without(parts[i], sep));
        }
        splitting_undoes_joining(shorter, sep);
        assert(shorter.drop_last() =~= parts.drop_last());
        assert(is_without(parts[parts.len() - 1], sep));
        assert(s.last() == last.last());
        assert(s.drop_last() =~= with_between(shorter, sep));
        assert(s.last() != sep);
        assert(split(s, sep) == shorter.drop_last().push(shorter.last().push(s.last())));
        assert(shorter.last().push(s.last()) =~= last);
        assert(split(s, sep) =~= parts);
    }
}

/// The parts into which a text is split do not hold the separator, and with the separator between
/// them they are the text.
pub proof fn joining_undoes_splitting(s: Seq<char>, sep: char)
    ensures
        split(s, sep).len() > 0,
        with_between(split(s, sep), sep) == s,
        forall|i: int| 0 <= i < split(s, sep).len() ==> is_without(#[trigger] split(s, sep)[i], sep),
    decreases s.len(),
{
    if s.len() > 0 {
        let parts = split(s.drop_last(), sep);
        joining_undoes_splitting(s.drop_last(), sep);
        let all = split(s, sep);
        if s.last() == sep {
            assert(all.drop_last() =~= parts);
            assert(with_between(all, sep) =~= s);
            assert forall|i: int| 0 <= i < all.len() implies is_without(#[trigger] all[i], sep) by {
                if i < parts.len() {
                    assert(all[i] == parts[i]);
                }
            }
        } else {
            assert(all.drop_last() =~= parts.drop_last());
            assert(all.last() == parts.last().push(s.last()));
            if parts.len() > 1 {
                let head = with_between(parts.drop_last(), sep).push(sep);
                assert(head + parts.last().push(s.last()) =~= (head + parts.last()).push(s.last()));
            }
            assert(with_between(all, sep) == with_between(parts, sep).push(s.last()));
            assert(with_between(all, sep) =~= s);
            assert forall|i: int| 0 <= i < all.len() implies is_without(#[trigger] all[i], sep) by {
                assert(is_without(parts[parts.len() - 1], sep));
                if i < parts.len() - 1 {
                    assert(all[i] == parts[i]);
                }
            }
        }
    } else {
        assert(with_between(split(s, sep), sep) =~= s);
    }
}

/// The first place of a character is the one before which it does not stand, and the length of the
/// text where it stands nowhere.
pub proof fn first_places_come_first(s: Seq<char>, c: char)
    ensures
        0 <= first_index(s, c) <= s.len(),
        first_index(s, c) < s.len() ==> s[first_index(s, c)] == c,
        is_without(s.take(first_index(s, c)), c),
    decreases s.len(),
{
    if s.len() > 0 && s[0] != c {
        first_places_come_first(s.skip(1), c);
        let k = first_index(s, c);
        assert forall|i: int| 0 <= i < k implies #[trigger] s.take(k)[i] != c by {
            if i > 0 {
                assert(s.skip(1).take(k - 1)[i - 1] != c);
            }
        }
    }
}

/// A text begins with another exactly where the rest can be put behind it.
pub proof fn beginnings_have_a_rest(s: Seq<char>, prefix: Seq<char>)
    ensures
        begins(s, prefix) <==> exists|rest: Seq<char>| s == #[trigger] (prefix + rest),
{
    if begins(s, prefix) {
        assert(s =~= prefix + s.skip(prefix.len() as int));
    }
    if exists|rest: Seq<char>| s == #[trigger] (prefix + rest) {
        let rest = choose|rest: Seq<char>| s == #[trigger] (prefix + rest);
        assert(s.take(prefix.len() as int) =~= prefix);
    }
}

/// Whether every character of the text is the given one.
pub open spec fn all_are(s: Seq<char>, c: char) -> bool {
    forall|i: int| 0 <= i < s.len() ==> #[trigger] s[i] == c
}

/// A text that neither begins nor ends with the padding is what stripping leaves of it, whatever
/// padding stands around it.
pub proof fn stripping_finds_the_text(a: Seq<char>, t: Seq<char>, b: Seq<char>, pad: char)
    requires
        all_are(a, pad),
        all_are(b, pad),
        t.len() > 0,
        t[0] != pad && t.last() != pad,
    ensures
        strip_end(strip_start(a + t + b, pad), pad) == t,
    decreases a.len(), b.len(),
{
    let s = a + t + b;
    if a.len() > 0 {
        assert(s[0] == a[0]);
        assert(s.skip(1) =~= a.skip(1) + t + b);
        assert forall|i: int| 0 <= i < a.skip(1).len() implies #[trigger] a.skip(1)[i] == pad by {
            assert(a[i + 1] == pad);
        }
        stripping_finds_the_text(a.skip(1), t, b, pad);
    } else {
        assert(s[0] == t[0]);
        if b.len() == 0 {
            assert(s =~= t);
        } else {
            assert(s.last() == b.last());
            assert(b[b.len() - 1] == pad);
            assert(s.drop_last() =~= a + t + b.drop_last());
            assert((a + t + b.drop_last())[0] == t[0]);
            stripping_finds_the_text(a, t, b.drop_last(), pad);
        }
    }
}

// ── numbers ────────────────────────────────────────────────────────────────────

/// The digits count from zero to fifteen, the letters among them from ten on and alike in both
/// cases. No other character is a digit.
pub proof fn digits_count_up(c: char)
    ensures
        '0' <= c <= '9' ==> digit_value(c) == c as int - 48,
        'a' <= c <= 'f' ==> digit_value(c) == 10 + (c as int - 97),
        'A' <= c <= 'F' ==> digit_value(c) == 10 + (c as int - 65),
        digit_value(c) < 16 ==> '0' <= c <= '9' || 'a' <= c <= 'f' || 'A' <= c <= 'F',
        0 <= digit_value(c),
{
}

/// The text of a number is its only one without a leading zero: it begins with another digit
/// unless it is the single digit zero.
pub proof fn numerals_have_no_leading_zero(n: nat, radix: nat)
    requires
        2 <= radix <= 16,
    ensures
        numeral(n, radix).len() > 0,
        n > 0 ==> numeral(n, radix)[0] != '0',
        n == 0 ==> numeral(n, radix) == seq!['0'],
        radix == 10 ==> forall|i: int|
            0 <= i < numeral(n, radix).len() ==> '0' <= #[trigger] numeral(n, radix)[i] <= '9',
    decreases n,
{
    if n >= radix {
        let high = n / radix;
        assert(0 < high < n) by (nonlinear_arith)
            requires
                2 <= radix <= n,
                high == n / radix,
        ;
        numerals_have_no_leading_zero(high, radix);
        let all = numeral(n, radix);
        assert(all == numeral(high, radix).push(digit_char((n % radix) as int)));
        assert(all[0] == numeral(high, radix)[0]);
        if radix == 10 {
            assert forall|i: int| 0 <= i < all.len() implies '0' <= #[trigger] all[i] <= '9' by {
                if i < numeral(high, radix).len() {
                    assert(all[i] == numeral(high, radix)[i]);
                }
            }
        }
    }
}

/// A text that is read as an integer is that of digits alone, or behind a plus sign, or behind a
/// minus sign where negative integers are wanted. The integer is read exactly where it lies between
/// the bounds, and the bounds themselves do.
pub proof fn integers_are_read_with_signs(n: nat, radix: nat, low: int, high: int)
    requires
        2 <= radix <= 16,
        low <= 0 <= high,
    ensures
        integer(numeral(n, radix), radix as int, low, high) == (if n <= high {
            Some(n as int)
        } else {
            None
        }),
        integer(seq!['+'] + numeral(n, radix), radix as int, low, high) == (if n <= high {
            Some(n as int)
        } else {
            None
        }),
        integer(seq!['-'] + numeral(n, radix), radix as int, low, high) == (if low < 0 && low <= -n
            <= high {
            Some(-(n as int))
        } else {
            None
        }),
{
    let t = numeral(n, radix);
    numerals_read_back(n, radix);
    assert(t.len() > 0);
    assert(digit_value(t[0]) < radix);
    assert((seq!['+'] + t).skip(1) =~= t);
    assert((seq!['-'] + t).skip(1) =~= t);
    assert((seq!['-'] + t)[0] == '-');
    assert((seq!['+'] + t)[0] == '+');
    if low == 0 {
        assert(digit_value((seq!['-'] + t)[0]) == 99);
    }
}

/// Leading zeros do not matter.
pub proof fn leading_zeros_do_not_count(s: Seq<char>, radix: int)
    requires
        2 <= radix <= 16,
    ensures
        number_value(seq!['0'] + s, radix) == number_value(s, radix),
        is_number(s, radix) ==> is_number(seq!['0'] + s, radix),
    decreases s.len(),
{
    let z = seq!['0'] + s;
    if s.len() == 0 {
        assert(z.drop_last() =~= Seq::<char>::empty());
        assert(number_value(z.drop_last(), radix) == 0);
        assert(0 * radix == 0) by (nonlinear_arith);
        assert(z.last() == '0');
    } else {
        assert(z.drop_last() =~= seq!['0'] + s.drop_last());
        leading_zeros_do_not_count(s.drop_last(), radix);
        assert(z.last() == s.last());
        if is_number(s, radix) {
            assert forall|i: int| 0 <= i < z.len() implies digit_value(#[trigger] z[i]) < radix by {
                if i > 0 {
                    assert(z[i] == s[i - 1]);
                }
            }
        }
    }
}

/// A text that holds anything but digits, behind a sign or not, writes no integer.
pub proof fn only_digits_write_integers(s: Seq<char>, radix: int, low: int, high: int, i: int)
    requires
        2 <= radix <= 16,
        0 <= i < s.len(),
        digit_value(s[i]) >= radix,
        i > 0 || (s[0] != '+' && s[0] != '-') || s.len() == 1,
    ensures
        integer(s, radix, low, high) is None,
        integer(Seq::empty(), radix, low, high) is None,
{
    if s.len() > 1 && i > 0 {
        assert(s.skip(1)[i - 1] == s[i]);
    }
}

} // verus!
