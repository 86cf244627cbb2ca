//! Characters, strings and number literals.
//!
//! A string is modelled by the sequence of its characters. The functions here cut strings up,
//! compare them, read numbers out of them and write numbers into them.

use vstd::prelude::*;

pub mod laws;

verus! {

// ── std items without a specification of their own ─────────────────────────────

/// `String::push` appends the character to the end of the string.
pub assume_specification [String::push](s: &mut String, c: char)
    ensures
        final(s)@ == old(s)@.push(c),
;

/// `char::from_u32` gives the character with the code point `n`; surrogates and numbers above
/// U+10FFFF are not characters.
pub assume_specification [char::from_u32](n: u32) -> (c: Option<char>)
    ensures
        c == char_at(n as int),
;

/// The character with the given code point, if the number is a Unicode scalar value.
pub open spec fn char_at(n: int) -> Option<char> {
    if 0 <= n < 0xD800 || 0xE000 <= n <= 0x10FFFF {
        Some(n as char)
    } else {
        None
    }
}

/// The code point of a character.
pub fn code_point(c: char) -> (n: u32)
    ensures
        n == c as int,
{
    c as u32
}

// ── strings as sequences ───────────────────────────────────────────────────────

/// The characters of `s`.
pub fn chars_of(s: &str) -> (v: Vec<char>)
    ensures
        v@ == s@,
{
    let mut v: Vec<char> = Vec::new();
    for c in it: s.chars()
        invariant
            v@ == s@.take(it.index() as int),
            it.seq() == s@,
    {
        proof {
            assert(s@.take(it.index() as int + 1) == s@.take(it.index() as int).push(
                s@[it.index() as int],
            ));
        }
        v.push(c);
    }
    proof {
        assert(s@.take(s@.len() as int) == s@);
    }
    v
}

/// The characters from index `from` up to, but not at, index `to`, as a string.
pub fn string_of(v: &Vec<char>, from: usize, to: usize) -> (s: String)
    requires
        from <= to <= v@.len(),
    ensures
        s@ == v@.subrange(from as int, to as int),
{
    let mut s = String::new();
    let mut i: usize = from;
    while i < to
        invariant
            from <= i <= to <= v@.len(),
            s@ == v@.subrange(from as int, i as int),
        decreases to - i,
    {
        proof {
            assert(v@.subrange(from as int, i as int + 1) == v@.subrange(
                from as int,
                i as int,
            ).push(v@[i as int]));
        }
        s.push(v[i]);
        i = i + 1;
    }
    s
}

/// Whether the character vectors hold the same characters.
pub fn same_chars(a: &Vec<char>, b: &Vec<char>) -> (r: bool)
    ensures
        r == (a@ == b@),
{
    if a.len() != b.len() {
        return false;
    }
    let mut i: usize = 0;
    while i < a.len()
        invariant
            i <= a@.len(),
            a@.len() == b@.len(),
            forall|k: int| 0 <= k < i ==> a@[k] == b@[k],
        decreases a@.len() - i,
    {
        if a[i] != b[i] {
            return false;
        }
        i = i + 1;
    }
    proof {
        assert(a@ =~= b@);
    }
    true
}

/// Whether two strings hold the same characters.
pub fn same(a: &str, b: &str) -> (r: bool)
    ensures
        r == (a@ == b@),
{
    same_chars(&chars_of(a), &chars_of(b))
}

// ── character classes ──────────────────────────────────────────────────────────

/// The characters with the Unicode property `White_Space`.
pub open spec fn is_space(c: char) -> bool {
    ||| 0x09 <= c as int <= 0x0D
    ||| c as int == 0x20
    ||| c as int == 0x85
    ||| c as int == 0xA0
    ||| c as int == 0x1680
    ||| 0x2000 <= c as int <= 0x200A
    ||| c as int == 0x2028
    ||| c as int == 0x2029
    ||| c as int == 0x202F
    ||| c as int == 0x205F
    ||| c as int == 0x3000
}

/// Whether `c` is white space.
pub fn space(c: char) -> (r: bool)
    ensures
        r == is_space(c),
{
    let n: u32 = c as u32;
    (0x09 <= n && n <= 0x0D) || n == 0x20 || n == 0x85 || n == 0xA0 || n == 0x1680 || (0x2000 <= n
        && n <= 0x200A) || n == 0x2028 || n == 0x2029 || n == 0x202F || n == 0x205F || n == 0x3000
}

/// The ASCII letters.
pub open spec fn is_letter(c: char) -> bool {
    'a' <= c <= 'z' || 'A' <= c <= 'Z'
}

/// The ASCII decimal digits.
pub open spec fn is_digit(c: char) -> bool {
    '0' <= c <= '9'
}

/// Whether `c` is an ASCII letter.
pub fn letter(c: char) -> (r: bool)
    ensures
        r == is_letter(c),
{
    ('a' <= c && c <= 'z') || ('A' <= c && c <= 'Z')
}

/// Whether `c` is an ASCII decimal digit.
pub fn digit(c: char) -> (r: bool)
    ensures
        r == is_digit(c),
{
    '0' <= c && c <= '9'
}

/// `c` with an ASCII capital replaced by its small letter.
pub open spec fn lower_of(c: char) -> char {
    if 'A' <= c <= 'Z' {
        (c as int + 32) as char
    } else {
        c
    }
}

/// `s` with every ASCII capital replaced by its small letter.
pub open spec fn lowercase(s: Seq<char>) -> Seq<char> {
    s.map_values(|c: char| lower_of(c))
}

/// The characters of `s` with every ASCII capital replaced by its small letter.
pub fn to_lowercase(s: &Vec<char>) -> (r: Vec<char>)
    ensures
        r@ == lowercase(s@),
{
    let mut r: Vec<char> = Vec::new();
    let mut i: usize = 0;
    while i < s.len()
        invariant
            i <= s@.len(),
            r@ == lowercase(s@.take(i as int)),
        decreases s@.len() - i,
    {
        let c = s[i];
        let b = if 'A' <= c && c <= 'Z' {
            (c as u8 + 32) as char
        } else {
            c
        };
        proof {
            assert(s@.take(i as int + 1) == s@.take(i as int).push(c));
            assert(lowercase(s@.take(i as int + 1)) =~= lowercase(s@.take(i as int)).push(
                lower_of(c),
            ));
        }
        r.push(b);
        i = i + 1;
    }
    proof {
        assert(s@.take(s@.len() as int) == s@);
    }
    r
}

// ── cutting strings up ─────────────────────────────────────────────────────────

/// The characters from index `from` up to, but not at, index `to`.
pub fn slice_of(v: &Vec<char>, from: usize, to: usize) -> (r: Vec<char>)
    requires
        from <= to <= v@.len(),
    ensures
        r@ == v@.subrange(from as int, to as int),
{
    let mut r: Vec<char> = Vec::new();
    let mut i: usize = from;
    while i < to
        invariant
            from <= i <= to <= v@.len(),
            r@ == v@.subrange(from as int, i as int),
        decreases to - i,
    {
        proof {
            assert(v@.subrange(from as int, i as int + 1) == v@.subrange(
                from as int,
                i as int,
            ).push(v@[i as int]));
        }
        r.push(v[i]);
        i = i + 1;
    }
    r
}

/// `s` without the white space that it begins with.
pub open spec fn trim_start(s: Seq<char>) -> Seq<char>
    decreases s.len(),
{
    if s.len() > 0 && is_space(s[0]) {
        trim_start(s.skip(1))
    } else {
        s
    }
}

/// `s` without the white space that it ends with.
pub open spec fn trim_end(s: Seq<char>) -> Seq<char>
    decreases s.len(),
{
    if s.len() > 0 && is_space(s.last()) {
        trim_end(s.drop_last())
    } else {
        s
    }
}

/// `s` without the white space at its two ends.
pub open spec fn trimmed(s: Seq<char>) -> Seq<char> {
    trim_end(trim_start(s))
}

/// The characters of `s` without the white space at the two ends.
pub fn trim(s: &Vec<char>) -> (r: Vec<char>)
    ensures
        r@ == trimmed(s@),
{
    let mut from: usize = 0;
    proof {
        assert(s@.skip(0) == s@);
    }
    while from < s.len() && space(s[from])
        invariant
            from <= s@.len(),
            trim_start(s@) == trim_start(s@.skip(from as int)),
        decreases s@.len() - from,
    {
        proof {
            assert(s@.skip(from as int).skip(1) == s@.skip(from as int + 1));
        }
        from = from + 1;
    }
    let mut to: usize = s.len();
    proof {
        assert(trim_start(s@) == s@.skip(from as int));
        assert(s@.skip(from as int) == s@.subrange(from as int, to as int));
    }
    while from < to && space(s[to - 1])
        invariant
            from <= to <= s@.len(),
            trimmed(s@) == trim_end(s@.subrange(from as int, to as int)),
        decreases to - from,
    {
        proof {
            assert(s@.subrange(from as int, to as int).drop_last() == s@.subrange(
                from as int,
                to as int - 1,
            ));
        }
        to = to - 1;
    }
    slice_of(s, from, to)
}

/// The parts of `s` between the separators, one more than there are separators.
pub open spec fn split(s: Seq<char>, sep: char) -> Seq<Seq<char>>
    decreases s.len(),
{
    if s.len() == 0 {
        seq![Seq::empty()]
    } else {
        let parts = split(s.drop_last(), sep);
        if s.last() == sep {
            parts.push(Seq::empty())
        } else {
            parts.drop_last().push(parts.last().push(s.last()))
        }
    }
}

/// The characters of each vector.
pub open spec fn views(v: Seq<Vec<char>>) -> Seq<Seq<char>> {
    v.map_values(|x: Vec<char>| x@)
}

/// The parts of `s` between the separators.
pub fn split_at_each(s: &Vec<char>, sep: char) -> (r: Vec<Vec<char>>)
    ensures
        views(r@) == split(s@, sep),
{
    let mut parts: Vec<Vec<char>> = Vec::new();
    let mut part: Vec<char> = Vec::new();
    let mut i: usize = 0;
    proof {
        assert(views(parts@).push(part@) =~= split(s@.take(0), sep));
    }
    while i < s.len()
        invariant
            i <= s@.len(),
            views(parts@).push(part@) == split(s@.take(i as int), sep),
        decreases s@.len() - i,
    {
        let c = s[i];
        let ghost before = views(parts@);
        let ghost part_before = part@;
        proof {
            assert(s@.take(i as int + 1).drop_last() == s@.take(i as int));
            assert(before.push(part_before).drop_last() =~= before);
        }
        if c == sep {
            parts.push(part);
            part = Vec::new();
            proof {
                assert(views(parts@) =~= before.push(part_before));
            }
        } else {
            part.push(c);
        }
        i = i + 1;
    }
    let ghost before = views(parts@);
    let ghost part_before = part@;
    parts.push(part);
    proof {
        assert(views(parts@) =~= before.push(part_before));
        assert(s@.take(s@.len() as int) == s@);
    }
    parts
}

/// `s` without the leading characters that equal `pad`.
pub open spec fn strip_start(s: Seq<char>, pad: char) -> Seq<char>
    decreases s.len(),
{
    if s.len() > 0 && s[0] == pad {
        strip_start(s.skip(1), pad)
    } else {
        s
    }
}

/// `s` without the trailing characters that equal `pad`.
pub open spec fn strip_end(s: Seq<char>, pad: char) -> Seq<char>
    decreases s.len(),
{
    if s.len() > 0 && s.last() == pad {
        strip_end(s.drop_last(), pad)
    } else {
        s
    }
}

/// The characters of `s` without the padding at the two ends.
pub fn strip(s: &Vec<char>, pad: char) -> (r: Vec<char>)
    ensures
        r@ == strip_end(strip_start(s@, pad), pad),
{
    let mut from: usize = 0;
    proof {
        assert(s@.skip(0) == s@);
    }
    while from < s.len() && s[from] == pad
        invariant
            from <= s@.len(),
            strip_start(s@, pad) == strip_start(s@.skip(from as int), pad),
        decreases s@.len() - from,
    {
        proof {
            assert(s@.skip(from as int).skip(1) == s@.skip(from as int + 1));
        }
        from = from + 1;
    }
    let mut to: usize = s.len();
    proof {
        assert(strip_start(s@, pad) == s@.skip(from as int));
        assert(s@.skip(from as int) == s@.subrange(from as int, to as int));
    }
    while from < to && s[to - 1] == pad
        invariant
            from <= to <= s@.len(),
            strip_end(strip_start(s@, pad), pad) == strip_end(
                s@.subrange(from as int, to as int),
                pad,
            ),
        decreases to - from,
    {
        proof {
            assert(s@.subrange(from as int, to as int).drop_last() == s@.subrange(
                from as int,
                to as int - 1,
            ));
        }
        to = to - 1;
    }
    slice_of(s, from, to)
}

/// The index of the first `c` in `s`, or the length of `s` if there is none.
pub open spec fn first_index(s: Seq<char>, c: char) -> int
    decreases s.len(),
{
    if s.len() == 0 || s[0] == c {
        0
    } else {
        1 + first_index(s.skip(1), c)
    }
}

/// The index of the first `c` in `s`, or the length of `s` if there is none.
pub fn position(s: &Vec<char>, c: char) -> (r: usize)
    ensures
        r == first_index(s@, c),
        r <= s@.len(),
{
    let mut i: usize = 0;
    proof {
        assert(s@.skip(0) == s@);
    }
    while i < s.len() && s[i] != c
        invariant
            i <= s@.len(),
            first_index(s@, c) == i + first_index(s@.skip(i as int), c),
        decreases s@.len() - i,
    {
        proof {
            assert(s@.skip(i as int).skip(1) == s@.skip(i as int + 1));
        }
        i = i + 1;
    }
    i
}

/// Whether `prefix` begins `s`.
pub open spec fn begins(s: Seq<char>, prefix: Seq<char>) -> bool {
    prefix.len() <= s.len() && s.take(prefix.len() as int) == prefix
}

/// Whether `prefix` begins `s`.
pub fn starts_with(s: &str, prefix: &str) -> (r: bool)
    ensures
        r == begins(s@, prefix@),
{
    let v = chars_of(s);
    let p = chars_of(prefix);
    if p.len() > v.len() {
        return false;
    }
    let head = slice_of(&v, 0, p.len());
    proof {
        assert(head@ =~= s@.take(prefix@.len() as int));
    }
    same_chars(&head, &p)
}

// ── number literals ────────────────────────────────────────────────────────────

/// The value of `c` as a digit in a radix of at most sixteen.
pub open spec fn digit_value(c: char) -> int {
    if '0' <= c <= '9' {
        c as int - '0' as int
    } else if 'a' <= c <= 'f' {
        c as int - 'a' as int + 10
    } else if 'A' <= c <= 'F' {
        c as int - 'A' as int + 10
    } else {
        99
    }
}

/// The value of `c` as a digit in a radix of at most sixteen.
pub fn value_of_digit(c: char) -> (r: u32)
    ensures
        r == digit_value(c),
{
    let n: u32 = c as u32;
    if '0' <= c && c <= '9' {
        n - 0x30
    } else if 'a' <= c && c <= 'f' {
        n - 0x61 + 10
    } else if 'A' <= c && c <= 'F' {
        n - 0x41 + 10
    } else {
        99
    }
}

/// Whether `s` is a number in the given radix: one digit or more, and nothing else.
pub open spec fn is_number(s: Seq<char>, radix: int) -> bool {
    s.len() > 0 && forall|i: int| 0 <= i < s.len() ==> digit_value(#[trigger] s[i]) < radix
}

/// The value of a number in the given radix.
pub open spec fn number_value(s: Seq<char>, radix: int) -> int
    decreases s.len(),
{
    if s.len() == 0 {
        0
    } else {
        number_value(s.drop_last(), radix) * radix + digit_value(s.last())
    }
}

/// Every digit string has a value that is not negative and grows with each further digit.
proof fn lemma_number_value_grows(s: Seq<char>, n: int, radix: int)
    requires
        2 <= radix,
        0 <= n <= s.len(),
    ensures
        0 <= number_value(s.take(n), radix) <= number_value(s, radix),
    decreases s.len() - n, n,
{
    if n == 0 && s.len() > 0 {
        assert(s.take(0).len() == 0);
        lemma_number_value_grows(s, 1, radix);
        assert(number_value(s.take(1), radix) >= 0);
    }
    if n < s.len() {
        lemma_number_value_grows(s, n + 1, radix);
        assert(s.take(n + 1).drop_last() == s.take(n));
        let low = number_value(s.take(n), radix);
        lemma_number_value_nonnegative(s.take(n), radix);
        assert(low <= low * radix) by (nonlinear_arith)
            requires
                0 <= low,
                2 <= radix,
        ;
    } else {
        assert(s.take(n) == s);
        lemma_number_value_nonnegative(s, radix);
    }
}

proof fn lemma_number_value_nonnegative(s: Seq<char>, radix: int)
    requires
        2 <= radix,
    ensures
        0 <= number_value(s, radix),
    decreases s.len(),
{
    if s.len() > 0 {
        lemma_number_value_nonnegative(s.drop_last(), radix);
        let low = number_value(s.drop_last(), radix);
        assert(0 <= low * radix) by (nonlinear_arith)
            requires
                0 <= low,
                2 <= radix,
        ;
    }
}

/// The number that the characters from `from` to `to` write in the given radix, if they write one
/// and it is at most `max`.
pub fn read_number(s: &Vec<char>, from: usize, to: usize, radix: u32, max: u64) -> (r: Option<u64>)
    requires
        from <= to <= s@.len(),
        2 <= radix <= 16,
    ensures
        ({
            let t = s@.subrange(from as int, to as int);
            match r {
                Some(n) => is_number(t, radix as int) && n == number_value(t, radix as int) && n
                    <= max,
                None => !is_number(t, radix as int) || number_value(t, radix as int) > max,
            }
        }),
{
    let ghost t = s@.subrange(from as int, to as int);
    if from == to {
        return None;
    }
    let mut n: u64 = 0;
    let mut i: usize = from;
    while i < to
        invariant
            from <= i <= to <= s@.len(),
            from < to,
            2 <= radix <= 16,
            t == s@.subrange(from as int, to as int),
            n == number_value(t.take(i - from), radix as int),
            n <= max,
            forall|k: int| 0 <= k < i - from ==> digit_value(#[trigger] t[k]) < radix,
        decreases to - i,
    {
        let d: u32 = value_of_digit(s[i]);
        let ghost k = i - from;
        proof {
            assert(t[k] == s@[i as int]);
            assert(t.take(k + 1).drop_last() == t.take(k));
            lemma_number_value_grows(t, k + 1, radix as int);
        }
        if d >= radix {
            return None;
        }
        assert(n * radix <= 0xFFFF_FFFF_FFFF_FFFF * 16) by (nonlinear_arith)
            requires
                n <= 0xFFFF_FFFF_FFFF_FFFF,
                radix <= 16,
        ;
        let big: u128 = n as u128 * radix as u128 + d as u128;
        assert(big == number_value(t.take(k + 1), radix as int));
        if big > max as u128 {
            return None;
        }
        n = big as u64;
        i = i + 1;
    }
    proof {
        assert(t.take(to - from) == t);
    }
    Some(n)
}

/// The integer that `s` writes in the given radix, with a sign or without, if it lies between
/// `low` and `high`. Where `low` is not negative no minus sign is taken.
pub open spec fn integer(s: Seq<char>, radix: int, low: int, high: int) -> Option<int> {
    let negative = s.len() > 0 && s[0] == '-' && low < 0;
    let digits = if negative || (s.len() > 0 && s[0] == '+') {
        s.skip(1)
    } else {
        s
    };
    let n = if negative {
        -number_value(digits, radix)
    } else {
        number_value(digits, radix)
    };
    if is_number(digits, radix) && low <= n <= high {
        Some(n)
    } else {
        None
    }
}

/// Reads a decimal `i64`.
pub fn parse_i64(s: &Vec<char>) -> (r: Option<i64>)
    ensures
        match r {
            Some(n) => integer(s@, 10, i64::MIN as int, i64::MAX as int) == Some(n as int),
            None => integer(s@, 10, i64::MIN as int, i64::MAX as int) is None,
        },
{
    let len: usize = s.len();
    proof {
        assert(s@.subrange(0, len as int) == s@);
        if len > 0 {
            assert(s@.subrange(1, len as int) == s@.skip(1));
            lemma_number_value_nonnegative(s@.skip(1), 10);
        }
        lemma_number_value_nonnegative(s@, 10);
    }
    if len > 0 && s[0] == '-' {
        match read_number(s, 1, len, 10, 0x8000_0000_0000_0000) {
            Some(n) => if n == 0x8000_0000_0000_0000 {
                Some(i64::MIN)
            } else {
                Some(-(n as i64))
            },
            None => None,
        }
    } else {
        let from: usize = if len > 0 && s[0] == '+' {
            1
        } else {
            0
        };
        match read_number(s, from, len, 10, 0x7FFF_FFFF_FFFF_FFFF) {
            Some(n) => Some(n as i64),
            None => None,
        }
    }
}

/// Reads a number that is not negative and at most `max`, after an optional plus sign.
pub fn parse_unsigned(s: &Vec<char>, radix: u32, max: u64) -> (r: Option<u64>)
    requires
        2 <= radix <= 16,
    ensures
        match r {
            Some(n) => integer(s@, radix as int, 0, max as int) == Some(n as int) && n <= max,
            None => integer(s@, radix as int, 0, max as int) is None,
        },
{
    let len: usize = s.len();
    proof {
        assert(s@.subrange(0, len as int) == s@);
        if len > 0 {
            assert(s@.subrange(1, len as int) == s@.skip(1));
            lemma_number_value_nonnegative(s@.skip(1), radix as int);
        }
        lemma_number_value_nonnegative(s@, radix as int);
    }
    let from: usize = if len > 0 && s[0] == '+' {
        1
    } else {
        0
    };
    read_number(s, from, len, radix, max)
}

/// Reads a decimal `usize`.
pub fn parse_usize(s: &Vec<char>) -> (r: Option<usize>)
    ensures
        match r {
            Some(n) => integer(s@, 10, 0, usize::MAX as int) == Some(n as int),
            None => integer(s@, 10, 0, usize::MAX as int) is None,
        },
{
    match parse_unsigned(s, 10, usize::MAX as u64) {
        Some(n) => Some(n as usize),
        None => None,
    }
}

/// The digit with the value `d`, in capitals.
pub open spec fn digit_char(d: int) -> char {
    if d < 10 {
        ('0' as int + d) as char
    } else {
        ('A' as int + d - 10) as char
    }
}

/// `n` written in the given radix, without leading zeros.
pub open spec fn numeral(n: nat, radix: nat) -> Seq<char>
    decreases n,
{
    if n < radix || radix < 2 {
        seq![digit_char(n as int)]
    } else {
        proof {
            assert(n / radix < n) by (nonlinear_arith)
                requires
                    2 <= radix <= n,
            ;
        }
        numeral(n / radix, radix).push(digit_char((n % radix) as int))
    }
}

/// A number that was written is a number that reads back as it was.
pub proof fn numerals_read_back(n: nat, radix: nat)
    requires
        2 <= radix <= 16,
    ensures
        is_number(numeral(n, radix), radix as int),
        number_value(numeral(n, radix), radix as int) == n,
    decreases n,
{
    let all = numeral(n, radix);
    if n < radix {
        assert(all.drop_last() =~= Seq::<char>::empty());
        assert(0 * (radix as int) == 0) by (nonlinear_arith);
        assert(number_value(all.drop_last(), radix as int) == 0);
        assert(digit_value(all.last()) == n);
    } else {
        let high = n / radix;
        let low = n % radix;
        assert(high < n && low < radix && high * radix + low == n) by (nonlinear_arith)
            requires
                2 <= radix <= n,
                high == n / radix,
                low == n % radix,
        ;
        numerals_read_back(high, radix);
        assert(all.drop_last() =~= numeral(high, radix));
        assert(digit_value(all.last()) == low);
        assert forall|i: int| 0 <= i < all.len() implies digit_value(#[trigger] all[i]) < radix by {
            if i < numeral(high, radix).len() {
                assert(all[i] == numeral(high, radix)[i]);
            }
        }
    }
}

/// Appends `n`, written in the given radix, to `out`.
pub fn write_numeral(out: &mut String, n: u64, radix: u64)
    requires
        2 <= radix <= 16,
    ensures
        final(out)@ == old(out)@ + numeral(n as nat, radix as nat),
    decreases n,
{
    let ghost before = out@;
    if n >= radix {
        assert(n / radix < n) by (nonlinear_arith)
            requires
                2 <= radix <= n,
        ;
        write_numeral(out, n / radix, radix);
    }
    let d: u64 = n % radix;
    assert(d < radix) by (nonlinear_arith)
        requires
            d == n % radix,
            2 <= radix,
    ;
    assert(n < radix ==> d == n) by (nonlinear_arith)
        requires
            d == n % radix,
            2 <= radix,
    ;
    let c = if d < 10 {
        (0x30u8 + d as u8) as char
    } else {
        (0x41u8 + (d - 10) as u8) as char
    };
    out.push(c);
    proof {
        assert(out@ =~= before + numeral(n as nat, radix as nat));
    }
}

} // verus!
