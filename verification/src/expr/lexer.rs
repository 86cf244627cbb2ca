//! Tokens.

use vstd::prelude::*;

use super::{ErrorModel, ExprError};
use crate::text::{
    chars_of, digit, digit_value, is_digit, is_letter, is_number, is_space, letter, number_value,
    numeral, read_number, space, string_of, value_of_digit, write_numeral,
};

verus! {

/// A punctuation token.
#[derive(Clone, Copy, Debug, PartialEq, Eq, Structural)]
pub enum Sym {
    Pipe,
    Question,
    Colon,
    OrOr,
    AndAnd,
    Caret,
    Amp,
    EqEq,
    Ne,
    Le,
    Ge,
    Shl,
    Shr,
    Lt,
    Gt,
    Plus,
    Minus,
    Star,
    Slash,
    Percent,
    Bang,
    Tilde,
    LParen,
    RParen,
}

/// A token.
#[derive(Debug, PartialEq, Eq)]
pub enum Tok {
    Num(i64),
    Ident(String),
    Sym(Sym),
}

/// A [`Tok`] with its name as a sequence of characters.
pub enum TokModel {
    Num(i64),
    Ident(Seq<char>),
    Sym(Sym),
}

impl View for Tok {
    type V = TokModel;

    open spec fn view(&self) -> TokModel {
        match *self {
            Tok::Num(n) => TokModel::Num(n),
            Tok::Ident(s) => TokModel::Ident(s@),
            Tok::Sym(s) => TokModel::Sym(s),
        }
    }
}

/// The tokens of a vector.
pub open spec fn tokens(v: Seq<Tok>) -> Seq<TokModel> {
    v.map_values(|t: Tok| t@)
}

// ── how a token is shown in an error ───────────────────────────────────────────

/// The name of a punctuation token.
pub open spec fn symbol_name(s: Sym) -> Seq<char> {
    match s {
        Sym::Pipe => "Pipe"@,
        Sym::Question => "Question"@,
        Sym::Colon => "Colon"@,
        Sym::OrOr => "OrOr"@,
        Sym::AndAnd => "AndAnd"@,
        Sym::Caret => "Caret"@,
        Sym::Amp => "Amp"@,
        Sym::EqEq => "EqEq"@,
        Sym::Ne => "Ne"@,
        Sym::Le => "Le"@,
        Sym::Ge => "Ge"@,
        Sym::Shl => "Shl"@,
        Sym::Shr => "Shr"@,
        Sym::Lt => "Lt"@,
        Sym::Gt => "Gt"@,
        Sym::Plus => "Plus"@,
        Sym::Minus => "Minus"@,
        Sym::Star => "Star"@,
        Sym::Slash => "Slash"@,
        Sym::Percent => "Percent"@,
        Sym::Bang => "Bang"@,
        Sym::Tilde => "Tilde"@,
        Sym::LParen => "LParen"@,
        Sym::RParen => "RParen"@,
    }
}

/// How a token is shown: `Num(3)`, `Ident("A")`, or the name of a punctuation token.
pub open spec fn shown(t: TokModel) -> Seq<char> {
    match t {
        TokModel::Num(n) => if n < 0 {
            "Num(-"@ + numeral((-n) as nat, 10) + ")"@
        } else {
            "Num("@ + numeral(n as nat, 10) + ")"@
        },
        TokModel::Ident(s) => "Ident(\""@ + s + "\")"@,
        TokModel::Sym(s) => symbol_name(s),
    }
}

fn name_of_symbol(s: Sym) -> (r: &'static str)
    ensures
        r@ == symbol_name(s),
{
    match s {
        Sym::Pipe => "Pipe",
        Sym::Question => "Question",
        Sym::Colon => "Colon",
        Sym::OrOr => "OrOr",
        Sym::AndAnd => "AndAnd",
        Sym::Caret => "Caret",
        Sym::Amp => "Amp",
        Sym::EqEq => "EqEq",
        Sym::Ne => "Ne",
        Sym::Le => "Le",
        Sym::Ge => "Ge",
        Sym::Shl => "Shl",
        Sym::Shr => "Shr",
        Sym::Lt => "Lt",
        Sym::Gt => "Gt",
        Sym::Plus => "Plus",
        Sym::Minus => "Minus",
        Sym::Star => "Star",
        Sym::Slash => "Slash",
        Sym::Percent => "Percent",
        Sym::Bang => "Bang",
        Sym::Tilde => "Tilde",
        Sym::LParen => "LParen",
        Sym::RParen => "RParen",
    }
}

impl Tok {
    /// The token as errors show it.
    pub fn show(&self) -> (r: String)
        ensures
            r@ == shown(self@),
    {
        let mut r = String::new();
        match self {
            Tok::Num(n) => {
                if *n < 0 {
                    r.append("Num(-");
                    let magnitude: u64 = if *n == i64::MIN {
                        0x8000_0000_0000_0000
                    } else {
                        (-*n) as u64
                    };
                    write_numeral(&mut r, magnitude, 10);
                } else {
                    r.append("Num(");
                    write_numeral(&mut r, *n as u64, 10);
                }
                r.append(")");
            },
            Tok::Ident(s) => {
                r.append("Ident(\"");
                r.append(s.as_str());
                r.append("\")");
            },
            Tok::Sym(s) => {
                r.append(name_of_symbol(*s));
            },
        }
        proof {
            assert(r@ =~= shown(self@));
        }
        r
    }
}

impl Clone for Tok {
    fn clone(&self) -> (r: Tok)
        ensures
            r@ == self@,
    {
        match self {
            Tok::Num(n) => Tok::Num(*n),
            Tok::Ident(s) => Tok::Ident(s.clone()),
            Tok::Sym(s) => Tok::Sym(*s),
        }
    }
}

// ── what stands at an index ────────────────────────────────────────────────────

/// A class of characters that a token runs over.
#[derive(Clone, Copy, Debug, PartialEq, Eq, Structural)]
pub enum Run {
    /// Decimal digits.
    Digits,
    /// Hexadecimal digits.
    HexDigits,
    /// The characters of a name.
    Word,
}

/// Whether `c` belongs to the class.
pub open spec fn in_run(run: Run, c: char) -> bool {
    match run {
        Run::Digits => is_digit(c),
        Run::HexDigits => digit_value(c) < 16,
        Run::Word => is_letter(c) || is_digit(c) || c == '_',
    }
}

fn belongs(run: Run, c: char) -> (r: bool)
    ensures
        r == in_run(run, c),
{
    match run {
        Run::Digits => digit(c),
        Run::HexDigits => value_of_digit(c) < 16,
        Run::Word => letter(c) || digit(c) || c == '_',
    }
}

/// The first index from `i` on at which no character of the class stands.
pub open spec fn run_end(s: Seq<char>, i: int, run: Run) -> int
    decreases s.len() - i,
{
    if 0 <= i < s.len() && in_run(run, s[i]) {
        run_end(s, i + 1, run)
    } else {
        i
    }
}

fn end_of_run(s: &Vec<char>, from: usize, run: Run) -> (r: usize)
    requires
        from <= s@.len(),
    ensures
        r == run_end(s@, from as int, run),
        from <= r <= s@.len(),
{
    let mut i: usize = from;
    while i < s.len() && belongs(run, s[i])
        invariant
            from <= i <= s@.len(),
            run_end(s@, from as int, run) == run_end(s@, i as int, run),
        decreases s@.len() - i,
    {
        i = i + 1;
    }
    i
}

/// The token that two characters make up.
pub open spec fn pair_symbol(a: char, b: char) -> Option<Sym> {
    if a == '|' && b == '|' {
        Some(Sym::OrOr)
    } else if a == '&' && b == '&' {
        Some(Sym::AndAnd)
    } else if a == '=' && b == '=' {
        Some(Sym::EqEq)
    } else if a == '!' && b == '=' {
        Some(Sym::Ne)
    } else if a == '<' && b == '=' {
        Some(Sym::Le)
    } else if a == '>' && b == '=' {
        Some(Sym::Ge)
    } else if a == '<' && b == '<' {
        Some(Sym::Shl)
    } else if a == '>' && b == '>' {
        Some(Sym::Shr)
    } else {
        None
    }
}

fn symbol_of_pair(a: char, b: char) -> (r: Option<Sym>)
    ensures
        r == pair_symbol(a, b),
{
    if a == '|' && b == '|' {
        Some(Sym::OrOr)
    } else if a == '&' && b == '&' {
        Some(Sym::AndAnd)
    } else if a == '=' && b == '=' {
        Some(Sym::EqEq)
    } else if a == '!' && b == '=' {
        Some(Sym::Ne)
    } else if a == '<' && b == '=' {
        Some(Sym::Le)
    } else if a == '>' && b == '=' {
        Some(Sym::Ge)
    } else if a == '<' && b == '<' {
        Some(Sym::Shl)
    } else if a == '>' && b == '>' {
        Some(Sym::Shr)
    } else {
        None
    }
}

/// The token that one character makes up.
pub open spec fn single_symbol(c: char) -> Option<Sym> {
    match c {
        '|' => Some(Sym::Pipe),
        '?' => Some(Sym::Question),
        ':' => Some(Sym::Colon),
        '^' => Some(Sym::Caret),
        '&' => Some(Sym::Amp),
        '<' => Some(Sym::Lt),
        '>' => Some(Sym::Gt),
        '+' => Some(Sym::Plus),
        '-' => Some(Sym::Minus),
        '*' => Some(Sym::Star),
        '/' => Some(Sym::Slash),
        '%' => Some(Sym::Percent),
        '!' => Some(Sym::Bang),
        '~' => Some(Sym::Tilde),
        '(' => Some(Sym::LParen),
        ')' => Some(Sym::RParen),
        _ => None,
    }
}

fn symbol_of_char(c: char) -> (r: Option<Sym>)
    ensures
        r == single_symbol(c),
{
    match c {
        '|' => Some(Sym::Pipe),
        '?' => Some(Sym::Question),
        ':' => Some(Sym::Colon),
        '^' => Some(Sym::Caret),
        '&' => Some(Sym::Amp),
        '<' => Some(Sym::Lt),
        '>' => Some(Sym::Gt),
        '+' => Some(Sym::Plus),
        '-' => Some(Sym::Minus),
        '*' => Some(Sym::Star),
        '/' => Some(Sym::Slash),
        '%' => Some(Sym::Percent),
        '!' => Some(Sym::Bang),
        '~' => Some(Sym::Tilde),
        '(' => Some(Sym::LParen),
        ')' => Some(Sym::RParen),
        _ => None,
    }
}

/// What stands at an index: white space, a token that ends before the given index, or nothing
/// that an expression may hold.
pub enum At {
    Space,
    Token(TokModel, int),
    Bad(ErrorModel),
}

/// The number that the characters from `from` to `end` write, if it fits an `i64`.
pub open spec fn number_at(s: Seq<char>, from: int, end: int, radix: int) -> At {
    let text = s.subrange(from, end);
    if is_number(text, radix) && number_value(text, radix) <= i64::MAX {
        At::Token(TokModel::Num(number_value(text, radix) as i64), end)
    } else {
        At::Bad(ErrorModel::UnexpectedToken(text))
    }
}

/// What stands at index `i`. The longest token wins.
pub open spec fn scan(s: Seq<char>, i: int) -> At {
    let c = s[i];
    if is_space(c) {
        At::Space
    } else if is_digit(c) {
        if c == '0' && i + 1 < s.len() && (s[i + 1] == 'x' || s[i + 1] == 'X') {
            number_at(s, i + 2, run_end(s, i + 2, Run::HexDigits), 16)
        } else {
            number_at(s, i, run_end(s, i + 1, Run::Digits), 10)
        }
    } else if is_letter(c) || c == '_' {
        let end = run_end(s, i + 1, Run::Word);
        At::Token(TokModel::Ident(s.subrange(i, end)), end)
    } else if i + 1 < s.len() && pair_symbol(c, s[i + 1]) is Some {
        At::Token(TokModel::Sym(pair_symbol(c, s[i + 1])->0), i + 2)
    } else if single_symbol(c) is Some {
        At::Token(TokModel::Sym(single_symbol(c)->0), i + 1)
    } else {
        At::Bad(ErrorModel::UnexpectedChar(c, i))
    }
}

/// `first` followed by the tokens of `rest`, if they could be read.
pub open spec fn prepend(first: Seq<TokModel>, rest: Result<Seq<TokModel>, ErrorModel>) -> Result<
    Seq<TokModel>,
    ErrorModel,
> {
    match rest {
        Ok(t) => Ok(first + t),
        Err(e) => Err(e),
    }
}

/// The tokens from index `i` on.
pub open spec fn lex_from(s: Seq<char>, i: int) -> Result<Seq<TokModel>, ErrorModel>
    decreases s.len() - i,
{
    if i < 0 || i >= s.len() {
        Ok(Seq::empty())
    } else {
        match scan(s, i) {
            At::Space => lex_from(s, i + 1),
            At::Token(t, end) => {
                proof {
                    lemma_tokens_advance(s, i);
                }
                prepend(seq![t], lex_from(s, end))
            },
            At::Bad(e) => Err(e),
        }
    }
}

/// Where the class of characters ends lies behind where it was looked for.
pub proof fn lemma_run_end_advances(s: Seq<char>, i: int, run: Run)
    ensures
        i <= run_end(s, i, run),
        i <= s.len() ==> run_end(s, i, run) <= s.len(),
    decreases s.len() - i,
{
    if 0 <= i < s.len() && in_run(run, s[i]) {
        lemma_run_end_advances(s, i + 1, run);
    }
}

/// A token ends behind where it begins.
pub proof fn lemma_tokens_advance(s: Seq<char>, i: int)
    requires
        0 <= i < s.len(),
    ensures
        scan(s, i) matches At::Token(_, end) ==> i < end <= s.len(),
{
    lemma_run_end_advances(s, i + 1, Run::Word);
    lemma_run_end_advances(s, i + 1, Run::Digits);
    lemma_run_end_advances(s, i + 2, Run::HexDigits);
}

fn number_between(v: &Vec<char>, from: usize, end: usize, radix: u32) -> (r: Result<Tok, ExprError>)
    requires
        from <= end <= v@.len(),
        2 <= radix <= 16,
    ensures
        match r {
            Ok(t) => number_at(v@, from as int, end as int, radix as int) == At::Token(
                t@,
                end as int,
            ),
            Err(e) => number_at(v@, from as int, end as int, radix as int) == At::Bad(e@),
        },
{
    match read_number(v, from, end, radix, 0x7FFF_FFFF_FFFF_FFFF) {
        Some(n) => Ok(Tok::Num(n as i64)),
        None => Err(ExprError::UnexpectedToken(string_of(v, from, end))),
    }
}

/// The token at index `i` and the index behind it, or `None` for white space.
fn scan_at(v: &Vec<char>, i: usize) -> (r: Result<Option<(Tok, usize)>, ExprError>)
    requires
        i < v@.len(),
    ensures
        match r {
            Ok(Some((t, end))) => scan(v@, i as int) == At::Token(t@, end as int) && i < end
                <= v@.len(),
            Ok(None) => scan(v@, i as int) == At::Space,
            Err(e) => scan(v@, i as int) == At::Bad(e@),
        },
{
    let len: usize = v.len();
    let c = v[i];
    if space(c) {
        Ok(None)
    } else if digit(c) {
        if c == '0' && i + 1 < len && (v[i + 1] == 'x' || v[i + 1] == 'X') {
            let end: usize = end_of_run(v, i + 2, Run::HexDigits);
            match number_between(v, i + 2, end, 16) {
                Ok(t) => Ok(Some((t, end))),
                Err(e) => Err(e),
            }
        } else {
            let end: usize = end_of_run(v, i + 1, Run::Digits);
            match number_between(v, i, end, 10) {
                Ok(t) => Ok(Some((t, end))),
                Err(e) => Err(e),
            }
        }
    } else if letter(c) || c == '_' {
        let end: usize = end_of_run(v, i + 1, Run::Word);
        Ok(Some((Tok::Ident(string_of(v, i, end)), end)))
    } else {
        let pair = if i + 1 < len {
            symbol_of_pair(c, v[i + 1])
        } else {
            None
        };
        match pair {
            Some(t) => Ok(Some((Tok::Sym(t), i + 2))),
            None => match symbol_of_char(c) {
                Some(t) => Ok(Some((Tok::Sym(t), i + 1))),
                None => Err(ExprError::UnexpectedChar(c, i)),
            },
        }
    }
}

/// Whether `r` is what `m` says.
pub open spec fn is_lexed(
    m: Result<Seq<TokModel>, ErrorModel>,
    r: Result<Vec<Tok>, ExprError>,
) -> bool {
    match r {
        Ok(v) => m == Ok::<Seq<TokModel>, ErrorModel>(tokens(v@)),
        Err(e) => m == Err::<Seq<TokModel>, ErrorModel>(e@),
    }
}

/// Cuts an expression into tokens.
pub fn lex(src: &str) -> (r: Result<Vec<Tok>, ExprError>)
    ensures
        is_lexed(lex_from(src@, 0), r),
{
    let v = chars_of(src);
    let ghost s = src@;
    let mut out: Vec<Tok> = Vec::new();
    let mut i: usize = 0;
    proof {
        if let Ok(t) = lex_from(s, 0) {
            assert(tokens(out@) + t =~= t);
        }
    }
    while i < v.len()
        invariant
            i <= v@.len(),
            v@ == s,
            s == src@,
            lex_from(s, 0) == prepend(tokens(out@), lex_from(s, i as int)),
        decreases v@.len() - i,
    {
        match scan_at(&v, i) {
            Ok(Some((tok, end))) => {
                let ghost before = out@;
                let ghost t = tok@;
                out.push(tok);
                proof {
                    assert(tokens(out@) =~= tokens(before).push(t));
                    if let Ok(rest) = lex_from(s, end as int) {
                        assert(tokens(before) + (seq![t] + rest) =~= tokens(out@) + rest);
                    }
                }
                i = end;
            },
            Ok(None) => {
                i = i + 1;
            },
            Err(e) => {
                return Err(e);
            },
        }
    }
    proof {
        assert(tokens(out@) + Seq::<TokModel>::empty() =~= tokens(out@));
    }
    Ok(out)
}

} // verus!
