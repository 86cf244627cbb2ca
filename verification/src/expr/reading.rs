//! Reading gives back what was written.

use vstd::prelude::*;

use super::laws::spaces_part_tokens;
use super::lexer::{
    in_run, lemma_tokens_advance, lex_from, prepend, run_end, scan, shown, At, Run, Sym, TokModel,
};
use super::parser::{
    binds, infix, operand, operation, operation_from, parsed, prefix, primary, tagged, ternary,
    Parsed,
};
use super::{BinOp, ErrorModel, ExprModel, UnOp};
use crate::text::laws::numerals_have_no_leading_zero;
use crate::text::{digit_value, is_digit, is_letter, numeral, numerals_read_back};
use crate::unit::{unit_of_name, unit_of_number, Unit};

verus! {

// ── tokens ─────────────────────────────────────────────────────────────────────

/// How a punctuation token is written.
pub open spec fn mark(s: Sym) -> Seq<char> {
    match s {
        Sym::Pipe => seq!['|'],
        Sym::Question => seq!['?'],
        Sym::Colon => seq![':'],
        Sym::OrOr => seq!['|', '|'],
        Sym::AndAnd => seq!['&', '&'],
        Sym::Caret => seq!['^'],
        Sym::Amp => seq!['&'],
        Sym::EqEq => seq!['=', '='],
        Sym::Ne => seq!['!', '='],
        Sym::Le => seq!['<', '='],
        Sym::Ge => seq!['>', '='],
        Sym::Shl => seq!['<', '<'],
        Sym::Shr => seq!['>', '>'],
        Sym::Lt => seq!['<'],
        Sym::Gt => seq!['>'],
        Sym::Plus => seq!['+'],
        Sym::Minus => seq!['-'],
        Sym::Star => seq!['*'],
        Sym::Slash => seq!['/'],
        Sym::Percent => seq!['%'],
        Sym::Bang => seq!['!'],
        Sym::Tilde => seq!['~'],
        Sym::LParen => seq!['('],
        Sym::RParen => seq![')'],
    }
}

/// Whether a text is a name: letters, digits and underscores, without a digit in front.
pub open spec fn is_name(s: Seq<char>) -> bool {
    &&& s.len() > 0
    &&& !is_digit(s[0])
    &&& forall|i: int|
        0 <= i < s.len() ==> is_letter(#[trigger] s[i]) || is_digit(s[i]) || s[i] == '_'
}

/// Whether a token can be written: its name is one, and its number is not negative.
pub open spec fn is_writable(t: TokModel) -> bool {
    match t {
        TokModel::Num(n) => n >= 0,
        TokModel::Ident(s) => is_name(s),
        TokModel::Sym(_) => true,
    }
}

/// How a token is written, its number in decimal.
pub open spec fn written(t: TokModel) -> Seq<char> {
    match t {
        TokModel::Num(n) => numeral(n as nat, 10),
        TokModel::Ident(s) => s,
        TokModel::Sym(s) => mark(s),
    }
}

/// The tokens one after the other, with a blank between them.
pub open spec fn spaced(ts: Seq<TokModel>) -> Seq<char>
    decreases ts.len(),
{
    if ts.len() == 0 {
        Seq::empty()
    } else if ts.len() == 1 {
        written(ts[0])
    } else {
        spaced(ts.drop_last()) + seq![' '] + written(ts.last())
    }
}

proof fn lemma_run_to_the_end(s: Seq<char>, i: int, run: Run)
    requires
        0 <= i <= s.len(),
        forall|k: int| i <= k < s.len() ==> in_run(run, #[trigger] s[k]),
    ensures
        run_end(s, i, run) == s.len(),
    decreases s.len() - i,
{
    if i < s.len() {
        lemma_run_to_the_end(s, i + 1, run);
    }
}

proof fn lemma_one_token(s: Seq<char>, t: TokModel)
    requires
        s.len() > 0,
        scan(s, 0) == At::Token(t, s.len() as int),
    ensures
        lex_from(s, 0) == Ok::<Seq<TokModel>, ErrorModel>(seq![t]),
{
    lemma_tokens_advance(s, 0);
    assert(lex_from(s, s.len() as int) == Ok::<Seq<TokModel>, ErrorModel>(Seq::empty()));
    assert(seq![t] + Seq::<TokModel>::empty() =~= seq![t]);
    assert(lex_from(s, 0) == prepend(seq![t], lex_from(s, s.len() as int)));
}

/// A number is read as what was written: in decimal, and in hexadecimal behind `0x` or `0X`. One
/// that has more than 63 bits is reported by its digits.
pub proof fn numbers_are_read(n: nat)
    ensures
        n <= i64::MAX ==> {
            let r = Ok::<Seq<TokModel>, ErrorModel>(seq![TokModel::Num(n as i64)]);
            &&& lex_from(numeral(n, 10), 0) == r
            &&& lex_from(seq!['0', 'x'] + numeral(n, 16), 0) == r
            &&& lex_from(seq!['0', 'X'] + numeral(n, 16), 0) == r
        },
        n > i64::MAX ==> lex_from(numeral(n, 10), 0) == Err::<Seq<TokModel>, ErrorModel>(
            ErrorModel::UnexpectedToken(numeral(n, 10)),
        ),
{
    let d = numeral(n, 10);
    let h = numeral(n, 16);
    numerals_read_back(n, 10);
    numerals_read_back(n, 16);
    numerals_have_no_leading_zero(n, 10);
    assert(digit_value(d[0]) < 10);
    assert forall|k: int| 1 <= k < d.len() implies in_run(Run::Digits, #[trigger] d[k]) by {
        assert(digit_value(d[k]) < 10);
    }
    lemma_run_to_the_end(d, 1, Run::Digits);
    assert(d.subrange(0, d.len() as int) =~= d);
    if d.len() > 1 {
        assert(digit_value(d[1]) < 10);
    }
    let x = seq!['0', 'x'] + h;
    let y = seq!['0', 'X'] + h;
    assert forall|k: int| 2 <= k < x.len() implies in_run(Run::HexDigits, #[trigger] x[k]) by {
        assert(digit_value(h[k - 2]) < 16);
    }
    assert forall|k: int| 2 <= k < y.len() implies in_run(Run::HexDigits, #[trigger] y[k]) by {
        assert(digit_value(h[k - 2]) < 16);
    }
    lemma_run_to_the_end(x, 2, Run::HexDigits);
    lemma_run_to_the_end(y, 2, Run::HexDigits);
    assert(x.subrange(2, x.len() as int) =~= h);
    assert(y.subrange(2, y.len() as int) =~= h);
    assert(is_digit(x[0]) && x[0] == '0' && x[1] == 'x');
    assert(is_digit(y[0]) && y[0] == '0' && y[1] == 'X');
    if n <= i64::MAX {
        lemma_one_token(d, TokModel::Num(n as i64));
        lemma_one_token(x, TokModel::Num(n as i64));
        lemma_one_token(y, TokModel::Num(n as i64));
    }
}

/// A token is read as what was written.
pub proof fn tokens_are_read(t: TokModel)
    requires
        is_writable(t),
    ensures
        lex_from(written(t), 0) == Ok::<Seq<TokModel>, ErrorModel>(seq![t]),
{
    match t {
        TokModel::Num(n) => numbers_are_read(n as nat),
        TokModel::Ident(s) => {
            assert(is_letter(s[0]) || is_digit(s[0]) || s[0] == '_');
            lemma_run_to_the_end(s, 1, Run::Word);
            assert(s.subrange(0, s.len() as int) =~= s);
            lemma_one_token(s, t);
        },
        TokModel::Sym(m) => lemma_one_token(mark(m), t),
    }
}

/// Tokens with blanks between them are read as what was written.
pub proof fn spaced_tokens_are_read(ts: Seq<TokModel>)
    requires
        forall|i: int| 0 <= i < ts.len() ==> is_writable(#[trigger] ts[i]),
    ensures
        lex_from(spaced(ts), 0) == Ok::<Seq<TokModel>, ErrorModel>(ts),
    decreases ts.len(),
{
    if ts.len() == 0 {
        assert(ts =~= Seq::empty());
    } else if ts.len() == 1 {
        tokens_are_read(ts[0]);
        assert(ts =~= seq![ts[0]]);
    } else {
        let init = ts.drop_last();
        spaced_tokens_are_read(init);
        assert(is_writable(ts[ts.len() - 1]));
        tokens_are_read(ts.last());
        spaces_part_tokens(spaced(init), ' ', written(ts.last()));
        assert(init + seq![ts.last()] =~= ts);
    }
}

// ── expressions ────────────────────────────────────────────────────────────────

/// The punctuation of an infix operator.
pub open spec fn sign(op: BinOp) -> Sym {
    match op {
        BinOp::Or => Sym::OrOr,
        BinOp::And => Sym::AndAnd,
        BinOp::BitOr => Sym::Pipe,
        BinOp::BitXor => Sym::Caret,
        BinOp::BitAnd => Sym::Amp,
        BinOp::Eq => Sym::EqEq,
        BinOp::Ne => Sym::Ne,
        BinOp::Lt => Sym::Lt,
        BinOp::Gt => Sym::Gt,
        BinOp::Le => Sym::Le,
        BinOp::Ge => Sym::Ge,
        BinOp::Shl => Sym::Shl,
        BinOp::Shr => Sym::Shr,
        BinOp::Add => Sym::Plus,
        BinOp::Sub => Sym::Minus,
        BinOp::Mul => Sym::Star,
        BinOp::Div => Sym::Slash,
        BinOp::Rem => Sym::Percent,
    }
}

/// The punctuation of a prefix operator.
pub open spec fn prefix_sign(op: UnOp) -> Sym {
    match op {
        UnOp::Not => Sym::Bang,
        UnOp::Neg => Sym::Minus,
        UnOp::BitNot => Sym::Tilde,
    }
}

/// The number of a unit.
pub open spec fn unit_number(u: Unit) -> int {
    match u {
        Unit::Jamo(j) => j.cp as int,
        Unit::Toggle => 500,
        Unit::Virtual(id) => id * 0x10000,
    }
}

/// The tokens of an expression, with every operation in parentheses.
pub open spec fn spelled_out(e: ExprModel) -> Seq<TokModel>
    decreases e,
{
    match e {
        ExprModel::Int(n) => seq![TokModel::Num(n)],
        ExprModel::Var(s) => seq![TokModel::Ident(s)],
        ExprModel::Unit(u) => seq![
            TokModel::Ident(seq!['H', '3']),
            TokModel::Sym(Sym::Pipe),
            TokModel::Num(unit_number(u) as i64),
        ],
        ExprModel::Command(c) => seq![
            TokModel::Ident(seq!['C', '0']),
            TokModel::Sym(Sym::Pipe),
            TokModel::Num(c as i64),
        ],
        ExprModel::Unary(op, x) => seq![
            TokModel::Sym(Sym::LParen),
            TokModel::Sym(prefix_sign(op)),
        ] + spelled_out(*x) + seq![TokModel::Sym(Sym::RParen)],
        ExprModel::Binary(op, x, y) => seq![TokModel::Sym(Sym::LParen)] + spelled_out(*x) + seq![
            TokModel::Sym(sign(op)),
        ] + spelled_out(*y) + seq![TokModel::Sym(Sym::RParen)],
        ExprModel::Ternary(c, x, y) => seq![TokModel::Sym(Sym::LParen)] + spelled_out(*c) + seq![
            TokModel::Sym(Sym::Question),
        ] + spelled_out(*x) + seq![TokModel::Sym(Sym::Colon)] + spelled_out(*y) + seq![
            TokModel::Sym(Sym::RParen),
        ],
    }
}

/// Whether an expression can be written: its numbers are not negative, its names are names and not
/// one of the two tags, and its units have numbers.
pub open spec fn can_be_written(e: ExprModel) -> bool
    decreases e,
{
    match e {
        ExprModel::Int(n) => n >= 0,
        ExprModel::Var(s) => is_name(s) && s != seq!['H', '3'] && s != seq!['C', '0'],
        ExprModel::Unit(u) => unit_number(u) <= 0xFFFF_FFFF && unit_of_number(unit_number(u) as u32)
            == Some(u),
        ExprModel::Command(_) => true,
        ExprModel::Unary(_, x) => can_be_written(*x),
        ExprModel::Binary(_, x, y) => can_be_written(*x) && can_be_written(*y),
        ExprModel::Ternary(c, x, y) => can_be_written(*c) && can_be_written(*x) && can_be_written(
            *y,
        ),
    }
}

/// Whether the tokens of the expression stand at `p`.
pub open spec fn stands_at(t: Seq<TokModel>, p: int, e: ExprModel) -> bool {
    &&& 0 <= p
    &&& p + spelled_out(e).len() <= t.len()
    &&& t.subrange(p, p + spelled_out(e).len()) == spelled_out(e)
}

proof fn lemma_tags()
    ensures
        "H3"@ == seq!['H', '3'],
        "C0"@ == seq!['C', '0'],
        seq!['H', '3'] != seq!['C', '0'],
{
    reveal_strlit("H3");
    reveal_strlit("C0");
    assert("H3"@ =~= seq!['H', '3']);
    assert("C0"@ =~= seq!['C', '0']);
    assert(seq!['H', '3'][0] != seq!['C', '0'][0]);
}

proof fn lemma_part_stands(t: Seq<TokModel>, p: int, e: ExprModel, k: int, x: ExprModel)
    requires
        stands_at(t, p, e),
        0 <= k,
        k + spelled_out(x).len() <= spelled_out(e).len(),
        spelled_out(e).subrange(k, k + spelled_out(x).len()) == spelled_out(x),
    ensures
        stands_at(t, p + k, x),
{
    assert(t.subrange(p + k, p + k + spelled_out(x).len()) =~= t.subrange(
        p,
        p + spelled_out(e).len(),
    ).subrange(k, k + spelled_out(x).len()));
}

/// How tightly an operator binds, in ten steps: `||`, `&&`, `|`, `^`, `&`, equality, order, shifts,
/// sums, products.
pub open spec fn tightness(op: BinOp) -> int {
    match op {
        BinOp::Or => 1,
        BinOp::And => 2,
        BinOp::BitOr => 3,
        BinOp::BitXor => 4,
        BinOp::BitAnd => 5,
        BinOp::Eq | BinOp::Ne => 6,
        BinOp::Lt | BinOp::Gt | BinOp::Le | BinOp::Ge => 7,
        BinOp::Shl | BinOp::Shr => 8,
        BinOp::Add | BinOp::Sub => 9,
        BinOp::Mul | BinOp::Div | BinOp::Rem => 10,
    }
}

// ── one step at a time ─────────────────────────────────────────────────────────

#[verifier::opaque]
spec fn operand_is(t: Seq<TokModel>, p: int, r: Result<Parsed, ErrorModel>) -> bool {
    operand(t, p) == r
}

#[verifier::opaque]
spec fn operation_is(t: Seq<TokModel>, p: int, min: int, r: Result<Parsed, ErrorModel>) -> bool {
    operation(t, p, min) == r
}

#[verifier::opaque]
spec fn rest_is(
    t: Seq<TokModel>,
    p: int,
    left: Parsed,
    min: int,
    r: Result<Parsed, ErrorModel>,
) -> bool {
    operation_from(t, p, left, min) == r
}

#[verifier::opaque]
spec fn ternary_is(t: Seq<TokModel>, p: int, r: Result<Parsed, ErrorModel>) -> bool {
    ternary(t, p) == r
}

spec fn read(e: ExprModel, n: int) -> Parsed {
    Parsed { e, used: n as nat }
}

/// No operator that binds at least as tightly as `min` stands at `q`.
spec fn stops(t: Seq<TokModel>, q: int, min: int) -> bool {
    ||| q >= t.len()
    ||| t[q] is Num
    ||| t[q] is Ident
    ||| t[q] == TokModel::Sym(Sym::RParen)
    ||| t[q] == TokModel::Sym(Sym::Question)
    ||| t[q] == TokModel::Sym(Sym::Colon)
    ||| exists|op: BinOp| t[q] == TokModel::Sym(#[trigger] sign(op)) && tightness(op) < min
}

proof fn lemma_rest_ends(t: Seq<TokModel>, p: int, left: Parsed, min: int)
    requires
        0 <= p,
        stops(t, p + left.used, min),
    ensures
        rest_is(t, p, left, min, Ok(left)),
{
    reveal(rest_is);
    let q = p + left.used;
    if q < t.len() {
        if exists|op: BinOp| t[q] == TokModel::Sym(#[trigger] sign(op)) && tightness(op) < min {
            let op = choose|op: BinOp|
                t[q] == TokModel::Sym(#[trigger] sign(op)) && tightness(op) < min;
            assert(infix(t[q]) == Some((op, tightness(op))));
        }
        assert(!binds(t[q], min));
    }
}

proof fn lemma_rest_goes_on(
    t: Seq<TokModel>,
    p: int,
    left: Parsed,
    min: int,
    op: BinOp,
    right: Parsed,
    r: Result<Parsed, ErrorModel>,
)
    requires
        0 <= p,
        p + left.used < t.len(),
        t[p + left.used] == TokModel::Sym(sign(op)),
        min <= tightness(op),
        operation_is(t, p + left.used + 1, tightness(op) + 1, Ok(right)),
        rest_is(
            t,
            p,
            Parsed {
                e: ExprModel::Binary(op, Box::new(left.e), Box::new(right.e)),
                used: left.used + 1 + right.used,
            },
            min,
            r,
        ),
    ensures
        rest_is(t, p, left, min, r),
{
    reveal(rest_is);
    reveal(operation_is);
    assert(infix(t[p + left.used]) == Some((op, tightness(op))));
}

proof fn lemma_rest_fails(
    t: Seq<TokModel>,
    p: int,
    left: Parsed,
    min: int,
    op: BinOp,
    x: ErrorModel,
)
    requires
        0 <= p,
        p + left.used < t.len(),
        t[p + left.used] == TokModel::Sym(sign(op)),
        min <= tightness(op),
        operation_is(t, p + left.used + 1, tightness(op) + 1, Err(x)),
    ensures
        rest_is(t, p, left, min, Err(x)),
{
    reveal(rest_is);
    reveal(operation_is);
    assert(infix(t[p + left.used]) == Some((op, tightness(op))));
}

proof fn lemma_operation_begins(
    t: Seq<TokModel>,
    p: int,
    min: int,
    first: Parsed,
    r: Result<Parsed, ErrorModel>,
)
    requires
        operand_is(t, p, Ok(first)),
        rest_is(t, p, first, min, r),
    ensures
        operation_is(t, p, min, r),
{
    reveal(operand_is);
    reveal(rest_is);
    reveal(operation_is);
}

proof fn lemma_operation_fails(t: Seq<TokModel>, p: int, min: int, x: ErrorModel)
    requires
        operand_is(t, p, Err(x)),
    ensures
        operation_is(t, p, min, Err(x)),
{
    reveal(operand_is);
    reveal(operation_is);
}

proof fn lemma_no_condition(t: Seq<TokModel>, p: int, c: Parsed)
    requires
        operation_is(t, p, 0, Ok(c)),
        p + c.used >= t.len() || t[p + c.used] != TokModel::Sym(Sym::Question),
    ensures
        ternary_is(t, p, Ok(c)),
{
    reveal(operation_is);
    reveal(ternary_is);
}

proof fn lemma_condition(t: Seq<TokModel>, p: int, c: Parsed, a: Parsed, b: Parsed)
    requires
        operation_is(t, p, 0, Ok(c)),
        p + c.used < t.len(),
        t[p + c.used] == TokModel::Sym(Sym::Question),
        ternary_is(t, p + c.used + 1, Ok(a)),
        p + c.used + 1 + a.used < t.len(),
        t[p + c.used + 1 + a.used] == TokModel::Sym(Sym::Colon),
        ternary_is(t, p + c.used + 1 + a.used + 1, Ok(b)),
    ensures
        ternary_is(
            t,
            p,
            Ok(
                Parsed {
                    e: ExprModel::Ternary(Box::new(c.e), Box::new(a.e), Box::new(b.e)),
                    used: c.used + 1 + a.used + 1 + b.used,
                },
            ),
        ),
{
    reveal(operation_is);
    reveal(ternary_is);
}

proof fn lemma_parentheses(t: Seq<TokModel>, p: int, x: Parsed)
    requires
        0 <= p,
        p + 1 + x.used < t.len(),
        t[p] == TokModel::Sym(Sym::LParen),
        ternary_is(t, p + 1, Ok(x)),
        t[p + 1 + x.used] == TokModel::Sym(Sym::RParen),
    ensures
        operand_is(t, p, Ok(Parsed { e: x.e, used: x.used + 2 })),
{
    reveal(operand_is);
    reveal(ternary_is);
    assert(operand(t, p) == primary(t, p));
}

proof fn lemma_prefix(t: Seq<TokModel>, p: int, op: UnOp, x: Parsed)
    requires
        0 <= p < t.len(),
        t[p] == TokModel::Sym(prefix_sign(op)),
        operand_is(t, p + 1, Ok(x)),
    ensures
        operand_is(
            t,
            p,
            Ok(Parsed { e: ExprModel::Unary(op, Box::new(x.e)), used: 1 + x.used }),
        ),
{
    reveal(operand_is);
    assert(prefix(t[p]) == Some(op));
}

proof fn lemma_nothing(t: Seq<TokModel>)
    ensures
        operand_is(t, t.len() as int, Err(ErrorModel::UnexpectedEnd)),
{
    reveal(operand_is);
    assert(operand(t, t.len() as int) == primary(t, t.len() as int));
}

proof fn lemma_atom(t: Seq<TokModel>, p: int, e: ExprModel)
    requires
        can_be_written(e),
        !(e is Unary) && !(e is Binary) && !(e is Ternary),
        stands_at(t, p, e),
    ensures
        operand_is(t, p, Ok(Parsed { e, used: spelled_out(e).len() })),
{
    reveal(operand_is);
    let s = spelled_out(e);
    lemma_tags();
    assert forall|i: int| 0 <= i < s.len() implies t[p + i] == #[trigger] s[i] by {
        assert(t.subrange(p, p + s.len())[i] == s[i]);
    }
    assert(t[p + 0] == s[0]);
    match e {
        ExprModel::Unit(u) => {
            assert(t[p + 1] == s[1] && t[p + 2] == s[2]);
            let n = unit_number(u);
            assert((n as i64) as u32 == n as u32);
            assert(tagged(t, p + 2, false) == Ok::<ExprModel, ErrorModel>(e));
        },
        ExprModel::Command(c) => {
            assert(t[p + 1] == s[1] && t[p + 2] == s[2]);
            assert((c as i64) as u32 == c);
            assert(tagged(t, p + 2, true) == Ok::<ExprModel, ErrorModel>(e));
        },
        _ => {},
    }
    assert(operand(t, p) == primary(t, p));
}

/// The expression at `p`, and nothing that binds it more tightly behind it.
proof fn lemma_alone(t: Seq<TokModel>, p: int, x: Parsed, min: int)
    requires
        0 <= p,
        operand_is(t, p, Ok(x)),
        stops(t, p + x.used, min),
    ensures
        operation_is(t, p, min, Ok(x)),
{
    lemma_rest_ends(t, p, x, min);
    lemma_operation_begins(t, p, min, x, Ok(x));
}

/// Two operands around an operator, where nothing follows that binds more tightly than it.
proof fn lemma_two(
    t: Seq<TokModel>,
    p: int,
    x: Parsed,
    op: BinOp,
    y: Parsed,
    min: int,
    r: Result<Parsed, ErrorModel>,
)
    requires
        0 <= p,
        operand_is(t, p, Ok(x)),
        p + x.used < t.len(),
        t[p + x.used] == TokModel::Sym(sign(op)),
        operand_is(t, p + x.used + 1, Ok(y)),
        stops(t, p + x.used + 1 + y.used, tightness(op) + 1),
        min <= tightness(op),
        rest_is(t, p, joined(x, op, y), min, r),
    ensures
        operation_is(t, p, min, r),
{
    lemma_alone(t, p + x.used + 1, y, tightness(op) + 1);
    lemma_rest_goes_on(t, p, x, min, op, y, r);
    lemma_operation_begins(t, p, min, x, r);
}

spec fn joined(x: Parsed, op: BinOp, y: Parsed) -> Parsed {
    Parsed {
        e: ExprModel::Binary(op, Box::new(x.e), Box::new(y.e)),
        used: x.used + 1 + y.used,
    }
}

proof fn lemma_looser_than(t: Seq<TokModel>, q: int, op: BinOp, min: int)
    requires
        q < t.len() ==> t[q] == TokModel::Sym(sign(op)),
        tightness(op) < min,
    ensures
        stops(t, q, min),
{
}

/// What is spelled out is read as one operand.
proof fn lemma_reads(t: Seq<TokModel>, p: int, e: ExprModel)
    requires
        can_be_written(e),
        stands_at(t, p, e),
    ensures
        operand_is(t, p, Ok(read(e, spelled_out(e).len() as int))),
    decreases e,
{
    let s = spelled_out(e);
    assert forall|i: int| 0 <= i < s.len() implies t[p + i] == #[trigger] s[i] by {
        assert(t.subrange(p, p + s.len())[i] == s[i]);
    }
    match e {
        ExprModel::Unary(op, x) => {
            let n = spelled_out(*x).len() as int;
            assert(s.subrange(2, 2 + n) =~= spelled_out(*x));
            lemma_part_stands(t, p, e, 2, *x);
            lemma_reads(t, p + 2, *x);
            assert(t[p + 0] == s[0] && t[p + 1] == s[1] && t[p + (2 + n)] == s[2 + n]);
            lemma_prefix(t, p + 1, op, read(*x, n));
            lemma_alone(t, p + 1, read(e, 1 + n), 0);
            lemma_no_condition(t, p + 1, read(e, 1 + n));
            lemma_parentheses(t, p, read(e, 1 + n));
        },
        ExprModel::Binary(op, x, y) => {
            let n = spelled_out(*x).len() as int;
            let m = spelled_out(*y).len() as int;
            assert(s.subrange(1, 1 + n) =~= spelled_out(*x));
            assert(s.subrange(2 + n, 2 + n + m) =~= spelled_out(*y));
            lemma_part_stands(t, p, e, 1, *x);
            lemma_part_stands(t, p, e, 2 + n, *y);
            lemma_reads(t, p + 1, *x);
            lemma_reads(t, p + (2 + n), *y);
            assert(t[p + 0] == s[0] && t[p + (1 + n)] == s[1 + n] && t[p + (2 + n + m)] == s[2 + n
                + m]);
            let all = read(e, n + 1 + m);
            lemma_rest_ends(t, p + 1, all, 0);
            lemma_two(t, p + 1, read(*x, n), op, read(*y, m), 0, Ok(all));
            lemma_no_condition(t, p + 1, all);
            lemma_parentheses(t, p, all);
        },
        ExprModel::Ternary(c, x, y) => {
            let n = spelled_out(*c).len() as int;
            let m = spelled_out(*x).len() as int;
            let k = spelled_out(*y).len() as int;
            assert(s.subrange(1, 1 + n) =~= spelled_out(*c));
            assert(s.subrange(2 + n, 2 + n + m) =~= spelled_out(*x));
            assert(s.subrange(3 + n + m, 3 + n + m + k) =~= spelled_out(*y));
            lemma_part_stands(t, p, e, 1, *c);
            lemma_part_stands(t, p, e, 2 + n, *x);
            lemma_part_stands(t, p, e, 3 + n + m, *y);
            lemma_reads(t, p + 1, *c);
            lemma_reads(t, p + (2 + n), *x);
            lemma_reads(t, p + (3 + n + m), *y);
            assert(t[p + 0] == s[0] && t[p + (1 + n)] == s[1 + n] && t[p + (2 + n + m)] == s[2 + n
                + m] && t[p + (3 + n + m + k)] == s[3 + n + m + k]);
            lemma_alone(t, p + 1, read(*c, n), 0);
            lemma_alone(t, p + (2 + n), read(*x, m), 0);
            lemma_alone(t, p + (3 + n + m), read(*y, k), 0);
            lemma_no_condition(t, p + (2 + n), read(*x, m));
            lemma_no_condition(t, p + (3 + n + m), read(*y, k));
            lemma_condition(t, p + 1, read(*c, n), read(*x, m), read(*y, k));
            lemma_parentheses(t, p, read(e, n + 1 + m + 1 + k));
        },
        _ => lemma_atom(t, p, e),
    }
}

proof fn lemma_parsed(t: Seq<TokModel>, r: Result<Parsed, ErrorModel>)
    requires
        forall|i: int| 0 <= i < t.len() ==> is_writable(#[trigger] t[i]),
        ternary_is(t, 0, r),
        r matches Ok(x) ==> x.used == t.len(),
    ensures
        parsed(spaced(t)) == match r {
            Ok(x) => Ok::<ExprModel, ErrorModel>(x.e),
            Err(x) => Err(x),
        },
{
    reveal(ternary_is);
    spaced_tokens_are_read(t);
}

proof fn lemma_ternary_fails(t: Seq<TokModel>, p: int, x: ErrorModel)
    requires
        operation_is(t, p, 0, Err(x)),
    ensures
        ternary_is(t, p, Err(x)),
{
    reveal(operation_is);
    reveal(ternary_is);
}

proof fn lemma_spelled_writable(e: ExprModel)
    requires
        can_be_written(e),
    ensures
        forall|i: int| 0 <= i < spelled_out(e).len() ==> is_writable(#[trigger] spelled_out(e)[i]),
    decreases e,
{
    let s = spelled_out(e);
    match e {
        ExprModel::Unary(_, x) => {
            lemma_spelled_writable(*x);
            let n = spelled_out(*x).len();
            assert forall|i: int| 0 <= i < s.len() implies is_writable(#[trigger] s[i]) by {
                if 2 <= i < 2 + n {
                    assert(s[i] == spelled_out(*x)[i - 2]);
                }
            }
        },
        ExprModel::Binary(_, x, y) => {
            lemma_spelled_writable(*x);
            lemma_spelled_writable(*y);
            let n = spelled_out(*x).len();
            let m = spelled_out(*y).len();
            assert forall|i: int| 0 <= i < s.len() implies is_writable(#[trigger] s[i]) by {
                if 1 <= i < 1 + n {
                    assert(s[i] == spelled_out(*x)[i - 1]);
                } else if 2 + n <= i < 2 + n + m {
                    assert(s[i] == spelled_out(*y)[i - 2 - n]);
                }
            }
        },
        ExprModel::Ternary(c, x, y) => {
            lemma_spelled_writable(*c);
            lemma_spelled_writable(*x);
            lemma_spelled_writable(*y);
            let n = spelled_out(*c).len();
            let m = spelled_out(*x).len();
            let k = spelled_out(*y).len();
            assert forall|i: int| 0 <= i < s.len() implies is_writable(#[trigger] s[i]) by {
                if 1 <= i < 1 + n {
                    assert(s[i] == spelled_out(*c)[i - 1]);
                } else if 2 + n <= i < 2 + n + m {
                    assert(s[i] == spelled_out(*x)[i - 2 - n]);
                } else if 3 + n + m <= i < 3 + n + m + k {
                    assert(s[i] == spelled_out(*y)[i - 3 - n - m]);
                }
            }
        },
        _ => {},
    }
}

/// Every expression that can be written is read as what was written, where every operation stands
/// in parentheses.
pub proof fn expressions_are_read(e: ExprModel)
    requires
        can_be_written(e),
    ensures
        parsed(spaced(spelled_out(e))) == Ok::<ExprModel, ErrorModel>(e),
{
    let t = spelled_out(e);
    lemma_spelled_writable(e);
    assert(t.subrange(0, t.len() as int) =~= t);
    lemma_reads(t, 0, e);
    lemma_alone(t, 0, read(e, t.len() as int), 0);
    lemma_no_condition(t, 0, read(e, t.len() as int));
    lemma_parsed(t, Ok(read(e, t.len() as int)));
}

// ── precedence ─────────────────────────────────────────────────────────────────

/// The tokens of three operands with two operators between them.
pub open spec fn three_operands(
    x: ExprModel,
    a: BinOp,
    y: ExprModel,
    b: BinOp,
    z: ExprModel,
) -> Seq<TokModel> {
    spelled_out(x) + seq![TokModel::Sym(sign(a))] + spelled_out(y) + seq![TokModel::Sym(sign(b))]
        + spelled_out(z)
}

/// Of two operators the one that binds more tightly takes the operand between them; of two that
/// bind alike, the left one.
pub proof fn tighter_operators_come_first(
    x: ExprModel,
    a: BinOp,
    y: ExprModel,
    b: BinOp,
    z: ExprModel,
)
    requires
        can_be_written(x),
        can_be_written(y),
        can_be_written(z),
    ensures
        parsed(spaced(three_operands(x, a, y, b, z))) == Ok::<ExprModel, ErrorModel>(
            if tightness(a) >= tightness(b) {
                ExprModel::Binary(
                    b,
                    Box::new(ExprModel::Binary(a, Box::new(x), Box::new(y))),
                    Box::new(z),
                )
            } else {
                ExprModel::Binary(
                    a,
                    Box::new(x),
                    Box::new(ExprModel::Binary(b, Box::new(y), Box::new(z))),
                )
            },
        ),
{
    let t = three_operands(x, a, y, b, z);
    let n = spelled_out(x).len() as int;
    let m = spelled_out(y).len() as int;
    let k = spelled_out(z).len() as int;
    lemma_spelled_writable(x);
    lemma_spelled_writable(y);
    lemma_spelled_writable(z);
    assert forall|i: int| 0 <= i < t.len() implies is_writable(#[trigger] t[i]) by {
        if i < n {
            assert(t[i] == spelled_out(x)[i]);
        } else if n < i < n + 1 + m {
            assert(t[i] == spelled_out(y)[i - n - 1]);
        } else if n + 1 + m < i {
            assert(t[i] == spelled_out(z)[i - n - 2 - m]);
        }
    }
    assert(t.subrange(0, n) =~= spelled_out(x));
    assert(t.subrange(n + 1, n + 1 + m) =~= spelled_out(y));
    assert(t.subrange(n + 2 + m, n + 2 + m + k) =~= spelled_out(z));
    assert(stands_at(t, 0, x) && stands_at(t, n + 1, y) && stands_at(t, n + 2 + m, z));
    lemma_reads(t, 0, x);
    lemma_reads(t, n + 1, y);
    lemma_reads(t, n + 2 + m, z);
    assert(t[n] == TokModel::Sym(sign(a)));
    assert(t[n + 1 + m] == TokModel::Sym(sign(b)));
    assert(t.len() == n + 2 + m + k);
    let px = read(x, n);
    let py = read(y, m);
    let pz = read(z, k);
    if tightness(a) >= tightness(b) {
        let left = joined(px, a, py);
        let all = joined(left, b, pz);
        lemma_rest_ends(t, 0, all, 0);
        lemma_alone(t, n + 2 + m, pz, tightness(b) + 1);
        lemma_rest_goes_on(t, 0, left, 0, b, pz, Ok(all));
        lemma_looser_than(t, n + 1 + m, b, tightness(a) + 1);
        lemma_two(t, 0, px, a, py, 0, Ok(all));
        lemma_no_condition(t, 0, all);
        lemma_parsed(t, Ok(all));
    } else {
        let right = joined(py, b, pz);
        let all = joined(px, a, right);
        lemma_rest_ends(t, n + 1, right, tightness(a) + 1);
        lemma_two(t, n + 1, py, b, pz, tightness(a) + 1, Ok(right));
        lemma_rest_ends(t, 0, all, 0);
        lemma_rest_goes_on(t, 0, px, 0, a, right, Ok(all));
        lemma_operation_begins(t, 0, 0, px, Ok(all));
        lemma_no_condition(t, 0, all);
        lemma_parsed(t, Ok(all));
    }
}

/// A prefix operator binds more tightly than any infix operator.
pub proof fn prefixes_come_first(op: UnOp, x: ExprModel, a: BinOp, y: ExprModel)
    requires
        can_be_written(x),
        can_be_written(y),
    ensures
        parsed(
            spaced(
                seq![TokModel::Sym(prefix_sign(op))] + spelled_out(x) + seq![TokModel::Sym(sign(a))]
                    + spelled_out(y),
            ),
        ) == Ok::<ExprModel, ErrorModel>(
            ExprModel::Binary(a, Box::new(ExprModel::Unary(op, Box::new(x))), Box::new(y)),
        ),
{
    let t = seq![TokModel::Sym(prefix_sign(op))] + spelled_out(x) + seq![TokModel::Sym(sign(a))]
        + spelled_out(y);
    let n = spelled_out(x).len() as int;
    let m = spelled_out(y).len() as int;
    lemma_spelled_writable(x);
    lemma_spelled_writable(y);
    assert forall|i: int| 0 <= i < t.len() implies is_writable(#[trigger] t[i]) by {
        if 1 <= i < 1 + n {
            assert(t[i] == spelled_out(x)[i - 1]);
        } else if 1 + n < i {
            assert(t[i] == spelled_out(y)[i - n - 2]);
        }
    }
    assert(t.subrange(1, 1 + n) =~= spelled_out(x));
    assert(t.subrange(n + 2, n + 2 + m) =~= spelled_out(y));
    assert(stands_at(t, 1, x) && stands_at(t, n + 2, y));
    lemma_reads(t, 1, x);
    lemma_reads(t, n + 2, y);
    assert(t[0] == TokModel::Sym(prefix_sign(op)));
    assert(t[n + 1] == TokModel::Sym(sign(a)));
    let first = read(ExprModel::Unary(op, Box::new(x)), 1 + n);
    let second = read(y, m);
    let all = joined(first, a, second);
    lemma_prefix(t, 0, op, read(x, n));
    lemma_rest_ends(t, 0, all, 0);
    lemma_two(t, 0, first, a, second, 0, Ok(all));
    lemma_no_condition(t, 0, all);
    lemma_parsed(t, Ok(all));
}

/// A condition takes all before it up to the beginning, and its second branch all behind it up to
/// the end, whatever the operators.
pub proof fn conditions_come_last(
    x: ExprModel,
    a: BinOp,
    y: ExprModel,
    u: ExprModel,
    v: ExprModel,
    b: BinOp,
    w: ExprModel,
)
    requires
        can_be_written(x) && can_be_written(y) && can_be_written(u) && can_be_written(v)
            && can_be_written(w),
    ensures
        parsed(
            spaced(
                spelled_out(x) + seq![TokModel::Sym(sign(a))] + spelled_out(y) + seq![
                    TokModel::Sym(Sym::Question),
                ] + spelled_out(u) + seq![TokModel::Sym(Sym::Colon)] + spelled_out(v) + seq![
                    TokModel::Sym(sign(b)),
                ] + spelled_out(w),
            ),
        ) == Ok::<ExprModel, ErrorModel>(
            ExprModel::Ternary(
                Box::new(ExprModel::Binary(a, Box::new(x), Box::new(y))),
                Box::new(u),
                Box::new(ExprModel::Binary(b, Box::new(v), Box::new(w))),
            ),
        ),
{
    let t = spelled_out(x) + seq![TokModel::Sym(sign(a))] + spelled_out(y) + seq![
        TokModel::Sym(Sym::Question),
    ] + spelled_out(u) + seq![TokModel::Sym(Sym::Colon)] + spelled_out(v) + seq![
        TokModel::Sym(sign(b)),
    ] + spelled_out(w);
    let nx = spelled_out(x).len() as int;
    let ny = spelled_out(y).len() as int;
    let nu = spelled_out(u).len() as int;
    let nv = spelled_out(v).len() as int;
    let nw = spelled_out(w).len() as int;
    let py = nx + 1;
    let pu = py + ny + 1;
    let pv = pu + nu + 1;
    let pw = pv + nv + 1;
    lemma_spelled_writable(x);
    lemma_spelled_writable(y);
    lemma_spelled_writable(u);
    lemma_spelled_writable(v);
    lemma_spelled_writable(w);
    assert forall|i: int| 0 <= i < t.len() implies is_writable(#[trigger] t[i]) by {
        if i < nx {
            assert(t[i] == spelled_out(x)[i]);
        } else if py <= i < py + ny {
            assert(t[i] == spelled_out(y)[i - py]);
        } else if pu <= i < pu + nu {
            assert(t[i] == spelled_out(u)[i - pu]);
        } else if pv <= i < pv + nv {
            assert(t[i] == spelled_out(v)[i - pv]);
        } else if pw <= i {
            assert(t[i] == spelled_out(w)[i - pw]);
        }
    }
    assert(t.subrange(0, nx) =~= spelled_out(x));
    assert(t.subrange(py, py + ny) =~= spelled_out(y));
    assert(t.subrange(pu, pu + nu) =~= spelled_out(u));
    assert(t.subrange(pv, pv + nv) =~= spelled_out(v));
    assert(t.subrange(pw, pw + nw) =~= spelled_out(w));
    assert(stands_at(t, 0, x) && stands_at(t, py, y) && stands_at(t, pu, u) && stands_at(t, pv, v)
        && stands_at(t, pw, w));
    lemma_reads(t, 0, x);
    lemma_reads(t, py, y);
    lemma_reads(t, pu, u);
    lemma_reads(t, pv, v);
    lemma_reads(t, pw, w);
    assert(t[nx] == TokModel::Sym(sign(a)));
    assert(t[py + ny] == TokModel::Sym(Sym::Question));
    assert(t[pu + nu] == TokModel::Sym(Sym::Colon));
    assert(t[pv + nv] == TokModel::Sym(sign(b)));
    let c = joined(read(x, nx), a, read(y, ny));
    let d = joined(read(v, nv), b, read(w, nw));
    lemma_rest_ends(t, 0, c, 0);
    lemma_two(t, 0, read(x, nx), a, read(y, ny), 0, Ok(c));
    lemma_alone(t, pu, read(u, nu), 0);
    lemma_no_condition(t, pu, read(u, nu));
    lemma_rest_ends(t, pv, d, 0);
    lemma_two(t, pv, read(v, nv), b, read(w, nw), 0, Ok(d));
    lemma_no_condition(t, pv, d);
    lemma_condition(t, 0, c, read(u, nu), d);
    lemma_parsed(
        t,
        Ok(
            Parsed {
                e: ExprModel::Ternary(Box::new(c.e), Box::new(u), Box::new(d.e)),
                used: t.len(),
            },
        ),
    );
}

// ── tags ───────────────────────────────────────────────────────────────────────

/// The tokens of a tag with a name behind it.
pub open spec fn tagged_name(tag: Seq<char>, name: Seq<char>) -> Seq<TokModel> {
    seq![TokModel::Ident(tag), TokModel::Sym(Sym::Pipe), TokModel::Ident(name)]
}

/// Behind `H3|` a name stands for the letter of that name, and where there is none, the name is
/// reported. Behind `C0|` a name is reported.
pub proof fn tagged_names_are_looked_up(name: Seq<char>)
    requires
        is_name(name),
    ensures
        parsed(spaced(tagged_name(seq!['H', '3'], name))) == match unit_of_name(name, None) {
            Some(u) => Ok::<ExprModel, ErrorModel>(ExprModel::Unit(u)),
            None => Err(ErrorModel::BadUnit(name)),
        },
        parsed(spaced(tagged_name(seq!['C', '0'], name))) == Err::<ExprModel, ErrorModel>(
            ErrorModel::BadCommand(name),
        ),
{
    lemma_tags();
    let t = tagged_name(seq!['H', '3'], name);
    let s = tagged_name(seq!['C', '0'], name);
    assert(is_name(seq!['H', '3']) && is_name(seq!['C', '0']));
    lemma_tagged_name(t, true, name);
    lemma_tagged_name(s, false, name);
    lemma_operation_fails(s, 0, 0, ErrorModel::BadCommand(name));
    lemma_ternary_fails(s, 0, ErrorModel::BadCommand(name));
    lemma_parsed(s, Err(ErrorModel::BadCommand(name)));
    match unit_of_name(name, None) {
        Some(u) => {
            let x = read(ExprModel::Unit(u), 3);
            lemma_alone(t, 0, x, 0);
            lemma_no_condition(t, 0, x);
            lemma_parsed(t, Ok(x));
        },
        None => {
            lemma_operation_fails(t, 0, 0, ErrorModel::BadUnit(name));
            lemma_ternary_fails(t, 0, ErrorModel::BadUnit(name));
            lemma_parsed(t, Err(ErrorModel::BadUnit(name)));
        },
    }
}

proof fn lemma_tagged_name(t: Seq<TokModel>, hangul: bool, name: Seq<char>)
    requires
        hangul ==> t == tagged_name(seq!['H', '3'], name),
        !hangul ==> t == tagged_name(seq!['C', '0'], name),
    ensures
        operand_is(
            t,
            0,
            if !hangul {
                Err(ErrorModel::BadCommand(name))
            } else {
                match unit_of_name(name, None) {
                    Some(u) => Ok(read(ExprModel::Unit(u), 3)),
                    None => Err(ErrorModel::BadUnit(name)),
                }
            },
        ),
{
    reveal(operand_is);
    lemma_tags();
    assert(operand(t, 0) == primary(t, 0));
}

// ── what is left open ──────────────────────────────────────────────────────────

/// An expression that ends behind an infix operator, or that is not there at all, is reported as
/// unfinished.
pub proof fn unfinished_expressions_are_reported(x: ExprModel, a: BinOp)
    requires
        can_be_written(x),
    ensures
        parsed(spaced(spelled_out(x) + seq![TokModel::Sym(sign(a))])) == Err::<
            ExprModel,
            ErrorModel,
        >(ErrorModel::UnexpectedEnd),
        parsed(spaced(Seq::empty())) == Err::<ExprModel, ErrorModel>(ErrorModel::UnexpectedEnd),
{
    let t = spelled_out(x) + seq![TokModel::Sym(sign(a))];
    let n = spelled_out(x).len() as int;
    let end = ErrorModel::UnexpectedEnd;
    lemma_spelled_writable(x);
    assert forall|i: int| 0 <= i < t.len() implies is_writable(#[trigger] t[i]) by {
        if i < n {
            assert(t[i] == spelled_out(x)[i]);
        }
    }
    assert(t.subrange(0, n) =~= spelled_out(x));
    assert(stands_at(t, 0, x));
    lemma_reads(t, 0, x);
    assert(t[n] == TokModel::Sym(sign(a)));
    lemma_nothing(t);
    lemma_operation_fails(t, n + 1, tightness(a) + 1, end);
    lemma_rest_fails(t, 0, read(x, n), 0, a, end);
    lemma_operation_begins(t, 0, 0, read(x, n), Err(end));
    lemma_ternary_fails(t, 0, end);
    lemma_parsed(t, Err(end));
    let e = Seq::<TokModel>::empty();
    lemma_nothing(e);
    lemma_operation_fails(e, 0, 0, end);
    lemma_ternary_fails(e, 0, end);
    lemma_parsed(e, Err(end));
}

/// What follows a whole expression without an operator is reported: a number by its digits, and a
/// name by its letters.
pub proof fn further_tokens_are_reported(x: ExprModel, n: i64, name: Seq<char>)
    requires
        can_be_written(x),
        n >= 0,
        is_name(name),
    ensures
        parsed(spaced(spelled_out(x) + seq![TokModel::Ident(name)])) == Err::<
            ExprModel,
            ErrorModel,
        >(
            ErrorModel::UnexpectedToken(
                seq!['I', 'd', 'e', 'n', 't', '(', '"'] + name + seq!['"', ')'],
            ),
        ),
        parsed(spaced(spelled_out(x) + seq![TokModel::Num(n)])) == Err::<ExprModel, ErrorModel>(
            ErrorModel::UnexpectedToken(
                seq!['N', 'u', 'm', '('] + numeral(n as nat, 10) + seq![')'],
            ),
        ),
{
    lemma_further(x, TokModel::Num(n));
    lemma_further(x, TokModel::Ident(name));
    reveal_strlit("Num(");
    reveal_strlit(")");
    reveal_strlit("Ident(\"");
    reveal_strlit("\")");
    assert("Num("@ =~= seq!['N', 'u', 'm', '(']);
    assert(")"@ =~= seq![')']);
    assert("Ident(\""@ =~= seq!['I', 'd', 'e', 'n', 't', '(', '"']);
    assert("\")"@ =~= seq!['"', ')']);
}

proof fn lemma_further(x: ExprModel, last: TokModel)
    requires
        can_be_written(x),
        is_writable(last),
        last is Num || last is Ident,
    ensures
        parsed(spaced(spelled_out(x) + seq![last])) == Err::<ExprModel, ErrorModel>(
            ErrorModel::UnexpectedToken(shown(last)),
        ),
{
    let t = spelled_out(x) + seq![last];
    let k = spelled_out(x).len() as int;
    lemma_spelled_writable(x);
    assert forall|i: int| 0 <= i < t.len() implies is_writable(#[trigger] t[i]) by {
        if i < k {
            assert(t[i] == spelled_out(x)[i]);
        }
    }
    assert(t.subrange(0, k) =~= spelled_out(x));
    assert(stands_at(t, 0, x));
    lemma_reads(t, 0, x);
    assert(t[k] == last);
    lemma_alone(t, 0, read(x, k), 0);
    lemma_no_condition(t, 0, read(x, k));
    spaced_tokens_are_read(t);
    reveal(ternary_is);
}

/// A parenthesis that is not closed, and a condition without its second branch, are reported as
/// unfinished.
pub proof fn open_ends_are_reported(c: ExprModel, x: ExprModel)
    requires
        can_be_written(c),
        can_be_written(x),
    ensures
        parsed(spaced(seq![TokModel::Sym(Sym::LParen)] + spelled_out(x))) == Err::<
            ExprModel,
            ErrorModel,
        >(ErrorModel::UnexpectedEnd),
        parsed(
            spaced(spelled_out(c) + seq![TokModel::Sym(Sym::Question)] + spelled_out(x)),
        ) == Err::<ExprModel, ErrorModel>(ErrorModel::UnexpectedEnd),
{
    let end = ErrorModel::UnexpectedEnd;
    let t = seq![TokModel::Sym(Sym::LParen)] + spelled_out(x);
    let s = spelled_out(c) + seq![TokModel::Sym(Sym::Question)] + spelled_out(x);
    let n = spelled_out(c).len() as int;
    let m = spelled_out(x).len() as int;
    lemma_spelled_writable(c);
    lemma_spelled_writable(x);
    assert forall|i: int| 0 <= i < t.len() implies is_writable(#[trigger] t[i]) by {
        if 1 <= i {
            assert(t[i] == spelled_out(x)[i - 1]);
        }
    }
    assert forall|i: int| 0 <= i < s.len() implies is_writable(#[trigger] s[i]) by {
        if i < n {
            assert(s[i] == spelled_out(c)[i]);
        } else if i > n {
            assert(s[i] == spelled_out(x)[i - n - 1]);
        }
    }
    assert(t.subrange(1, 1 + m) =~= spelled_out(x));
    assert(s.subrange(0, n) =~= spelled_out(c));
    assert(s.subrange(n + 1, n + 1 + m) =~= spelled_out(x));
    assert(stands_at(t, 1, x) && stands_at(s, 0, c) && stands_at(s, n + 1, x));
    lemma_reads(t, 1, x);
    lemma_alone(t, 1, read(x, m), 0);
    lemma_no_condition(t, 1, read(x, m));
    lemma_unclosed(t, read(x, m));
    lemma_operation_fails(t, 0, 0, end);
    lemma_ternary_fails(t, 0, end);
    lemma_parsed(t, Err(end));
    lemma_reads(s, 0, c);
    lemma_reads(s, n + 1, x);
    assert(s[n] == TokModel::Sym(Sym::Question));
    lemma_alone(s, 0, read(c, n), 0);
    lemma_alone(s, n + 1, read(x, m), 0);
    lemma_no_condition(s, n + 1, read(x, m));
    lemma_half_condition(s, read(c, n), read(x, m));
    lemma_parsed(s, Err(end));
}

proof fn lemma_unclosed(t: Seq<TokModel>, x: Parsed)
    requires
        t.len() == 1 + x.used,
        t[0] == TokModel::Sym(Sym::LParen),
        ternary_is(t, 1, Ok(x)),
    ensures
        operand_is(t, 0, Err(ErrorModel::UnexpectedEnd)),
{
    reveal(operand_is);
    reveal(ternary_is);
    assert(operand(t, 0) == primary(t, 0));
}

proof fn lemma_half_condition(t: Seq<TokModel>, c: Parsed, a: Parsed)
    requires
        operation_is(t, 0, 0, Ok(c)),
        t.len() == c.used + 1 + a.used,
        t[c.used as int] == TokModel::Sym(Sym::Question),
        ternary_is(t, c.used as int + 1, Ok(a)),
    ensures
        ternary_is(t, 0, Err(ErrorModel::UnexpectedEnd)),
{
    reveal(operation_is);
    reveal(ternary_is);
}

} // verus!
