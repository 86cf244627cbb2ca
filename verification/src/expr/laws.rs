//! What holds of expressions as a whole.

use vstd::prelude::*;

use super::lexer::{
    in_run, lemma_run_end_advances, lemma_tokens_advance, lex_from, prepend, run_end, scan, At, Run,
    Sym, TokModel,
};
use super::parser::{
    binds, infix, operand, operation, operation_from, parsed, prefix, primary, remaining, stands,
    tagged, ternary, Parsed,
};
use super::{evaluate, variable, BinOp, Ctx, ErrorModel, Evaluated, Expr, ExprModel, Value};
use crate::text::{is_digit, is_letter, is_space};

verus! {

// ── the grammar, as a relation ─────────────────────────────────────────────────

/// The tokens from `i` to `j` write `e` as a condition with two branches or as an operation.
pub open spec fn writes_ternary(e: ExprModel, t: Seq<TokModel>, i: int, j: int) -> bool
    decreases j - i, 4int,
{
    ||| writes_operation(e, t, i, j, 0)
    ||| (e matches ExprModel::Ternary(c, a, b) && exists|k: int, l: int|
        i <= k < l < j && #[trigger] stands(t, k, Sym::Question) && #[trigger] stands(
            t,
            l,
            Sym::Colon,
        ) && writes_operation(*c, t, i, k, 0) && writes_ternary(*a, t, k + 1, l)
            && writes_ternary(*b, t, l + 1, j))
}

/// The tokens from `i` to `j` write `e` as an operand, or as two operands around an operator
/// that binds at least as tightly as `min`. The left operand may hold operators of that
/// tightness, the right one only tighter ones.
pub open spec fn writes_operation(
    e: ExprModel,
    t: Seq<TokModel>,
    i: int,
    j: int,
    min: int,
) -> bool
    decreases j - i, 3int,
{
    ||| writes_operand(e, t, i, j)
    ||| (e matches ExprModel::Binary(op, l, r) && exists|k: int|
        i <= k < j && #[trigger] binds(t[k], min) && (infix(t[k]) matches Some((o, n)) && o == op
            && writes_operation(*l, t, i, k, n) && writes_operation(*r, t, k + 1, j, n + 1)))
}

/// The tokens from `i` to `j` write `e` as a primary expression behind prefix operators.
pub open spec fn writes_operand(e: ExprModel, t: Seq<TokModel>, i: int, j: int) -> bool
    decreases j - i, 2int,
{
    ||| writes_primary(e, t, i, j)
    ||| (e matches ExprModel::Unary(op, x) && i < j && prefix(t[i]) == Some(op) && writes_operand(
        *x,
        t,
        i + 1,
        j,
    ))
}

/// The tokens from `i` to `j` write `e` as a number, a name, a tagged operand or in parentheses.
pub open spec fn writes_primary(e: ExprModel, t: Seq<TokModel>, i: int, j: int) -> bool
    decreases j - i, 1int,
{
    ||| (j == i + 1 && (t[i] matches TokModel::Num(n) && e == ExprModel::Int(n)))
    ||| (j == i + 1 && (t[i] matches TokModel::Ident(s) && e == ExprModel::Var(s)))
    ||| (j == i + 3 && stands(t, i + 1, Sym::Pipe) && (t[i] matches TokModel::Ident(s) && (s
        == "H3"@ || s == "C0"@) && tagged(t, i + 2, s == "C0"@) == Ok::<ExprModel, ErrorModel>(e)))
    ||| (i + 1 < j && stands(t, i, Sym::LParen) && stands(t, j - 1, Sym::RParen)
        && writes_ternary(e, t, i + 1, j - 1))
}

proof fn lemma_looser(e: ExprModel, t: Seq<TokModel>, i: int, j: int, tight: int, loose: int)
    requires
        writes_operation(e, t, i, j, tight),
        loose <= tight,
    ensures
        writes_operation(e, t, i, j, loose),
{
    if !writes_operand(e, t, i, j) {
        if let ExprModel::Binary(op, l, r) = e {
            let k = choose|k: int|
                i <= k < j && #[trigger] binds(t[k], tight) && (infix(t[k]) matches Some((o, n))
                    && o == op && writes_operation(*l, t, i, k, n) && writes_operation(
                    *r,
                    t,
                    k + 1,
                    j,
                    n + 1,
                ));
            assert(binds(t[k], loose));
        }
    }
}

proof fn lemma_ternary_writes(t: Seq<TokModel>, p: int)
    requires
        0 <= p,
    ensures
        ternary(t, p) matches Ok(x) ==> writes_ternary(x.e, t, p, p + x.used),
    decreases remaining(t, p), 4int,
{
    lemma_operation_writes(t, p, 0);
    if let Ok(c) = operation(t, p, 0) {
        let q = p + c.used;
        if stands(t, q, Sym::Question) {
            lemma_ternary_writes(t, q + 1);
            if let Ok(a) = ternary(t, q + 1) {
                let r = q + 1 + a.used;
                if stands(t, r, Sym::Colon) {
                    lemma_ternary_writes(t, r + 1);
                    if let Ok(b) = ternary(t, r + 1) {
                        let e = ExprModel::Ternary(Box::new(c.e), Box::new(a.e), Box::new(b.e));
                        assert(stands(t, q, Sym::Question) && stands(t, r, Sym::Colon)
                            && writes_operation(c.e, t, p, q, 0) && writes_ternary(a.e, t, q + 1, r)
                            && writes_ternary(b.e, t, r + 1, r + 1 + b.used));
                        assert(writes_ternary(e, t, p, r + 1 + b.used));
                    }
                }
            }
        }
    }
}

proof fn lemma_operation_writes(t: Seq<TokModel>, p: int, min: int)
    requires
        0 <= p,
    ensures
        operation(t, p, min) matches Ok(x) ==> writes_operation(x.e, t, p, p + x.used, min) && !(p
            + x.used < t.len() && binds(t[p + x.used], min)),
    decreases remaining(t, p), 3int,
{
    lemma_operand_writes(t, p);
    if let Ok(left) = operand(t, p) {
        lemma_operation_from_writes(t, p, left, min, 11);
    }
}

/// `left` holds no operator that binds less tightly than `inner`, and the token behind it binds
/// at most that tightly.
proof fn lemma_operation_from_writes(
    t: Seq<TokModel>,
    p: int,
    left: Parsed,
    min: int,
    inner: int,
)
    requires
        0 <= p,
        min <= inner || inner == 11,
        writes_operation(left.e, t, p, p + left.used, inner),
        p + left.used < t.len() ==> !binds(t[p + left.used], inner + 1),
        inner == 11 ==> writes_operand(left.e, t, p, p + left.used),
    ensures
        operation_from(t, p, left, min) matches Ok(x) ==> writes_operation(
            x.e,
            t,
            p,
            p + x.used,
            min,
        ) && !(p + x.used < t.len() && binds(t[p + x.used], min)),
    decreases remaining(t, p + left.used), 2int,
{
    let q = p + left.used;
    if q < t.len() && binds(t[q], min) {
        let (op, n) = infix(t[q])->0;
        lemma_operation_writes(t, q + 1, n + 1);
        if let Ok(right) = operation(t, q + 1, n + 1) {
            let e = ExprModel::Binary(op, Box::new(left.e), Box::new(right.e));
            let used = left.used + 1 + right.used;
            if inner < 11 {
                assert(n <= inner);
                lemma_looser(left.e, t, p, q, inner, n);
            }
            assert(writes_operation(left.e, t, p, q, n));
            assert(binds(t[q], n));
            assert(writes_operation(e, t, p, p + used, n));
            lemma_operation_from_writes(t, p, Parsed { e, used }, min, n);
        }
    } else if inner < 11 {
        lemma_looser(left.e, t, p, q, inner, min);
    }
}

proof fn lemma_operand_writes(t: Seq<TokModel>, p: int)
    requires
        0 <= p,
    ensures
        operand(t, p) matches Ok(x) ==> writes_operand(x.e, t, p, p + x.used),
    decreases remaining(t, p), 1int,
{
    if p < t.len() && prefix(t[p]) is Some {
        lemma_operand_writes(t, p + 1);
    } else {
        lemma_primary_writes(t, p);
    }
}

proof fn lemma_primary_writes(t: Seq<TokModel>, p: int)
    requires
        0 <= p,
    ensures
        primary(t, p) matches Ok(x) ==> writes_primary(x.e, t, p, p + x.used),
    decreases remaining(t, p), 0int,
{
    if stands(t, p, Sym::LParen) {
        lemma_ternary_writes(t, p + 1);
    }
}

/// A text that is read as an expression writes that expression in the grammar: every operator
/// holds the operands that its tightness gives it, and operators of one tightness group to the
/// left.
pub proof fn parsing_follows_the_grammar(src: Seq<char>)
    ensures
        parsed(src) matches Ok(e) ==> lex_from(src, 0) matches Ok(t) && writes_ternary(
            e,
            t,
            0,
            t.len() as int,
        ),
{
    if let Ok(t) = lex_from(src, 0) {
        lemma_ternary_writes(t, 0);
    }
}

// ── tokens ─────────────────────────────────────────────────────────────────────

proof fn lemma_run_behind(p: Seq<char>, s: Seq<char>, i: int, run: Run)
    requires
        0 <= i,
    ensures
        run_end(p + s, p.len() + i, run) == p.len() + run_end(s, i, run),
    decreases s.len() - i,
{
    if i < s.len() && in_run(run, s[i]) {
        lemma_run_behind(p, s, i + 1, run);
    }
}

/// The tokens of a text are those of the same text behind another one.
proof fn lemma_tokens_behind(p: Seq<char>, s: Seq<char>, i: int)
    requires
        0 <= i,
        lex_from(s, i) is Ok,
    ensures
        lex_from(p + s, p.len() + i) == lex_from(s, i),
    decreases s.len() - i,
{
    if i < s.len() {
        let all = p + s;
        let k = p.len() + i;
        lemma_run_behind(p, s, i + 1, Run::Digits);
        lemma_run_behind(p, s, i + 2, Run::HexDigits);
        lemma_run_behind(p, s, i + 1, Run::Word);
        lemma_tokens_advance(s, i);
        lemma_run_end_advances(s, i + 1, Run::Digits);
        lemma_run_end_advances(s, i + 2, Run::HexDigits);
        lemma_run_end_advances(s, i + 1, Run::Word);
        assert(all[k] == s[i]);
        assert(i + 1 < s.len() ==> all[k + 1] == s[i + 1]);
        match scan(s, i) {
            At::Space => lemma_tokens_behind(p, s, i + 1),
            At::Token(t, end) => {
                let d = run_end(s, i + 1, Run::Digits);
                let h = run_end(s, i + 2, Run::HexDigits);
                let w = run_end(s, i + 1, Run::Word);
                assert(all.subrange(k, p.len() + d) =~= s.subrange(i, d));
                assert(all.subrange(k, p.len() + w) =~= s.subrange(i, w));
                if i + 1 < s.len() {
                    assert(all.subrange(k + 2, p.len() + h) =~= s.subrange(i + 2, h));
                }
                assert(scan(all, k) == At::Token(t, p.len() + end));
                lemma_tokens_behind(p, s, end);
            },
            At::Bad(_) => {},
        }
    }
}

/// Whether the character belongs to no token of two characters or more.
pub open spec fn stands_apart(c: char) -> bool {
    &&& !is_letter(c) && !is_digit(c) && c != '_'
    &&& c != '|' && c != '&' && c != '=' && c != '<' && c != '>'
}

proof fn lemma_run_before(s: Seq<char>, rest: Seq<char>, i: int, run: Run)
    requires
        0 <= i <= s.len(),
        rest.len() > 0,
        stands_apart(rest[0]),
    ensures
        run_end(s + rest, i, run) == run_end(s, i, run),
    decreases s.len() - i,
{
    if i < s.len() && in_run(run, s[i]) {
        lemma_run_before(s, rest, i + 1, run);
    }
}

/// The tokens of a text stand before those of a text that begins with a character apart.
proof fn lemma_tokens_before(s: Seq<char>, rest: Seq<char>, i: int)
    requires
        0 <= i <= s.len(),
        rest.len() > 0,
        stands_apart(rest[0]),
        lex_from(s, i) is Ok,
    ensures
        lex_from(s + rest, i) == prepend(lex_from(s, i)->Ok_0, lex_from(s + rest, s.len() as int)),
    decreases s.len() - i,
{
    let all = s + rest;
    let behind = lex_from(all, s.len() as int);
    if i == s.len() {
        if let Ok(t) = behind {
            assert(Seq::<TokModel>::empty() + t =~= t);
        }
    } else {
        assert(all[i] == s[i]);
        assert(all[i + 1] == if i + 1 < s.len() {
            s[i + 1]
        } else {
            rest[0]
        });
        lemma_tokens_advance(s, i);
        lemma_run_before(s, rest, i + 1, Run::Digits);
        lemma_run_before(s, rest, i + 1, Run::Word);
        lemma_run_end_advances(s, i + 1, Run::Digits);
        lemma_run_end_advances(s, i + 1, Run::Word);
        match scan(s, i) {
            At::Space => lemma_tokens_before(s, rest, i + 1),
            At::Token(t, end) => {
                let d = run_end(s, i + 1, Run::Digits);
                let w = run_end(s, i + 1, Run::Word);
                assert(all.subrange(i, d) =~= s.subrange(i, d));
                assert(all.subrange(i, w) =~= s.subrange(i, w));
                if i + 1 < s.len() {
                    let h = run_end(s, i + 2, Run::HexDigits);
                    lemma_run_before(s, rest, i + 2, Run::HexDigits);
                    lemma_run_end_advances(s, i + 2, Run::HexDigits);
                    assert(all.subrange(i + 2, h) =~= s.subrange(i + 2, h));
                }
                assert(scan(all, i) == At::Token(t, end));
                lemma_tokens_before(s, rest, end);
                if let Ok(u) = behind {
                    let v = lex_from(s, end)->Ok_0;
                    assert(seq![t] + (v + u) =~= (seq![t] + v) + u);
                }
            },
            At::Bad(_) => {},
        }
    }
}

/// White space parts tokens: two texts with white space between them have the tokens of the one
/// and then those of the other.
pub proof fn spaces_part_tokens(a: Seq<char>, space: char, b: Seq<char>)
    requires
        is_space(space),
        lex_from(a, 0) is Ok,
        lex_from(b, 0) is Ok,
    ensures
        lex_from(a + seq![space] + b, 0) == Ok::<Seq<TokModel>, ErrorModel>(
            lex_from(a, 0)->Ok_0 + lex_from(b, 0)->Ok_0,
        ),
{
    let rest = seq![space] + b;
    let all = a + seq![space] + b;
    assert(all =~= a + rest);
    lemma_tokens_before(a, rest, 0);
    assert(all =~= (a + seq![space]) + b);
    lemma_tokens_behind(a + seq![space], b, 0);
    assert(all[a.len() as int] == space);
    assert(scan(all, a.len() as int) is Space);
}

/// The punctuation that stands for itself wherever it stands.
pub open spec fn is_mark(c: char, m: Sym) -> bool {
    match m {
        Sym::Question => c == '?',
        Sym::Colon => c == ':',
        Sym::Caret => c == '^',
        Sym::Plus => c == '+',
        Sym::Minus => c == '-',
        Sym::Star => c == '*',
        Sym::Slash => c == '/',
        Sym::Percent => c == '%',
        Sym::Tilde => c == '~',
        Sym::LParen => c == '(',
        Sym::RParen => c == ')',
        _ => false,
    }
}

/// Such punctuation needs no white space: two texts with it between them have the tokens of the
/// one, then it, and then the tokens of the other.
pub proof fn marks_part_tokens(a: Seq<char>, c: char, m: Sym, b: Seq<char>)
    requires
        is_mark(c, m),
        lex_from(a, 0) is Ok,
        lex_from(b, 0) is Ok,
    ensures
        lex_from(a + seq![c] + b, 0) == Ok::<Seq<TokModel>, ErrorModel>(
            lex_from(a, 0)->Ok_0 + seq![TokModel::Sym(m)] + lex_from(b, 0)->Ok_0,
        ),
{
    let rest = seq![c] + b;
    let all = a + seq![c] + b;
    let n = a.len() as int;
    assert(all =~= a + rest);
    assert(rest[0] == c);
    lemma_tokens_before(a, rest, 0);
    assert(all =~= (a + seq![c]) + b);
    lemma_tokens_behind(a + seq![c], b, 0);
    assert(all[n] == c);
    assert(scan(all, n) == At::Token(TokModel::Sym(m), n + 1));
    assert(lex_from(all, n) == prepend(seq![TokModel::Sym(m)], lex_from(all, n + 1)));
    let x = lex_from(a, 0)->Ok_0;
    let y = lex_from(b, 0)->Ok_0;
    assert(x + (seq![TokModel::Sym(m)] + y) =~= x + seq![TokModel::Sym(m)] + y);
}

/// A character that no token holds is reported with its place, where what stands before it can be
/// read.
pub proof fn unknown_characters_are_reported(a: Seq<char>, c: char, rest: Seq<char>)
    requires
        lex_from(a, 0) is Ok,
        stands_apart(c),
        !is_space(c),
        c != '?' && c != ':' && c != '^' && c != '+' && c != '-' && c != '*' && c != '/',
        c != '%' && c != '!' && c != '~' && c != '(' && c != ')',
    ensures
        lex_from(a + seq![c] + rest, 0) == Err::<Seq<TokModel>, ErrorModel>(
            ErrorModel::UnexpectedChar(c, a.len() as int),
        ),
{
    let behind = seq![c] + rest;
    let all = a + seq![c] + rest;
    assert(all =~= a + behind);
    assert(behind[0] == c);
    lemma_tokens_before(a, behind, 0);
    assert(all[a.len() as int] == c);
}

// ── evaluation ─────────────────────────────────────────────────────────────────

/// An expression gives a Hangul unit only if one occurs in it.
pub proof fn units_come_from_units(e: ExprModel, ctx: Ctx)
    ensures
        evaluate(e, ctx) matches Evaluated::Gives(Value::Unit(_)) ==> Expr::has_unit(e),
    decreases e,
{
    if let ExprModel::Ternary(c, t, f) = e {
        units_come_from_units(*t, ctx);
        units_come_from_units(*f, ctx);
    }
}

/// Whether the variable with the given name occurs in an expression.
pub open spec fn names(e: ExprModel, name: Seq<char>) -> bool
    decreases e,
{
    match e {
        ExprModel::Var(s) => s == name,
        ExprModel::Unary(_, x) => names(*x, name),
        ExprModel::Binary(_, x, y) => names(*x, name) || names(*y, name),
        ExprModel::Ternary(c, x, y) => names(*c, name) || names(*x, name) || names(*y, name),
        _ => false,
    }
}

/// Evaluation depends only on the variables that occur in the expression.
pub proof fn only_named_variables_count(e: ExprModel, a: Ctx, b: Ctx)
    requires
        forall|name: Seq<char>| #[trigger] names(e, name) ==> variable(a, name) == variable(b, name),
    ensures
        evaluate(e, a) == evaluate(e, b),
    decreases e,
{
    match e {
        ExprModel::Var(s) => assert(names(e, s)),
        ExprModel::Unary(_, x) => {
            assert forall|name: Seq<char>| #[trigger] names(*x, name) implies variable(a, name)
                == variable(b, name) by {
                assert(names(e, name));
            }
            only_named_variables_count(*x, a, b);
        },
        ExprModel::Binary(_, x, y) => {
            assert forall|name: Seq<char>| names(*x, name) || names(*y, name) implies #[trigger]
            variable(a, name) == variable(b, name) by {
                assert(names(e, name));
            }
            only_named_variables_count(*x, a, b);
            only_named_variables_count(*y, a, b);
        },
        ExprModel::Ternary(c, x, y) => {
            assert forall|name: Seq<char>|
                names(*c, name) || names(*x, name) || names(*y, name) implies #[trigger] variable(
                a,
                name,
            ) == variable(b, name) by {
                assert(names(e, name));
            }
            only_named_variables_count(*c, a, b);
            only_named_variables_count(*x, a, b);
            only_named_variables_count(*y, a, b);
        },
        _ => {},
    }
}

/// Comparisons and logical operators give one or zero.
pub proof fn truth_is_one_or_zero(op: BinOp, l: ExprModel, r: ExprModel, ctx: Ctx)
    requires
        op == BinOp::And || op == BinOp::Or || op == BinOp::Eq || op == BinOp::Ne || op == BinOp::Lt
            || op == BinOp::Gt || op == BinOp::Le || op == BinOp::Ge,
    ensures
        evaluate(ExprModel::Binary(op, Box::new(l), Box::new(r)), ctx) matches Evaluated::Gives(v)
            ==> v == Value::Int(0) || v == Value::Int(1),
{
}

/// The right side of a logical operator that the left side decides is not evaluated.
pub proof fn logic_stops_early(l: ExprModel, r: ExprModel, ctx: Ctx)
    ensures
        evaluate(l, ctx) matches Evaluated::Gives(v) && !v.holds() ==> evaluate(
            ExprModel::Binary(BinOp::And, Box::new(l), Box::new(r)),
            ctx,
        ) == Evaluated::Gives(Value::Int(0)),
        evaluate(l, ctx) matches Evaluated::Gives(v) && v.holds() ==> evaluate(
            ExprModel::Binary(BinOp::Or, Box::new(l), Box::new(r)),
            ctx,
        ) == Evaluated::Gives(Value::Int(1)),
{
}

/// Only the branch that the condition selects is evaluated.
pub proof fn conditions_select(c: ExprModel, a: ExprModel, b: ExprModel, ctx: Ctx)
    requires
        evaluate(c, ctx) is Gives,
    ensures
        evaluate(ExprModel::Ternary(Box::new(c), Box::new(a), Box::new(b)), ctx) == (if evaluate(
            c,
            ctx,
        )->Gives_0.holds() {
            evaluate(a, ctx)
        } else {
            evaluate(b, ctx)
        }),
{
}

} // verus!
