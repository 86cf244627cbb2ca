//! What the operators of expressions mean.

use vstd::prelude::*;

use super::{
    apply_binary, apply_unary, evaluate, BinOp, Ctx, ErrorModel, Evaluated, Expr, ExprModel, UnOp,
    Value,
};
use crate::unit::Unit;

verus! {

// ── operations on values ───────────────────────────────────────────────────────

/// What an infix operator gives on two integers that are written out.
pub open spec fn on_ints(op: BinOp, a: i64, b: i64) -> Evaluated {
    evaluate(
        ExprModel::Binary(op, Box::new(ExprModel::Int(a)), Box::new(ExprModel::Int(b))),
        Ctx { t: 0, p: 0, a: 0, b: 0, c: 0, d: 0, e: 0 },
    )
}

/// What a prefix operator gives on an integer that is written out.
pub open spec fn on_int(op: UnOp, a: i64) -> Evaluated {
    evaluate(
        ExprModel::Unary(op, Box::new(ExprModel::Int(a))),
        Ctx { t: 0, p: 0, a: 0, b: 0, c: 0, d: 0, e: 0 },
    )
}

/// Whether the result is the integer.
pub open spec fn gives(r: Evaluated, n: int) -> bool {
    r matches Evaluated::Gives(Value::Int(m)) && m == n
}

proof fn lemma_on_ints(op: BinOp, a: i64, b: i64)
    requires
        op != BinOp::And && op != BinOp::Or,
    ensures
        on_ints(op, a, b) == match apply_binary(op, a, b) {
            Some(n) => Evaluated::Gives(Value::Int(n)),
            None => Evaluated::Undefined,
        },
{
    let ctx = Ctx { t: 0, p: 0, a: 0, b: 0, c: 0, d: 0, e: 0 };
    assert(evaluate(ExprModel::Int(a), ctx) == Evaluated::Gives(Value::Int(a)));
    assert(evaluate(ExprModel::Int(b), ctx) == Evaluated::Gives(Value::Int(b)));
}

proof fn lemma_on_int(op: UnOp, a: i64)
    ensures
        on_int(op, a) == match apply_unary(op, a) {
            Some(n) => Evaluated::Gives(Value::Int(n)),
            None => Evaluated::Undefined,
        },
{
    let ctx = Ctx { t: 0, p: 0, a: 0, b: 0, c: 0, d: 0, e: 0 };
    assert(evaluate(ExprModel::Int(a), ctx) == Evaluated::Gives(Value::Int(a)));
}

/// An operator speaks of the values of its operands alone: where both are integers, however they
/// are written, the result is that of the integers.
pub proof fn operators_take_values(op: BinOp, x: ExprModel, y: ExprModel, ctx: Ctx, a: i64, b: i64)
    requires
        op != BinOp::And && op != BinOp::Or,
        evaluate(x, ctx) == Evaluated::Gives(Value::Int(a)),
        evaluate(y, ctx) == Evaluated::Gives(Value::Int(b)),
    ensures
        evaluate(ExprModel::Binary(op, Box::new(x), Box::new(y)), ctx) == on_ints(op, a, b),
{
    lemma_on_ints(op, a, b);
}

/// The same holds of a prefix operator.
pub proof fn prefixes_take_values(op: UnOp, x: ExprModel, ctx: Ctx, a: i64)
    requires
        evaluate(x, ctx) == Evaluated::Gives(Value::Int(a)),
    ensures
        evaluate(ExprModel::Unary(op, Box::new(x)), ctx) == on_int(op, a),
{
    lemma_on_int(op, a);
}

// ── comparisons ────────────────────────────────────────────────────────────────

/// The comparisons order the integers. Of `a < b`, `a == b` and `a > b` exactly one gives 1 and
/// the others give 0; `a < b` says the same as `b > a`, and the opposite of `a >= b`; `a > b` says
/// the opposite of `a <= b`, and `a == b` that of `a != b`.
pub proof fn comparisons_order_the_integers(a: i64, b: i64)
    ensures
        ({
            let lt = on_ints(BinOp::Lt, a, b);
            let eq = on_ints(BinOp::Eq, a, b);
            let gt = on_ints(BinOp::Gt, a, b);
            ||| gives(lt, 1) && gives(eq, 0) && gives(gt, 0)
            ||| gives(lt, 0) && gives(eq, 1) && gives(gt, 0)
            ||| gives(lt, 0) && gives(eq, 0) && gives(gt, 1)
        }),
        on_ints(BinOp::Lt, a, b) == on_ints(BinOp::Gt, b, a),
        on_ints(BinOp::Le, a, b) == on_ints(BinOp::Ge, b, a),
        on_ints(BinOp::Eq, a, b) == on_ints(BinOp::Eq, b, a),
        gives(on_ints(BinOp::Le, a, b), 1) <==> gives(on_ints(BinOp::Gt, a, b), 0),
        gives(on_ints(BinOp::Le, a, b), 0) <==> gives(on_ints(BinOp::Gt, a, b), 1),
        gives(on_ints(BinOp::Ge, a, b), 1) <==> gives(on_ints(BinOp::Lt, a, b), 0),
        gives(on_ints(BinOp::Ge, a, b), 0) <==> gives(on_ints(BinOp::Lt, a, b), 1),
        gives(on_ints(BinOp::Ne, a, b), 1) <==> gives(on_ints(BinOp::Eq, a, b), 0),
        gives(on_ints(BinOp::Ne, a, b), 0) <==> gives(on_ints(BinOp::Eq, a, b), 1),
{
    lemma_on_ints(BinOp::Lt, a, b);
    lemma_on_ints(BinOp::Gt, a, b);
    lemma_on_ints(BinOp::Le, a, b);
    lemma_on_ints(BinOp::Ge, a, b);
    lemma_on_ints(BinOp::Eq, a, b);
    lemma_on_ints(BinOp::Ne, a, b);
    lemma_on_ints(BinOp::Gt, b, a);
    lemma_on_ints(BinOp::Ge, b, a);
    lemma_on_ints(BinOp::Eq, b, a);
}

/// The order is that of the number line: `a < b` gives 1 exactly where `b` lies a positive step
/// behind `a`, and `a == b` exactly where there is no step between them.
pub proof fn comparisons_follow_the_number_line(a: i64, b: i64)
    ensures
        gives(on_ints(BinOp::Lt, a, b), 1) <==> 0 < b - a,
        gives(on_ints(BinOp::Gt, a, b), 1) <==> 0 < a - b,
        gives(on_ints(BinOp::Le, a, b), 1) <==> 0 <= b - a,
        gives(on_ints(BinOp::Ge, a, b), 1) <==> 0 <= a - b,
        gives(on_ints(BinOp::Eq, a, b), 1) <==> a - b == 0,
{
    lemma_on_ints(BinOp::Lt, a, b);
    lemma_on_ints(BinOp::Gt, a, b);
    lemma_on_ints(BinOp::Le, a, b);
    lemma_on_ints(BinOp::Ge, a, b);
    lemma_on_ints(BinOp::Eq, a, b);
}

/// What is before what is before a number is before that number.
pub proof fn comparisons_are_transitive(a: i64, b: i64, c: i64)
    requires
        gives(on_ints(BinOp::Lt, a, b), 1),
        gives(on_ints(BinOp::Lt, b, c), 1),
    ensures
        gives(on_ints(BinOp::Lt, a, c), 1),
        gives(on_ints(BinOp::Gt, a, c), 0),
{
    lemma_on_ints(BinOp::Lt, a, b);
    lemma_on_ints(BinOp::Lt, b, c);
    lemma_on_ints(BinOp::Lt, a, c);
    lemma_on_ints(BinOp::Gt, a, c);
}

// ── arithmetic ─────────────────────────────────────────────────────────────────

/// Whether an integer is one of 64 bits.
pub open spec fn has_64_bits(n: int) -> bool {
    -0x8000_0000_0000_0000 <= n <= 0x7FFF_FFFF_FFFF_FFFF
}

/// Sums, differences, products and negatives are those of the integers, where they have 64 bits.
/// Else there is no result.
pub proof fn arithmetic_is_exact(a: i64, b: i64)
    ensures
        if has_64_bits(a + b) {
            gives(on_ints(BinOp::Add, a, b), a + b)
        } else {
            on_ints(BinOp::Add, a, b) is Undefined
        },
        if has_64_bits(a - b) {
            gives(on_ints(BinOp::Sub, a, b), a - b)
        } else {
            on_ints(BinOp::Sub, a, b) is Undefined
        },
        if has_64_bits(a * b) {
            gives(on_ints(BinOp::Mul, a, b), a * b)
        } else {
            on_ints(BinOp::Mul, a, b) is Undefined
        },
        if has_64_bits(-a) {
            gives(on_int(UnOp::Neg, a), -a)
        } else {
            on_int(UnOp::Neg, a) is Undefined
        },
{
    lemma_on_ints(BinOp::Add, a, b);
    lemma_on_ints(BinOp::Sub, a, b);
    lemma_on_ints(BinOp::Mul, a, b);
    lemma_on_int(UnOp::Neg, a);
}

/// What is added can be taken away again, and the other way round.
pub proof fn differences_undo_sums(a: i64, b: i64, s: i64)
    ensures
        on_ints(BinOp::Add, a, b) == Evaluated::Gives(Value::Int(s)) <==> on_ints(BinOp::Sub, s, b)
            == Evaluated::Gives(Value::Int(a)),
{
    lemma_on_ints(BinOp::Add, a, b);
    lemma_on_ints(BinOp::Sub, s, b);
}

/// Division goes towards zero, and the remainder is what is left: quotient times divisor and
/// remainder make up the dividend, the remainder is smaller than the divisor, and it has the sign
/// of the dividend. There is no result for a divisor of zero, nor for the one quotient that has
/// more than 64 bits.
pub proof fn division_leaves_the_remainder(a: i64, b: i64)
    ensures
        ({
            let q = on_ints(BinOp::Div, a, b);
            let r = on_ints(BinOp::Rem, a, b);
            if b == 0 || (a == -0x8000_0000_0000_0000 && b == -1) {
                q is Undefined && r is Undefined
            } else {
                q matches Evaluated::Gives(Value::Int(n)) && r matches Evaluated::Gives(
                    Value::Int(m),
                ) && {
                    &&& n * b + m == a
                    &&& if b > 0 {
                        -b < m < b
                    } else {
                        b < m < -b
                    }
                    &&& a >= 0 ==> m >= 0
                    &&& a <= 0 ==> m <= 0
                }
            }
        }),
{
    lemma_on_ints(BinOp::Div, a, b);
    lemma_on_ints(BinOp::Rem, a, b);
    if b != 0 && !(a == -0x8000_0000_0000_0000 && b == -1) {
        let x = a as int;
        let y = b as int;
        let u = if x >= 0 {
            x
        } else {
            -x
        };
        let q = u / y;
        let r = u % y;
        vstd::arithmetic::div_mod::lemma_fundamental_div_mod(u, y);
        assert(u == y * q + r);
        assert(0 <= r && (if y > 0 {
            r < y
        } else {
            r < -y
        })) by (nonlinear_arith)
            requires
                y != 0,
                r == u % y,
        ;
        assert(-u <= q <= u) by (nonlinear_arith)
            requires
                y != 0,
                u >= 0,
                u == y * q + r,
                0 <= r,
                y > 0 ==> r < y,
                y < 0 ==> r < -y,
        ;
        if x >= 0 {
            assert(q * y + r == x) by (nonlinear_arith)
                requires
                    x == y * q + r,
            ;
        } else {
            assert((-q) * y + (-r) == x) by (nonlinear_arith)
                requires
                    -x == y * q + r,
            ;
            if u == 0x8000_0000_0000_0000 {
                assert(-q <= 0x7FFF_FFFF_FFFF_FFFF) by (nonlinear_arith)
                    requires
                        u == 0x8000_0000_0000_0000,
                        u == y * q + r,
                        0 <= r,
                        y != 0,
                        y != -1,
                        y < 0 ==> r < -y,
                        y > 0 ==> r < y,
                ;
            }
        }
    }
}

// ── bits ───────────────────────────────────────────────────────────────────────

/// Whether the bit with the given number is set.
pub open spec fn bit(n: i64, i: u64) -> bool {
    (n >> i) & 1 == 1
}

/// `&`, `|` and `^` combine the bits of their operands one by one, and `~` turns each over.
pub proof fn bits_combine_one_by_one(a: i64, b: i64, i: u64)
    requires
        0 <= i < 64,
    ensures
        on_ints(BinOp::BitAnd, a, b) matches Evaluated::Gives(Value::Int(n)) && (bit(n, i) <==> bit(
            a,
            i,
        ) && bit(b, i)),
        on_ints(BinOp::BitOr, a, b) matches Evaluated::Gives(Value::Int(n)) && (bit(n, i) <==> bit(
            a,
            i,
        ) || bit(b, i)),
        on_ints(BinOp::BitXor, a, b) matches Evaluated::Gives(Value::Int(n)) && (bit(n, i) <==> bit(
            a,
            i,
        ) != bit(b, i)),
        on_int(UnOp::BitNot, a) matches Evaluated::Gives(Value::Int(n)) && (bit(n, i) <==> !bit(
            a,
            i,
        )),
{
    lemma_on_ints(BinOp::BitAnd, a, b);
    lemma_on_ints(BinOp::BitOr, a, b);
    lemma_on_ints(BinOp::BitXor, a, b);
    lemma_on_int(UnOp::BitNot, a);
    assert((((a & b) >> i) & 1 == 1) <==> ((a >> i) & 1 == 1) && ((b >> i) & 1 == 1)) by (bit_vector)
        requires
            0 <= i < 64,
    ;
    assert((((a | b) >> i) & 1 == 1) <==> ((a >> i) & 1 == 1) || ((b >> i) & 1 == 1)) by (bit_vector)
        requires
            0 <= i < 64,
    ;
    assert((((a ^ b) >> i) & 1 == 1) <==> (((a >> i) & 1 == 1) != ((b >> i) & 1 == 1))) by (bit_vector)
        requires
            0 <= i < 64,
    ;
    assert((((!a) >> i) & 1 == 1) <==> !((a >> i) & 1 == 1)) by (bit_vector)
        requires
            0 <= i < 64,
    ;
}

/// Shifting to the left by `n` moves each bit `n` places up and fills with zeros; shifting to the
/// right moves it down and fills with the sign. A distance outside 0 to 63 has no result.
pub proof fn shifts_move_bits(a: i64, n: i64, i: u64)
    requires
        0 <= i < 64,
    ensures
        0 <= n < 64 ==> {
            &&& on_ints(BinOp::Shl, a, n) matches Evaluated::Gives(Value::Int(m)) && (bit(m, i)
                <==> i >= n && bit(a, (i - n) as u64))
            &&& on_ints(BinOp::Shr, a, n) matches Evaluated::Gives(Value::Int(m)) && (bit(m, i)
                <==> (if i + n < 64 {
                bit(a, (i + n) as u64)
            } else {
                a < 0
            }))
        },
        !(0 <= n < 64) ==> on_ints(BinOp::Shl, a, n) is Undefined && on_ints(
            BinOp::Shr,
            a,
            n,
        ) is Undefined,
{
    lemma_on_ints(BinOp::Shl, a, n);
    lemma_on_ints(BinOp::Shr, a, n);
    if 0 <= n < 64 {
        let k: u64 = n as u64;
        let up: u64 = (i + n) as u64;
        let down: u64 = (i - n) as u64;
        if i >= n {
            assert((((a << k) >> i) & 1 == 1) <==> ((a >> down) & 1 == 1)) by (bit_vector)
                requires
                    k <= i < 64,
                    down == i - k,
            ;
        } else {
            assert(((a << k) >> i) & 1 != 1) by (bit_vector)
                requires
                    i < k < 64,
            ;
        }
        if i + n < 64 {
            assert((((a >> k) >> i) & 1 == 1) <==> ((a >> up) & 1 == 1)) by (bit_vector)
                requires
                    k < 64,
                    i < 64,
                    up == i + k,
                    up < 64,
            ;
        } else {
            assert((((a >> k) >> i) & 1 == 1) <==> a < 0) by (bit_vector)
                requires
                    k < 64,
                    i < 64,
                    i + k >= 64,
            ;
        }
    }
}

// ── truth ──────────────────────────────────────────────────────────────────────

/// Whether a result counts as true: any value but the integer zero does.
pub open spec fn counts_as_true(r: Evaluated) -> bool {
    r is Gives && !gives(r, 0)
}

/// `!` gives 1 for zero and 0 for any other integer.
pub proof fn negation_turns_truth_over(a: i64)
    ensures
        gives(on_int(UnOp::Not, a), 1) <==> a == 0,
        gives(on_int(UnOp::Not, a), 0) <==> a != 0,
{
    lemma_on_int(UnOp::Not, a);
}

/// `x && y` gives 1 exactly where both are true, and 0 where `x` or, after it, `y` is not. What
/// has no value on the way comes out: of `x`, or, where `x` is true, of `y`.
pub proof fn conjunctions_need_both(x: ExprModel, y: ExprModel, ctx: Ctx)
    ensures
        ({
            let r = evaluate(ExprModel::Binary(BinOp::And, Box::new(x), Box::new(y)), ctx);
            let a = evaluate(x, ctx);
            let b = evaluate(y, ctx);
            &&& gives(r, 1) <==> counts_as_true(a) && counts_as_true(b)
            &&& gives(r, 0) <==> gives(a, 0) || (counts_as_true(a) && gives(b, 0))
            &&& a !is Gives ==> r == a
            &&& counts_as_true(a) && b !is Gives ==> r == b
        }),
{
}

/// `x || y` gives 1 exactly where `x` or, after it, `y` is true, and 0 where neither is. What has
/// no value on the way comes out: of `x`, or, where `x` is not true, of `y`.
pub proof fn disjunctions_need_one(x: ExprModel, y: ExprModel, ctx: Ctx)
    ensures
        ({
            let r = evaluate(ExprModel::Binary(BinOp::Or, Box::new(x), Box::new(y)), ctx);
            let a = evaluate(x, ctx);
            let b = evaluate(y, ctx);
            &&& gives(r, 1) <==> counts_as_true(a) || (gives(a, 0) && counts_as_true(b))
            &&& gives(r, 0) <==> gives(a, 0) && gives(b, 0)
            &&& a !is Gives ==> r == a
            &&& gives(a, 0) && b !is Gives ==> r == b
        }),
{
}

/// A condition that is true takes the first branch, one that is zero the second, and one without a
/// value gives none.
pub proof fn conditions_choose_a_branch(c: ExprModel, x: ExprModel, y: ExprModel, ctx: Ctx)
    ensures
        ({
            let r = evaluate(ExprModel::Ternary(Box::new(c), Box::new(x), Box::new(y)), ctx);
            let a = evaluate(c, ctx);
            &&& counts_as_true(a) ==> r == evaluate(x, ctx)
            &&& gives(a, 0) ==> r == evaluate(y, ctx)
            &&& a !is Gives ==> r == a
        }),
{
}

// ── values ─────────────────────────────────────────────────────────────────────

/// A number, a unit and a command give themselves, whatever the variables.
pub proof fn literals_give_themselves(n: i64, u: Unit, c: u32, ctx: Ctx)
    ensures
        evaluate(ExprModel::Int(n), ctx) == Evaluated::Gives(Value::Int(n)),
        evaluate(ExprModel::Unit(u), ctx) == Evaluated::Gives(Value::Unit(u)),
        evaluate(ExprModel::Command(c), ctx) == Evaluated::Gives(Value::Command(c)),
{
}

/// The variables `T`, `P` and `A` to `E` give what they stand for. Any other name is unknown.
pub proof fn variables_give_their_values(ctx: Ctx, name: Seq<char>)
    ensures
        ({
            let r = evaluate(ExprModel::Var(name), ctx);
            &&& name == seq!['T'] ==> gives(r, ctx.t as int)
            &&& name == seq!['P'] ==> gives(r, ctx.p as int)
            &&& name == seq!['A'] ==> gives(r, ctx.a as int)
            &&& name == seq!['B'] ==> gives(r, ctx.b as int)
            &&& name == seq!['C'] ==> gives(r, ctx.c as int)
            &&& name == seq!['D'] ==> gives(r, ctx.d as int)
            &&& name == seq!['E'] ==> gives(r, ctx.e as int)
            &&& !(name.len() == 1 && (name[0] == 'T' || name[0] == 'P' || 'A' <= name[0] <= 'E'))
                ==> r == Evaluated::Fails(ErrorModel::UnknownVar(name))
        }),
{
    reveal_strlit("T");
    reveal_strlit("P");
    reveal_strlit("A");
    reveal_strlit("B");
    reveal_strlit("C");
    reveal_strlit("D");
    reveal_strlit("E");
    assert("T"@ =~= seq!['T']);
    assert("P"@ =~= seq!['P']);
    assert("A"@ =~= seq!['A']);
    assert("B"@ =~= seq!['B']);
    assert("C"@ =~= seq!['C']);
    assert("D"@ =~= seq!['D']);
    assert("E"@ =~= seq!['E']);
    assert(seq!['T'][0] == 'T' && seq!['P'][0] == 'P' && seq!['A'][0] == 'A' && seq!['B'][0] == 'B'
        && seq!['C'][0] == 'C' && seq!['D'][0] == 'D' && seq!['E'][0] == 'E');
}

/// Units and commands are no integers: an operator other than the logical ones fails on them. The
/// left operand comes first: what it fails with counts before anything of the right one.
pub proof fn operators_need_integers(op: BinOp, x: ExprModel, y: ExprModel, ctx: Ctx)
    requires
        op != BinOp::And && op != BinOp::Or,
    ensures
        ({
            let r = evaluate(ExprModel::Binary(op, Box::new(x), Box::new(y)), ctx);
            let a = evaluate(x, ctx);
            let b = evaluate(y, ctx);
            let not_int = Evaluated::Fails(ErrorModel::NotInt);
            &&& a !is Gives ==> r == a
            &&& (a matches Evaluated::Gives(v) && v !is Int) ==> r == not_int
            &&& (a matches Evaluated::Gives(v) && v is Int) && b !is Gives ==> r == b
            &&& (a matches Evaluated::Gives(v) && v is Int) && (b matches Evaluated::Gives(w) && w
                !is Int) ==> r == not_int
        }),
{
}

/// The same holds of the prefix operators.
pub proof fn prefixes_need_integers(op: UnOp, x: ExprModel, ctx: Ctx)
    ensures
        ({
            let r = evaluate(ExprModel::Unary(op, Box::new(x)), ctx);
            let a = evaluate(x, ctx);
            &&& a !is Gives ==> r == a
            &&& (a matches Evaluated::Gives(v) && v !is Int) ==> r == Evaluated::Fails(
                ErrorModel::NotInt,
            )
        }),
{
}

// ── parts ──────────────────────────────────────────────────────────────────────

/// Whether `x` is the expression or a part of it.
pub open spec fn is_part(x: ExprModel, e: ExprModel) -> bool
    decreases e,
{
    x == e || match e {
        ExprModel::Unary(_, a) => is_part(x, *a),
        ExprModel::Binary(_, a, b) => is_part(x, *a) || is_part(x, *b),
        ExprModel::Ternary(a, b, c) => is_part(x, *a) || is_part(x, *b) || is_part(x, *c),
        _ => false,
    }
}

/// An expression is told to hold a unit exactly where one of its parts is one.
pub proof fn units_are_found_wherever_they_stand(e: ExprModel)
    ensures
        Expr::has_unit(e) <==> exists|u: Unit| #[trigger] is_part(ExprModel::Unit(u), e),
{
    if Expr::has_unit(e) {
        let u = lemma_unit_in(e);
        assert(is_part(ExprModel::Unit(u), e));
    }
    if exists|u: Unit| #[trigger] is_part(ExprModel::Unit(u), e) {
        let u = choose|u: Unit| #[trigger] is_part(ExprModel::Unit(u), e);
        lemma_part_has_unit(u, e);
    }
}

proof fn lemma_unit_in(e: ExprModel) -> (u: Unit)
    requires
        Expr::has_unit(e),
    ensures
        is_part(ExprModel::Unit(u), e),
    decreases e,
{
    match e {
        ExprModel::Unit(u) => u,
        ExprModel::Unary(_, a) => lemma_unit_in(*a),
        ExprModel::Binary(_, a, b) => if Expr::has_unit(*a) {
            lemma_unit_in(*a)
        } else {
            lemma_unit_in(*b)
        },
        ExprModel::Ternary(a, b, c) => if Expr::has_unit(*a) {
            lemma_unit_in(*a)
        } else if Expr::has_unit(*b) {
            lemma_unit_in(*b)
        } else {
            lemma_unit_in(*c)
        },
        _ => Unit::Toggle,
    }
}

proof fn lemma_part_has_unit(u: Unit, e: ExprModel)
    requires
        is_part(ExprModel::Unit(u), e),
    ensures
        Expr::has_unit(e),
    decreases e,
{
    match e {
        ExprModel::Unary(_, a) => lemma_part_has_unit(u, *a),
        ExprModel::Binary(_, a, b) => if is_part(ExprModel::Unit(u), *a) {
            lemma_part_has_unit(u, *a);
        } else {
            lemma_part_has_unit(u, *b);
        },
        ExprModel::Ternary(a, b, c) => if is_part(ExprModel::Unit(u), *a) {
            lemma_part_has_unit(u, *a);
        } else if is_part(ExprModel::Unit(u), *b) {
            lemma_part_has_unit(u, *b);
        } else {
            lemma_part_has_unit(u, *c);
        },
        _ => {},
    }
}

// ── what always has a result ───────────────────────────────────────────────────

/// Whether an operator occurs in the expression that can be without a result: a sum, a difference,
/// a product, a division or a shift, or a negative.
pub open spec fn calculates(e: ExprModel) -> bool
    decreases e,
{
    match e {
        ExprModel::Unary(op, x) => op == UnOp::Neg || calculates(*x),
        ExprModel::Binary(op, x, y) => op == BinOp::Add || op == BinOp::Sub || op == BinOp::Mul || op
            == BinOp::Div || op == BinOp::Rem || op == BinOp::Shl || op == BinOp::Shr || calculates(
            *x,
        ) || calculates(*y),
        ExprModel::Ternary(c, x, y) => calculates(*c) || calculates(*x) || calculates(*y),
        _ => false,
    }
}

/// An expression without such an operator always has a result, or fails with an error.
pub proof fn only_calculations_lack_results(e: ExprModel, ctx: Ctx)
    requires
        !calculates(e),
    ensures
        evaluate(e, ctx) !is Undefined,
    decreases e,
{
    match e {
        ExprModel::Unary(_, x) => only_calculations_lack_results(*x, ctx),
        ExprModel::Binary(_, x, y) => {
            only_calculations_lack_results(*x, ctx);
            only_calculations_lack_results(*y, ctx);
        },
        ExprModel::Ternary(c, x, y) => {
            only_calculations_lack_results(*c, ctx);
            only_calculations_lack_results(*x, ctx);
            only_calculations_lack_results(*y, ctx);
        },
        _ => {},
    }
}

} // verus!
