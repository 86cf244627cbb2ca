//! Value expressions: the integer expressions, in the operator grammar of C, by which the
//! settings say what a key gives and where the automaton goes.
//!
//! Two tagged operands stand beside the integers: `H3|` names a Hangul unit and `C0|` a control
//! command, as in `T ? H3|_J : 0x23` or `C0|0x82`.

use vstd::prelude::*;

use crate::text::same;
use crate::unit::Unit;

pub mod laws;
pub mod lexer;
pub mod operators;
pub mod parser;
pub mod reading;

pub use parser::eval_str;

verus! {

// ── errors ─────────────────────────────────────────────────────────────────────

/// Why an expression could not be read or evaluated.
#[derive(Debug, PartialEq, Eq)]
pub enum ExprError {
    /// No token starts with the character at this index.
    UnexpectedChar(char, usize),
    /// The token does not fit here, or is a number out of range.
    UnexpectedToken(String),
    /// The expression stops short.
    UnexpectedEnd,
    /// There is no variable of this name.
    UnknownVar(String),
    /// The operand of `H3|` names no unit.
    BadUnit(String),
    /// The operand of `C0|` is not a number.
    BadCommand(String),
    /// Arithmetic on something that is not an integer.
    NotInt,
}

/// An [`ExprError`] with its texts as sequences of characters.
pub enum ErrorModel {
    UnexpectedChar(char, int),
    UnexpectedToken(Seq<char>),
    UnexpectedEnd,
    UnknownVar(Seq<char>),
    BadUnit(Seq<char>),
    BadCommand(Seq<char>),
    NotInt,
}

impl View for ExprError {
    type V = ErrorModel;

    open spec fn view(&self) -> ErrorModel {
        match *self {
            ExprError::UnexpectedChar(c, i) => ErrorModel::UnexpectedChar(c, i as int),
            ExprError::UnexpectedToken(s) => ErrorModel::UnexpectedToken(s@),
            ExprError::UnexpectedEnd => ErrorModel::UnexpectedEnd,
            ExprError::UnknownVar(s) => ErrorModel::UnknownVar(s@),
            ExprError::BadUnit(s) => ErrorModel::BadUnit(s@),
            ExprError::BadCommand(s) => ErrorModel::BadCommand(s@),
            ExprError::NotInt => ErrorModel::NotInt,
        }
    }
}

// ── variables ──────────────────────────────────────────────────────────────────

/// The variables of an evaluation. A key expression reads `T` and `P`, an automaton expression
/// the others.
#[derive(Clone, Copy, Debug, PartialEq, Eq, Structural)]
pub struct Ctx {
    /// `T`: how far the syllable has come, zero where nothing is being composed.
    pub t: i64,
    /// `P`: the modifiers, with Caps Lock as bit zero.
    pub p: i64,
    /// `A`: the sequence number of the initial consonant that comes in.
    pub a: i64,
    /// `B`: the sequence number of the vowel that comes in.
    pub b: i64,
    /// `C`: the sequence number of the final consonant that comes in.
    pub c: i64,
    /// `D`: the sequence number of the initial consonant of the syllable.
    pub d: i64,
    /// `E`: the sequence number of the vowel of the syllable.
    pub e: i64,
}

/// All variables zero.
pub open spec fn zero_ctx() -> Ctx {
    Ctx { t: 0, p: 0, a: 0, b: 0, c: 0, d: 0, e: 0 }
}

impl Default for Ctx {
    fn default() -> (r: Ctx)
        ensures
            r == zero_ctx(),
    {
        Ctx { t: 0, p: 0, a: 0, b: 0, c: 0, d: 0, e: 0 }
    }
}

/// The value of the variable with the given name.
pub open spec fn variable(ctx: Ctx, name: Seq<char>) -> Option<i64> {
    if name == "T"@ {
        Some(ctx.t)
    } else if name == "P"@ {
        Some(ctx.p)
    } else if name == "A"@ {
        Some(ctx.a)
    } else if name == "B"@ {
        Some(ctx.b)
    } else if name == "C"@ {
        Some(ctx.c)
    } else if name == "D"@ {
        Some(ctx.d)
    } else if name == "E"@ {
        Some(ctx.e)
    } else {
        None
    }
}

impl Ctx {
    /// The value of the variable with the given name.
    pub fn var(&self, name: &str) -> (r: Option<i64>)
        ensures
            r == variable(*self, name@),
    {
        if same(name, "T") {
            Some(self.t)
        } else if same(name, "P") {
            Some(self.p)
        } else if same(name, "A") {
            Some(self.a)
        } else if same(name, "B") {
            Some(self.b)
        } else if same(name, "C") {
            Some(self.c)
        } else if same(name, "D") {
            Some(self.d)
        } else if same(name, "E") {
            Some(self.e)
        } else {
            None
        }
    }
}

// ── values ─────────────────────────────────────────────────────────────────────

/// What an expression gives.
#[derive(Clone, Copy, Debug, PartialEq, Eq, Structural)]
pub enum Value {
    Int(i64),
    /// A Hangul unit (`H3|`).
    Unit(Unit),
    /// A control command (`C0|`).
    Command(u32),
}

impl Value {
    /// Whether a condition with this value holds. A unit and a command always do.
    pub open spec fn holds(self) -> bool {
        match self {
            Value::Int(n) => n != 0,
            _ => true,
        }
    }

    /// Whether a condition with this value holds.
    pub fn truthy(self) -> (r: bool)
        ensures
            r == self.holds(),
    {
        match self {
            Value::Int(n) => n != 0,
            _ => true,
        }
    }
}

// ── expressions ────────────────────────────────────────────────────────────────

/// An expression.
#[derive(Debug, PartialEq, Eq)]
pub enum Expr {
    Int(i64),
    Var(String),
    Unit(Unit),
    Command(u32),
    Unary(UnOp, Box<Expr>),
    Binary(BinOp, Box<Expr>, Box<Expr>),
    Ternary(Box<Expr>, Box<Expr>, Box<Expr>),
}

/// A prefix operator.
#[derive(Clone, Copy, Debug, PartialEq, Eq, Structural)]
pub enum UnOp {
    Not,
    Neg,
    BitNot,
}

/// An infix operator.
#[derive(Clone, Copy, Debug, PartialEq, Eq, Structural)]
pub enum BinOp {
    Or,
    And,
    BitOr,
    BitXor,
    BitAnd,
    Eq,
    Ne,
    Lt,
    Gt,
    Le,
    Ge,
    Shl,
    Shr,
    Add,
    Sub,
    Mul,
    Div,
    Rem,
}

/// An [`Expr`] with its names as sequences of characters.
pub enum ExprModel {
    Int(i64),
    Var(Seq<char>),
    Unit(Unit),
    Command(u32),
    Unary(UnOp, Box<ExprModel>),
    Binary(BinOp, Box<ExprModel>, Box<ExprModel>),
    Ternary(Box<ExprModel>, Box<ExprModel>, Box<ExprModel>),
}

impl Expr {
    /// The expression with its names as sequences of characters.
    pub open spec fn model(self) -> ExprModel
        decreases self,
    {
        match self {
            Expr::Int(n) => ExprModel::Int(n),
            Expr::Var(s) => ExprModel::Var(s@),
            Expr::Unit(u) => ExprModel::Unit(u),
            Expr::Command(c) => ExprModel::Command(c),
            Expr::Unary(op, x) => ExprModel::Unary(op, Box::new(x.model())),
            Expr::Binary(op, l, r) => ExprModel::Binary(
                op,
                Box::new(l.model()),
                Box::new(r.model()),
            ),
            Expr::Ternary(c, t, f) => ExprModel::Ternary(
                Box::new(c.model()),
                Box::new(t.model()),
                Box::new(f.model()),
            ),
        }
    }
}

impl View for Expr {
    type V = ExprModel;

    open spec fn view(&self) -> ExprModel {
        self.model()
    }
}

impl Clone for Expr {
    fn clone(&self) -> (r: Expr)
        ensures
            r@ == self@,
        decreases self,
    {
        match self {
            Expr::Int(n) => Expr::Int(*n),
            Expr::Var(s) => Expr::Var(s.clone()),
            Expr::Unit(u) => Expr::Unit(*u),
            Expr::Command(c) => Expr::Command(*c),
            Expr::Unary(op, x) => Expr::Unary(*op, Box::new((&**x).clone())),
            Expr::Binary(op, l, r) => Expr::Binary(
                *op,
                Box::new((&**l).clone()),
                Box::new((&**r).clone()),
            ),
            Expr::Ternary(c, t, f) => Expr::Ternary(
                Box::new((&**c).clone()),
                Box::new((&**t).clone()),
                Box::new((&**f).clone()),
            ),
        }
    }
}

// ── evaluation ─────────────────────────────────────────────────────────────────

/// What comes of evaluating an expression.
pub enum Evaluated {
    Gives(Value),
    Fails(ErrorModel),
    /// An operation has no 64-bit result: it overflows, divides by zero, or shifts by an amount
    /// outside 0..64.
    Undefined,
}

/// The quotient, rounded towards zero.
pub open spec fn quotient(a: int, b: int) -> int {
    if a >= 0 {
        a / b
    } else {
        -((-a) / b)
    }
}

/// The remainder, with the sign of the dividend.
pub open spec fn remainder(a: int, b: int) -> int {
    if a >= 0 {
        a % b
    } else {
        -((-a) % b)
    }
}

/// One for true, zero for false.
pub open spec fn flag(b: bool) -> i64 {
    if b {
        1
    } else {
        0
    }
}

/// The integer as an `i64`, where it is one.
pub open spec fn fit(n: int) -> Option<i64> {
    if i64::MIN <= n <= i64::MAX {
        Some(n as i64)
    } else {
        None
    }
}

/// The result of a prefix operator.
pub open spec fn apply_unary(op: UnOp, v: i64) -> Option<i64> {
    match op {
        UnOp::Not => Some(flag(v == 0)),
        UnOp::Neg => fit(-v),
        UnOp::BitNot => Some(!v),
    }
}

/// The result of an infix operator on two integers. The two logical operators are not among
/// these: they do not always evaluate both sides.
pub open spec fn apply_binary(op: BinOp, a: i64, b: i64) -> Option<i64> {
    match op {
        BinOp::Or => None,
        BinOp::And => None,
        BinOp::BitOr => Some(a | b),
        BinOp::BitXor => Some(a ^ b),
        BinOp::BitAnd => Some(a & b),
        BinOp::Eq => Some(flag(a == b)),
        BinOp::Ne => Some(flag(a != b)),
        BinOp::Lt => Some(flag(a < b)),
        BinOp::Gt => Some(flag(a > b)),
        BinOp::Le => Some(flag(a <= b)),
        BinOp::Ge => Some(flag(a >= b)),
        BinOp::Shl => if 0 <= b < 64 {
            Some(a << b)
        } else {
            None
        },
        BinOp::Shr => if 0 <= b < 64 {
            Some(a >> b)
        } else {
            None
        },
        BinOp::Add => fit(a + b),
        BinOp::Sub => fit(a - b),
        BinOp::Mul => fit(a * b),
        // The least integer divided by -1 overflows.
        BinOp::Div => if b == 0 || (a == i64::MIN && b == -1) {
            None
        } else {
            Some(quotient(a as int, b as int) as i64)
        },
        BinOp::Rem => if b == 0 || (a == i64::MIN && b == -1) {
            None
        } else {
            Some(remainder(a as int, b as int) as i64)
        },
    }
}

/// What evaluating `e` gives. Operands are evaluated from left to right, and only those that
/// are needed.
pub open spec fn evaluate(e: ExprModel, ctx: Ctx) -> Evaluated
    decreases e,
{
    match e {
        ExprModel::Int(n) => Evaluated::Gives(Value::Int(n)),
        ExprModel::Unit(u) => Evaluated::Gives(Value::Unit(u)),
        ExprModel::Command(c) => Evaluated::Gives(Value::Command(c)),
        ExprModel::Var(name) => match variable(ctx, name) {
            Some(n) => Evaluated::Gives(Value::Int(n)),
            None => Evaluated::Fails(ErrorModel::UnknownVar(name)),
        },
        ExprModel::Unary(op, x) => match evaluate(*x, ctx) {
            Evaluated::Gives(Value::Int(v)) => match apply_unary(op, v) {
                Some(n) => Evaluated::Gives(Value::Int(n)),
                None => Evaluated::Undefined,
            },
            Evaluated::Gives(_) => Evaluated::Fails(ErrorModel::NotInt),
            other => other,
        },
        ExprModel::Ternary(c, t, f) => match evaluate(*c, ctx) {
            Evaluated::Gives(v) => if v.holds() {
                evaluate(*t, ctx)
            } else {
                evaluate(*f, ctx)
            },
            other => other,
        },
        ExprModel::Binary(BinOp::And, l, r) => match evaluate(*l, ctx) {
            Evaluated::Gives(a) => if !a.holds() {
                Evaluated::Gives(Value::Int(0))
            } else {
                match evaluate(*r, ctx) {
                    Evaluated::Gives(b) => Evaluated::Gives(Value::Int(flag(b.holds()))),
                    other => other,
                }
            },
            other => other,
        },
        ExprModel::Binary(BinOp::Or, l, r) => match evaluate(*l, ctx) {
            Evaluated::Gives(a) => if a.holds() {
                Evaluated::Gives(Value::Int(1))
            } else {
                match evaluate(*r, ctx) {
                    Evaluated::Gives(b) => Evaluated::Gives(Value::Int(flag(b.holds()))),
                    other => other,
                }
            },
            other => other,
        },
        ExprModel::Binary(op, l, r) => match evaluate(*l, ctx) {
            Evaluated::Gives(Value::Int(a)) => match evaluate(*r, ctx) {
                Evaluated::Gives(Value::Int(b)) => match apply_binary(op, a, b) {
                    Some(n) => Evaluated::Gives(Value::Int(n)),
                    None => Evaluated::Undefined,
                },
                Evaluated::Gives(_) => Evaluated::Fails(ErrorModel::NotInt),
                other => other,
            },
            Evaluated::Gives(_) => Evaluated::Fails(ErrorModel::NotInt),
            other => other,
        },
    }
}

/// Whether every operation that evaluating `e` comes to has a 64-bit result.
pub open spec fn defined(e: ExprModel, ctx: Ctx) -> bool {
    !(evaluate(e, ctx) is Undefined)
}

/// Whether `r` is what `v` says.
pub open spec fn is_result(v: Evaluated, r: Result<Value, ExprError>) -> bool {
    match r {
        Ok(x) => v == Evaluated::Gives(x),
        Err(e) => v == Evaluated::Fails(e@),
    }
}

fn unary(op: UnOp, v: i64) -> (r: i64)
    requires
        apply_unary(op, v) is Some,
    ensures
        apply_unary(op, v) == Some(r),
{
    match op {
        UnOp::Not => (v == 0) as i64,
        UnOp::Neg => -v,
        UnOp::BitNot => !v,
    }
}

fn binary(op: BinOp, a: i64, b: i64) -> (r: i64)
    requires
        apply_binary(op, a, b) is Some,
    ensures
        apply_binary(op, a, b) == Some(r),
{
    match op {
        BinOp::BitOr => a | b,
        BinOp::BitXor => a ^ b,
        BinOp::BitAnd => a & b,
        BinOp::Eq => (a == b) as i64,
        BinOp::Ne => (a != b) as i64,
        BinOp::Lt => (a < b) as i64,
        BinOp::Gt => (a > b) as i64,
        BinOp::Le => (a <= b) as i64,
        BinOp::Ge => (a >= b) as i64,
        BinOp::Shl => a << b,
        BinOp::Shr => a >> b,
        BinOp::Add => a + b,
        BinOp::Sub => a - b,
        BinOp::Mul => a * b,
        BinOp::Div => a / b,
        BinOp::Rem => a % b,
        BinOp::And | BinOp::Or => 0,
    }
}

fn unary_defined(op: UnOp, v: i64) -> (r: bool)
    ensures
        r == (apply_unary(op, v) is Some),
{
    match op {
        UnOp::Neg => v != i64::MIN,
        _ => true,
    }
}

fn binary_defined(op: BinOp, a: i64, b: i64) -> (r: bool)
    ensures
        r == (apply_binary(op, a, b) is Some),
{
    match op {
        BinOp::Or | BinOp::And => false,
        BinOp::Shl | BinOp::Shr => 0 <= b && b < 64,
        BinOp::Add => a.checked_add(b).is_some(),
        BinOp::Sub => a.checked_sub(b).is_some(),
        BinOp::Mul => a.checked_mul(b).is_some(),
        BinOp::Div | BinOp::Rem => b != 0 && !(a == i64::MIN && b == -1),
        _ => true,
    }
}

impl Expr {
    /// Whether a unit occurs in the expression.
    pub open spec fn has_unit(e: ExprModel) -> bool
        decreases e,
    {
        match e {
            ExprModel::Unit(_) => true,
            ExprModel::Int(_) => false,
            ExprModel::Var(_) => false,
            ExprModel::Command(_) => false,
            ExprModel::Unary(_, x) => Expr::has_unit(*x),
            ExprModel::Binary(_, l, r) => Expr::has_unit(*l) || Expr::has_unit(*r),
            ExprModel::Ternary(c, t, f) => Expr::has_unit(*c) || Expr::has_unit(*t)
                || Expr::has_unit(*f),
        }
    }

    /// Whether a Hangul unit (`H3|`) occurs in the expression: only then can it give one. This
    /// tells the Hangul entries of the settings from the others.
    pub fn contains_unit(&self) -> (r: bool)
        ensures
            r == Expr::has_unit(self@),
        decreases self,
    {
        match self {
            Expr::Unit(_) => true,
            Expr::Int(_) | Expr::Var(_) | Expr::Command(_) => false,
            Expr::Unary(_, x) => x.contains_unit(),
            Expr::Binary(_, a, b) => a.contains_unit() || b.contains_unit(),
            Expr::Ternary(c, t, f) => c.contains_unit() || t.contains_unit() || f.contains_unit(),
        }
    }

    /// Evaluates the expression.
    pub fn eval(&self, ctx: &Ctx) -> (r: Result<Value, ExprError>)
        requires
            defined(self@, *ctx),
        ensures
            is_result(evaluate(self@, *ctx), r),
        decreases self,
    {
        match self {
            Expr::Int(n) => Ok(Value::Int(*n)),
            Expr::Unit(u) => Ok(Value::Unit(*u)),
            Expr::Command(c) => Ok(Value::Command(*c)),
            Expr::Var(name) => match ctx.var(name.as_str()) {
                Some(n) => Ok(Value::Int(n)),
                None => Err(ExprError::UnknownVar(name.clone())),
            },
            Expr::Unary(op, x) => match x.eval(ctx) {
                Ok(Value::Int(v)) => Ok(Value::Int(unary(*op, v))),
                Ok(_) => Err(ExprError::NotInt),
                Err(e) => Err(e),
            },
            Expr::Ternary(cond, t, f) => match cond.eval(ctx) {
                Ok(v) => if v.truthy() {
                    t.eval(ctx)
                } else {
                    f.eval(ctx)
                },
                Err(e) => Err(e),
            },
            Expr::Binary(BinOp::And, l, r) => match l.eval(ctx) {
                Ok(a) => if !a.truthy() {
                    Ok(Value::Int(0))
                } else {
                    match r.eval(ctx) {
                        Ok(b) => Ok(Value::Int(b.truthy() as i64)),
                        Err(e) => Err(e),
                    }
                },
                Err(e) => Err(e),
            },
            Expr::Binary(BinOp::Or, l, r) => match l.eval(ctx) {
                Ok(a) => if a.truthy() {
                    Ok(Value::Int(1))
                } else {
                    match r.eval(ctx) {
                        Ok(b) => Ok(Value::Int(b.truthy() as i64)),
                        Err(e) => Err(e),
                    }
                },
                Err(e) => Err(e),
            },
            Expr::Binary(op, l, r) => match l.eval(ctx) {
                Ok(Value::Int(a)) => match r.eval(ctx) {
                    Ok(Value::Int(b)) => Ok(Value::Int(binary(*op, a, b))),
                    Ok(_) => Err(ExprError::NotInt),
                    Err(e) => Err(e),
                },
                Ok(_) => Err(ExprError::NotInt),
                Err(e) => Err(e),
            },
        }
    }

    /// Evaluates the expression, or returns `None` where an operation has no 64-bit result.
    pub fn checked_eval(&self, ctx: &Ctx) -> (r: Option<Result<Value, ExprError>>)
        ensures
            match r {
                Some(v) => is_result(evaluate(self@, *ctx), v),
                None => !defined(self@, *ctx),
            },
        decreases self,
    {
        match self {
            Expr::Int(n) => Some(Ok(Value::Int(*n))),
            Expr::Unit(u) => Some(Ok(Value::Unit(*u))),
            Expr::Command(c) => Some(Ok(Value::Command(*c))),
            Expr::Var(_) => Some(self.eval(ctx)),
            Expr::Unary(op, x) => match x.checked_eval(ctx) {
                Some(Ok(Value::Int(v))) => if unary_defined(*op, v) {
                    Some(Ok(Value::Int(unary(*op, v))))
                } else {
                    None
                },
                Some(Ok(_)) => Some(Err(ExprError::NotInt)),
                other => other,
            },
            Expr::Ternary(cond, t, f) => match cond.checked_eval(ctx) {
                Some(Ok(v)) => if v.truthy() {
                    t.checked_eval(ctx)
                } else {
                    f.checked_eval(ctx)
                },
                other => other,
            },
            Expr::Binary(BinOp::And, l, r) => match l.checked_eval(ctx) {
                Some(Ok(a)) => if !a.truthy() {
                    Some(Ok(Value::Int(0)))
                } else {
                    match r.checked_eval(ctx) {
                        Some(Ok(b)) => Some(Ok(Value::Int(b.truthy() as i64))),
                        other => other,
                    }
                },
                other => other,
            },
            Expr::Binary(BinOp::Or, l, r) => match l.checked_eval(ctx) {
                Some(Ok(a)) => if a.truthy() {
                    Some(Ok(Value::Int(1)))
                } else {
                    match r.checked_eval(ctx) {
                        Some(Ok(b)) => Some(Ok(Value::Int(b.truthy() as i64))),
                        other => other,
                    }
                },
                other => other,
            },
            Expr::Binary(op, l, r) => match l.checked_eval(ctx) {
                Some(Ok(Value::Int(a))) => match r.checked_eval(ctx) {
                    Some(Ok(Value::Int(b))) => if binary_defined(*op, a, b) {
                        Some(Ok(Value::Int(binary(*op, a, b))))
                    } else {
                        None
                    },
                    Some(Ok(_)) => Some(Err(ExprError::NotInt)),
                    other => other,
                },
                Some(Ok(_)) => Some(Err(ExprError::NotInt)),
                other => other,
            },
        }
    }
}

} // verus!
