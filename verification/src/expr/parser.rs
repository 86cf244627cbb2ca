//! From tokens to expressions.

use vstd::prelude::*;

use super::lexer::{lex, lex_from, shown, tokens, Sym, Tok, TokModel};
use super::{
    defined, evaluate, is_result, BinOp, Ctx, ErrorModel, Expr, ExprError, ExprModel, UnOp, Value,
};
use crate::text::{numeral, same, write_numeral};
use crate::unit::{resolve_mnemonic, resolve_numeric, unit_of_name, unit_of_number};

verus! {

// ── the grammar ────────────────────────────────────────────────────────────────

/// An expression, and how many tokens make it up.
pub struct Parsed {
    pub e: ExprModel,
    pub used: nat,
}

/// The infix operator of a token and how tightly it binds, as in C.
pub open spec fn infix(t: TokModel) -> Option<(BinOp, int)> {
    match t {
        TokModel::Sym(Sym::OrOr) => Some((BinOp::Or, 1)),
        TokModel::Sym(Sym::AndAnd) => Some((BinOp::And, 2)),
        TokModel::Sym(Sym::Pipe) => Some((BinOp::BitOr, 3)),
        TokModel::Sym(Sym::Caret) => Some((BinOp::BitXor, 4)),
        TokModel::Sym(Sym::Amp) => Some((BinOp::BitAnd, 5)),
        TokModel::Sym(Sym::EqEq) => Some((BinOp::Eq, 6)),
        TokModel::Sym(Sym::Ne) => Some((BinOp::Ne, 6)),
        TokModel::Sym(Sym::Lt) => Some((BinOp::Lt, 7)),
        TokModel::Sym(Sym::Gt) => Some((BinOp::Gt, 7)),
        TokModel::Sym(Sym::Le) => Some((BinOp::Le, 7)),
        TokModel::Sym(Sym::Ge) => Some((BinOp::Ge, 7)),
        TokModel::Sym(Sym::Shl) => Some((BinOp::Shl, 8)),
        TokModel::Sym(Sym::Shr) => Some((BinOp::Shr, 8)),
        TokModel::Sym(Sym::Plus) => Some((BinOp::Add, 9)),
        TokModel::Sym(Sym::Minus) => Some((BinOp::Sub, 9)),
        TokModel::Sym(Sym::Star) => Some((BinOp::Mul, 10)),
        TokModel::Sym(Sym::Slash) => Some((BinOp::Div, 10)),
        TokModel::Sym(Sym::Percent) => Some((BinOp::Rem, 10)),
        _ => None,
    }
}

/// Whether the token is an infix operator that binds at least as tightly as `min`.
pub open spec fn binds(t: TokModel, min: int) -> bool {
    infix(t) matches Some((_, tightness)) && tightness >= min
}

/// The prefix operator of a token.
pub open spec fn prefix(t: TokModel) -> Option<UnOp> {
    match t {
        TokModel::Sym(Sym::Bang) => Some(UnOp::Not),
        TokModel::Sym(Sym::Minus) => Some(UnOp::Neg),
        TokModel::Sym(Sym::Tilde) => Some(UnOp::BitNot),
        _ => None,
    }
}

/// How many tokens stand from `p` on.
pub open spec fn remaining(t: Seq<TokModel>, p: int) -> int {
    if p < t.len() {
        t.len() - p
    } else {
        0
    }
}

/// The error where the token at `p` does not fit.
pub open spec fn misfit(t: Seq<TokModel>, p: int) -> ErrorModel {
    if p < t.len() {
        ErrorModel::UnexpectedToken(shown(t[p]))
    } else {
        ErrorModel::UnexpectedEnd
    }
}

/// Whether the token at `p` is the given punctuation.
pub open spec fn stands(t: Seq<TokModel>, p: int, s: Sym) -> bool {
    p < t.len() && t[p] == TokModel::Sym(s)
}

/// A condition with its two branches, or an operation:
/// `ternary := binary ('?' ternary ':' ternary)?`.
pub open spec fn ternary(t: Seq<TokModel>, p: int) -> Result<Parsed, ErrorModel>
    decreases remaining(t, p), 4int,
{
    match operation(t, p, 0) {
        Err(e) => Err(e),
        Ok(c) => if !stands(t, p + c.used, Sym::Question) {
            Ok(c)
        } else {
            match ternary(t, p + c.used + 1) {
                Err(e) => Err(e),
                Ok(a) => if !stands(t, p + c.used + 1 + a.used, Sym::Colon) {
                    Err(misfit(t, p + c.used + 1 + a.used))
                } else {
                    match ternary(t, p + c.used + 1 + a.used + 1) {
                        Err(e) => Err(e),
                        Ok(b) => Ok(
                            Parsed {
                                e: ExprModel::Ternary(Box::new(c.e), Box::new(a.e), Box::new(b.e)),
                                used: c.used + 1 + a.used + 1 + b.used,
                            },
                        ),
                    }
                },
            }
        },
    }
}

/// An operation whose operators bind at least as tightly as `min`.
pub open spec fn operation(t: Seq<TokModel>, p: int, min: int) -> Result<Parsed, ErrorModel>
    decreases remaining(t, p), 3int,
{
    match operand(t, p) {
        Err(e) => Err(e),
        Ok(left) => operation_from(t, p, left, min),
    }
}

/// An operation that begins with `left` at `p`. Operators of one tightness group to the left.
pub open spec fn operation_from(t: Seq<TokModel>, p: int, left: Parsed, min: int) -> Result<
    Parsed,
    ErrorModel,
>
    decreases remaining(t, p + left.used), 2int,
{
    let q = p + left.used;
    if q < t.len() && binds(t[q], min) {
        let (op, tightness) = infix(t[q])->0;
        match operation(t, q + 1, tightness + 1) {
            Err(e) => Err(e),
            Ok(right) => operation_from(
                t,
                p,
                Parsed {
                    e: ExprModel::Binary(op, Box::new(left.e), Box::new(right.e)),
                    used: left.used + 1 + right.used,
                },
                min,
            ),
        }
    } else {
        Ok(left)
    }
}

/// A primary expression behind any number of prefix operators.
pub open spec fn operand(t: Seq<TokModel>, p: int) -> Result<Parsed, ErrorModel>
    decreases remaining(t, p), 1int,
{
    if p < t.len() && prefix(t[p]) is Some {
        match operand(t, p + 1) {
            Err(e) => Err(e),
            Ok(x) => Ok(
                Parsed { e: ExprModel::Unary(prefix(t[p])->0, Box::new(x.e)), used: 1 + x.used },
            ),
        }
    } else {
        primary(t, p)
    }
}

/// A number, a name, a tagged operand, or an expression in parentheses.
pub open spec fn primary(t: Seq<TokModel>, p: int) -> Result<Parsed, ErrorModel>
    decreases remaining(t, p), 0int,
{
    if p >= t.len() {
        Err(ErrorModel::UnexpectedEnd)
    } else {
        match t[p] {
            TokModel::Num(n) => Ok(Parsed { e: ExprModel::Int(n), used: 1 }),
            TokModel::Sym(Sym::LParen) => match ternary(t, p + 1) {
                Err(e) => Err(e),
                Ok(x) => if stands(t, p + 1 + x.used, Sym::RParen) {
                    Ok(Parsed { e: x.e, used: 1 + x.used + 1 })
                } else {
                    Err(misfit(t, p + 1 + x.used))
                },
            },
            TokModel::Sym(_) => Err(misfit(t, p)),
            TokModel::Ident(name) => if (name == "H3"@ || name == "C0"@) && stands(
                t,
                p + 1,
                Sym::Pipe,
            ) {
                match tagged(t, p + 2, name == "C0"@) {
                    Err(e) => Err(e),
                    Ok(e) => Ok(Parsed { e, used: 3 }),
                }
            } else {
                Ok(Parsed { e: ExprModel::Var(name), used: 1 })
            },
        }
    }
}

/// The operand of a tag: for `C0|` a number, for `H3|` a number or a name that stands for a unit.
/// A number counts by its low 32 bits.
pub open spec fn tagged(t: Seq<TokModel>, p: int, command: bool) -> Result<ExprModel, ErrorModel> {
    if p >= t.len() {
        Err(ErrorModel::UnexpectedEnd)
    } else {
        match t[p] {
            TokModel::Num(n) => if command {
                Ok(ExprModel::Command(n as u32))
            } else {
                match unit_of_number(n as u32) {
                    Some(u) => Ok(ExprModel::Unit(u)),
                    None => Err(ErrorModel::BadUnit("0x"@ + numeral(n as u32 as nat, 16))),
                }
            },
            TokModel::Ident(s) => if command {
                Err(ErrorModel::BadCommand(s))
            } else {
                match unit_of_name(s, None) {
                    Some(u) => Ok(ExprModel::Unit(u)),
                    None => Err(ErrorModel::BadUnit(s)),
                }
            },
            TokModel::Sym(_) => Err(misfit(t, p)),
        }
    }
}

/// The expression that a text writes.
pub open spec fn parsed(src: Seq<char>) -> Result<ExprModel, ErrorModel> {
    match lex_from(src, 0) {
        Err(e) => Err(e),
        Ok(t) => match ternary(t, 0) {
            Err(e) => Err(e),
            Ok(x) => if x.used == t.len() {
                Ok(x.e)
            } else {
                Err(misfit(t, x.used as int))
            },
        },
    }
}

// ── the parser ─────────────────────────────────────────────────────────────────

fn infix_of(t: &Tok) -> (r: Option<(BinOp, u8)>)
    ensures
        match r {
            Some((op, n)) => infix(t@) == Some((op, n as int)) && n <= 10,
            None => infix(t@) is None,
        },
{
    match t {
        Tok::Sym(Sym::OrOr) => Some((BinOp::Or, 1)),
        Tok::Sym(Sym::AndAnd) => Some((BinOp::And, 2)),
        Tok::Sym(Sym::Pipe) => Some((BinOp::BitOr, 3)),
        Tok::Sym(Sym::Caret) => Some((BinOp::BitXor, 4)),
        Tok::Sym(Sym::Amp) => Some((BinOp::BitAnd, 5)),
        Tok::Sym(Sym::EqEq) => Some((BinOp::Eq, 6)),
        Tok::Sym(Sym::Ne) => Some((BinOp::Ne, 6)),
        Tok::Sym(Sym::Lt) => Some((BinOp::Lt, 7)),
        Tok::Sym(Sym::Gt) => Some((BinOp::Gt, 7)),
        Tok::Sym(Sym::Le) => Some((BinOp::Le, 7)),
        Tok::Sym(Sym::Ge) => Some((BinOp::Ge, 7)),
        Tok::Sym(Sym::Shl) => Some((BinOp::Shl, 8)),
        Tok::Sym(Sym::Shr) => Some((BinOp::Shr, 8)),
        Tok::Sym(Sym::Plus) => Some((BinOp::Add, 9)),
        Tok::Sym(Sym::Minus) => Some((BinOp::Sub, 9)),
        Tok::Sym(Sym::Star) => Some((BinOp::Mul, 10)),
        Tok::Sym(Sym::Slash) => Some((BinOp::Div, 10)),
        Tok::Sym(Sym::Percent) => Some((BinOp::Rem, 10)),
        _ => None,
    }
}

fn prefix_of(t: &Tok) -> (r: Option<UnOp>)
    ensures
        r == prefix(t@),
{
    match t {
        Tok::Sym(Sym::Bang) => Some(UnOp::Not),
        Tok::Sym(Sym::Minus) => Some(UnOp::Neg),
        Tok::Sym(Sym::Tilde) => Some(UnOp::BitNot),
        _ => None,
    }
}

/// A position in a token vector.
struct Parser {
    tokens: Vec<Tok>,
    pos: usize,
}

/// Whether a parser that stood at `before` and stands at `after` has read what `m` says.
spec fn has_read(
    m: Result<Parsed, ErrorModel>,
    r: Result<Expr, ExprError>,
    before: Parser,
    after: Parser,
) -> bool {
    &&& after.tokens == before.tokens
    &&& after.in_range()
    &&& match r {
        Ok(e) => m matches Ok(x) && x.e == e@ && after.pos == before.pos + x.used,
        Err(e) => m == Err::<Parsed, ErrorModel>(e@),
    }
}

impl Parser {
    spec fn model(self) -> Seq<TokModel> {
        tokens(self.tokens@)
    }

    spec fn in_range(self) -> bool {
        self.pos <= self.tokens@.len()
    }

    /// Whether the next token is the given punctuation.
    fn at(&self, s: Sym) -> (r: bool)
        requires
            self.in_range(),
        ensures
            r == stands(self.model(), self.pos as int, s),
    {
        if self.pos < self.tokens.len() {
            match &self.tokens[self.pos] {
                Tok::Sym(t) => *t == s,
                _ => false,
            }
        } else {
            false
        }
    }

    /// The error where the next token does not fit.
    fn misfit(&self) -> (e: ExprError)
        requires
            self.in_range(),
        ensures
            e@ == misfit(self.model(), self.pos as int),
    {
        if self.pos < self.tokens.len() {
            ExprError::UnexpectedToken(self.tokens[self.pos].show())
        } else {
            ExprError::UnexpectedEnd
        }
    }

    fn parse_ternary(&mut self) -> (r: Result<Expr, ExprError>)
        requires
            old(self).in_range(),
        ensures
            has_read(ternary(old(self).model(), old(self).pos as int), r, *old(self), *final(self)),
        decreases old(self).tokens@.len() - old(self).pos, 4int,
    {
        let cond = match self.parse_binary(0) {
            Ok(e) => e,
            Err(e) => return Err(e),
        };
        if !self.at(Sym::Question) {
            return Ok(cond);
        }
        assert(self.pos < self.tokens.len());
        self.pos = self.pos + 1;
        let then = match self.parse_ternary() {
            Ok(e) => e,
            Err(e) => return Err(e),
        };
        if !self.at(Sym::Colon) {
            return Err(self.misfit());
        }
        assert(self.pos < self.tokens.len());
        self.pos = self.pos + 1;
        let els = match self.parse_ternary() {
            Ok(e) => e,
            Err(e) => return Err(e),
        };
        Ok(Expr::Ternary(Box::new(cond), Box::new(then), Box::new(els)))
    }

    fn parse_binary(&mut self, min: u8) -> (r: Result<Expr, ExprError>)
        requires
            old(self).in_range(),
            min <= 11,
        ensures
            has_read(
                operation(old(self).model(), old(self).pos as int, min as int),
                r,
                *old(self),
                *final(self),
            ),
        decreases old(self).tokens@.len() - old(self).pos, 3int,
    {
        let ghost t = self.model();
        let ghost start = self.pos as int;
        let mut left = match self.parse_unary() {
            Ok(e) => e,
            Err(e) => return Err(e),
        };
        while self.pos < self.tokens.len()
            invariant
                self.in_range(),
                self.tokens == old(self).tokens,
                t == self.model(),
                start == old(self).pos,
                start <= self.pos,
                min <= 11,
                operation(t, start, min as int) == operation_from(
                    t,
                    start,
                    Parsed { e: left@, used: (self.pos - start) as nat },
                    min as int,
                ),
            ensures
                operation(t, start, min as int) == Ok::<Parsed, ErrorModel>(
                    Parsed { e: left@, used: (self.pos - start) as nat },
                ),
            decreases self.tokens@.len() - self.pos,
        {
            let (op, tightness): (BinOp, u8) = match infix_of(&self.tokens[self.pos]) {
                Some(v) => v,
                None => {
                    break;
                },
            };
            if tightness < min {
                break;
            }
            self.pos = self.pos + 1;
            match self.parse_binary(tightness + 1) {
                Ok(right) => {
                    left = Expr::Binary(op, Box::new(left), Box::new(right));
                },
                Err(e) => {
                    return Err(e);
                },
            }
        }
        Ok(left)
    }

    fn parse_unary(&mut self) -> (r: Result<Expr, ExprError>)
        requires
            old(self).in_range(),
        ensures
            has_read(operand(old(self).model(), old(self).pos as int), r, *old(self), *final(self)),
        decreases old(self).tokens@.len() - old(self).pos, 1int,
    {
        let op = if self.pos < self.tokens.len() {
            prefix_of(&self.tokens[self.pos])
        } else {
            None
        };
        match op {
            Some(op) => {
                self.pos = self.pos + 1;
                match self.parse_unary() {
                    Ok(x) => Ok(Expr::Unary(op, Box::new(x))),
                    Err(e) => Err(e),
                }
            },
            None => self.parse_primary(),
        }
    }

    fn parse_primary(&mut self) -> (r: Result<Expr, ExprError>)
        requires
            old(self).in_range(),
        ensures
            has_read(primary(old(self).model(), old(self).pos as int), r, *old(self), *final(self)),
        decreases old(self).tokens@.len() - old(self).pos, 0int,
    {
        if self.pos >= self.tokens.len() {
            return Err(ExprError::UnexpectedEnd);
        }
        let tok = self.tokens[self.pos].clone();
        match tok {
            Tok::Num(n) => {
                self.pos = self.pos + 1;
                Ok(Expr::Int(n))
            },
            Tok::Sym(Sym::LParen) => {
                self.pos = self.pos + 1;
                let e = match self.parse_ternary() {
                    Ok(e) => e,
                    Err(e) => return Err(e),
                };
                if !self.at(Sym::RParen) {
                    return Err(self.misfit());
                }
                self.pos = self.pos + 1;
                Ok(e)
            },
            Tok::Sym(_) => Err(self.misfit()),
            Tok::Ident(name) => {
                self.pos = self.pos + 1;
                let command = same(name.as_str(), "C0");
                if (command || same(name.as_str(), "H3")) && self.at(Sym::Pipe) {
                    self.pos = self.pos + 1;
                    self.parse_tagged(command)
                } else {
                    Ok(Expr::Var(name))
                }
            },
        }
    }

    /// Reads the operand of a tag.
    fn parse_tagged(&mut self, command: bool) -> (r: Result<Expr, ExprError>)
        requires
            old(self).in_range(),
        ensures
            final(self).tokens == old(self).tokens,
            final(self).in_range(),
            match r {
                Ok(e) => tagged(old(self).model(), old(self).pos as int, command) == Ok::<
                    ExprModel,
                    ErrorModel,
                >(e@) && final(self).pos == old(self).pos + 1,
                Err(e) => tagged(old(self).model(), old(self).pos as int, command) == Err::<
                    ExprModel,
                    ErrorModel,
                >(e@),
            },
    {
        if self.pos >= self.tokens.len() {
            return Err(ExprError::UnexpectedEnd);
        }
        let tok = self.tokens[self.pos].clone();
        match tok {
            Tok::Num(n) => {
                self.pos = self.pos + 1;
                let n: u32 = n as u32;
                if command {
                    return Ok(Expr::Command(n));
                }
                match resolve_numeric(n) {
                    Some(u) => Ok(Expr::Unit(u)),
                    None => {
                        let mut s = String::new();
                        s.append("0x");
                        write_numeral(&mut s, n as u64, 16);
                        proof {
                            assert(s@ =~= "0x"@ + numeral(n as nat, 16));
                        }
                        Err(ExprError::BadUnit(s))
                    },
                }
            },
            Tok::Ident(s) => {
                self.pos = self.pos + 1;
                if command {
                    return Err(ExprError::BadCommand(s));
                }
                match resolve_mnemonic(s.as_str(), None) {
                    Some(u) => Ok(Expr::Unit(u)),
                    None => Err(ExprError::BadUnit(s)),
                }
            },
            Tok::Sym(_) => Err(self.misfit()),
        }
    }
}

/// Whether `r` is what `m` says.
pub open spec fn is_parsed(m: Result<ExprModel, ErrorModel>, r: Result<Expr, ExprError>) -> bool {
    match r {
        Ok(e) => m == Ok::<ExprModel, ErrorModel>(e@),
        Err(e) => m == Err::<ExprModel, ErrorModel>(e@),
    }
}

impl Expr {
    /// Reads an expression. The operands of `H3|` and `C0|` are resolved here.
    pub fn parse(src: &str) -> (r: Result<Expr, ExprError>)
        ensures
            is_parsed(parsed(src@), r),
    {
        let toks = match lex(src) {
            Ok(t) => t,
            Err(e) => return Err(e),
        };
        let mut p = Parser { tokens: toks, pos: 0 };
        let e = match p.parse_ternary() {
            Ok(e) => e,
            Err(e) => return Err(e),
        };
        if p.pos != p.tokens.len() {
            return Err(p.misfit());
        }
        Ok(e)
    }
}

/// Reads an expression and evaluates it.
pub fn eval_str(src: &str, ctx: &Ctx) -> (r: Result<Value, ExprError>)
    requires
        parsed(src@) matches Ok(e) ==> defined(e, *ctx),
    ensures
        match parsed(src@) {
            Ok(e) => is_result(evaluate(e, *ctx), r),
            Err(m) => r matches Err(e) && e@ == m,
        },
{
    match Expr::parse(src) {
        Ok(e) => e.eval(ctx),
        Err(e) => Err(e),
    }
}

} // verus!
