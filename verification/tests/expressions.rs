//! Reading and evaluating expressions: errors, precedence, and what has no value.

use presguel::expr::lexer::lex;
use presguel::expr::{eval_str, BinOp, Ctx, Expr, ExprError, UnOp, Value};
use presguel::unit::{Category, Jamo, Unit};

fn value(src: &str) -> Value {
    eval_str(src, &Ctx::default()).unwrap()
}

fn error(src: &str) -> ExprError {
    Expr::parse(src).unwrap_err()
}

fn num(n: i64) -> Box<Expr> {
    Box::new(Expr::Int(n))
}

#[test]
fn unexpected_characters_are_placed() {
    assert_eq!(error("1 @ 2"), ExprError::UnexpectedChar('@', 2));
    assert_eq!(error("가"), ExprError::UnexpectedChar('가', 0));
    assert_eq!(error("A = 1"), ExprError::UnexpectedChar('=', 2));
}

#[test]
fn numbers_out_of_range_are_refused() {
    assert_eq!(value("9223372036854775807"), Value::Int(i64::MAX));
    assert_eq!(
        error("9223372036854775808"),
        ExprError::UnexpectedToken("9223372036854775808".to_string())
    );
    assert_eq!(value("0x7fffffffffffffff"), Value::Int(i64::MAX));
    assert_eq!(
        error("0x8000000000000000"),
        ExprError::UnexpectedToken("8000000000000000".to_string())
    );
    assert_eq!(error("0x"), ExprError::UnexpectedToken(String::new()));
    assert_eq!(value("0XfF"), Value::Int(255));
}

#[test]
fn misplaced_tokens_are_shown() {
    assert_eq!(error("1 2"), ExprError::UnexpectedToken("Num(2)".to_string()));
    assert_eq!(error("1 A_b"), ExprError::UnexpectedToken("Ident(\"A_b\")".to_string()));
    assert_eq!(error("(1 :"), ExprError::UnexpectedToken("Colon".to_string()));
    assert_eq!(error("A ? 1 )"), ExprError::UnexpectedToken("RParen".to_string()));
    assert_eq!(error("*1"), ExprError::UnexpectedToken("Star".to_string()));
    assert_eq!(error("H3|<<"), ExprError::UnexpectedToken("Shl".to_string()));
    for (src, name) in [
        ("||", "OrOr"),
        ("&&", "AndAnd"),
        ("==", "EqEq"),
        ("!= 1", "Ne"),
        ("<=", "Le"),
        (">=", "Ge"),
        (">>", "Shr"),
        ("|", "Pipe"),
        ("?", "Question"),
        ("^", "Caret"),
        ("&", "Amp"),
        ("<", "Lt"),
        (">", "Gt"),
        ("+", "Plus"),
        ("/", "Slash"),
        ("%", "Percent"),
    ] {
        assert_eq!(error(src), ExprError::UnexpectedToken(name.to_string()));
    }
    assert_eq!(error("1 ~"), ExprError::UnexpectedToken("Tilde".to_string()));
    assert_eq!(error("1 !"), ExprError::UnexpectedToken("Bang".to_string()));
    assert_eq!(error("1 ("), ExprError::UnexpectedToken("LParen".to_string()));
}

#[test]
fn expressions_that_stop_short() {
    for src in ["", "  ", "1 +", "!", "(1", "A ?", "A ? 1", "A ? 1 :", "H3|", "C0|"] {
        assert_eq!(error(src), ExprError::UnexpectedEnd, "{src:?}");
    }
}

#[test]
fn tagged_operands_are_resolved() {
    assert_eq!(error("H3|0x41"), ExprError::BadUnit("0x41".to_string()));
    assert_eq!(error("H3|XYZ"), ExprError::BadUnit("XYZ".to_string()));
    assert_eq!(error("C0|ABC"), ExprError::BadCommand("ABC".to_string()));
    assert_eq!(value("C0|0x100000001"), Value::Command(1));
    assert_eq!(value("H3|500"), Value::Unit(Unit::Toggle));
    assert_eq!(value("H3|K_"), Value::Unit(Unit::Jamo(Jamo::new(Category::Cho, 0x110F))));
    assert_eq!(Expr::parse("H3").unwrap(), Expr::Var("H3".to_string()));
    assert_eq!(
        Expr::parse("A|1").unwrap(),
        Expr::Binary(BinOp::BitOr, Box::new(Expr::Var("A".to_string())), num(1))
    );
}

#[test]
fn evaluation_errors() {
    let ctx = Ctx::default();
    assert_eq!(eval_str("X", &ctx), Err(ExprError::UnknownVar("X".to_string())));
    assert_eq!(eval_str("-H3|G_", &ctx), Err(ExprError::NotInt));
    assert_eq!(eval_str("1 + C0|1", &ctx), Err(ExprError::NotInt));
    assert_eq!(eval_str("H3|G_ + X", &ctx), Err(ExprError::NotInt));
    assert_eq!(eval_str("X + H3|G_", &ctx), Err(ExprError::UnknownVar("X".to_string())));
}

#[test]
fn every_variable_is_read() {
    let ctx = Ctx { t: 1, p: 2, a: 3, b: 4, c: 5, d: 6, e: 7 };
    for (name, n) in [("T", 1), ("P", 2), ("A", 3), ("B", 4), ("C", 5), ("D", 6), ("E", 7)] {
        assert_eq!(eval_str(name, &ctx), Ok(Value::Int(n)));
        assert_eq!(ctx.var(name), Some(n));
    }
    for name in ["F", "G", "O", "t", "TT"] {
        assert_eq!(eval_str(name, &ctx), Err(ExprError::UnknownVar(name.to_string())));
        assert_eq!(ctx.var(name), None);
    }
}

#[test]
fn operators_of_one_tightness_group_to_the_left() {
    assert_eq!(
        Expr::parse("1-2-3").unwrap(),
        Expr::Binary(BinOp::Sub, Box::new(Expr::Binary(BinOp::Sub, num(1), num(2))), num(3))
    );
    assert_eq!(value("8/4/2"), Value::Int(1));
    assert_eq!(value("7-2+3"), Value::Int(8));
}

#[test]
fn tighter_operators_hold_on_to_their_operands() {
    assert_eq!(
        Expr::parse("1|2^3&4==5<6<<7+8*9").unwrap(),
        Expr::Binary(
            BinOp::BitOr,
            num(1),
            Box::new(Expr::Binary(
                BinOp::BitXor,
                num(2),
                Box::new(Expr::Binary(
                    BinOp::BitAnd,
                    num(3),
                    Box::new(Expr::Binary(
                        BinOp::Eq,
                        num(4),
                        Box::new(Expr::Binary(
                            BinOp::Lt,
                            num(5),
                            Box::new(Expr::Binary(
                                BinOp::Shl,
                                num(6),
                                Box::new(Expr::Binary(
                                    BinOp::Add,
                                    num(7),
                                    Box::new(Expr::Binary(BinOp::Mul, num(8), num(9)))
                                ))
                            ))
                        ))
                    ))
                ))
            ))
        )
    );
    assert_eq!(
        Expr::parse("!-1+2").unwrap(),
        Expr::Binary(
            BinOp::Add,
            Box::new(Expr::Unary(UnOp::Not, Box::new(Expr::Unary(UnOp::Neg, num(1))))),
            num(2)
        )
    );
}

#[test]
fn conditions_nest_to_the_right() {
    assert_eq!(
        Expr::parse("1 ? 2 : 3 ? 4 : 5").unwrap(),
        Expr::Ternary(num(1), num(2), Box::new(Expr::Ternary(num(3), num(4), num(5))))
    );
    assert_eq!(value("0 ? X : 7"), Value::Int(7));
}

#[test]
fn operators_compute() {
    assert_eq!(value("~5"), Value::Int(-6));
    assert_eq!(value("!5"), Value::Int(0));
    assert_eq!(value("!0"), Value::Int(1));
    assert_eq!(value("-7/2"), Value::Int(-3));
    assert_eq!(value("-7%2"), Value::Int(-1));
    assert_eq!(value("7/-2"), Value::Int(-3));
    assert_eq!(value("7%-2"), Value::Int(1));
    assert_eq!(value("-8>>1"), Value::Int(-4));
    assert_eq!(value("1<<63"), Value::Int(i64::MIN));
    assert_eq!(value("6|1"), Value::Int(7));
    assert_eq!(value("6^3"), Value::Int(5));
    assert_eq!(value("1!=2"), Value::Int(1));
    assert_eq!(value("2<=1"), Value::Int(0));
    assert_eq!(value("2>=1"), Value::Int(1));
    assert_eq!(value("2>1"), Value::Int(1));
}

#[test]
fn logic_asks_no_more_than_it_needs() {
    assert_eq!(value("0 && X"), Value::Int(0));
    assert_eq!(value("3 || X"), Value::Int(1));
    assert_eq!(value("3 && 5"), Value::Int(1));
    assert_eq!(value("0 || 0"), Value::Int(0));
    assert_eq!(value("H3|G_ && C0|0"), Value::Int(1));
}

#[test]
fn operations_without_a_result_are_told() {
    let ctx = Ctx { a: i64::MAX, b: i64::MIN, c: -1, ..Default::default() };
    for src in [
        "A+1", "B-1", "A*2", "-B", "1/0", "1%0", "B/C", "B%C", "1<<64", "1>>64", "1<<C", "1>>C",
        "A+1 && 0", "(1/0) ? 1 : 2",
    ] {
        assert_eq!(Expr::parse(src).unwrap().checked_eval(&ctx), None, "{src}");
    }
    for (src, n) in [("A+0", i64::MAX), ("B+1", i64::MIN + 1), ("0 && 1/0", 0), ("1 ? 2 : 1/0", 2)] {
        assert_eq!(
            Expr::parse(src).unwrap().checked_eval(&ctx),
            Some(Ok(Value::Int(n))),
            "{src}"
        );
    }
    assert_eq!(
        Expr::parse("X/0").unwrap().checked_eval(&ctx),
        Some(Err(ExprError::UnknownVar("X".to_string())))
    );
}

#[test]
fn clones_are_equal() {
    let e = Expr::parse("T ? H3|_J : -A + C0|1").unwrap();
    assert_eq!(e.clone(), e);
}

#[test]
fn white_space_means_nothing() {
    assert_eq!(Expr::parse(" 1\t+\u{3000}2\n"), Expr::parse("1+2"));
    assert_eq!(error("1\u{200B}+2"), ExprError::UnexpectedChar('\u{200B}', 1));
}

#[test]
fn spaces_part_tokens() {
    for (a, b) in [("1", "2"), ("0x1F", "G_"), ("A|", "|B"), ("<", "<"), ("H3|G", "_"), ("T ?", ":x"), ("", "7")] {
        for space in [" ", "\t", "\n"] {
            let mut both = lex(a).unwrap();
            both.extend(lex(b).unwrap());
            assert_eq!(lex(&format!("{a}{space}{b}")).unwrap(), both);
        }
    }
    assert_eq!(lex("1 2").unwrap().len(), 2);
    assert_eq!(lex("12").unwrap().len(), 1);
}

#[test]
fn other_variables_do_not_count() {
    let a = Ctx { t: 1, a: 3, ..Default::default() };
    let b = Ctx { p: 9, b: 8, c: 7, d: 6, e: 5, ..a };
    for text in ["T + A", "A ? T : X", "T << A", "X", "H3|G_ + T"] {
        assert_eq!(eval_str(text, &a), eval_str(text, &b));
    }
    assert_eq!(eval_str("T + A", &b), Ok(Value::Int(4)));
}
