//! Value expressions.

use presguel::expr::{eval_str, Ctx, Expr, Value};
use presguel::unit::{Category, Jamo, Unit};

fn ev(src: &str, ctx: &Ctx) -> Value {
    eval_str(src, ctx).unwrap_or_else(|e| panic!("eval {src:?}: {e:?}"))
}

#[test]
fn literals_and_arith() {
    let ctx = Ctx::default();
    assert_eq!(ev("0xB7", &ctx), Value::Int(0xB7));
    assert_eq!(ev("500", &ctx), Value::Int(500));
    assert_eq!(ev("-2", &ctx), Value::Int(-2));
    let shifted = Ctx { p: 1, ..Default::default() };
    assert_eq!(ev("119^(P&1)<<5", &shifted), Value::Int('W' as i64));
    let unshifted = Ctx { p: 0, ..Default::default() };
    assert_eq!(ev("119^(P&1)<<5", &unshifted), Value::Int('w' as i64));
}

#[test]
fn tagged_units() {
    let ctx = Ctx::default();
    assert_eq!(ev("H3|_GG", &ctx), Value::Unit(Unit::Jamo(Jamo::new(Category::Jong, 0x11A9))));
    assert_eq!(ev("H3|O_", &ctx), Value::Unit(Unit::Jamo(Jamo::new(Category::Jung, 0x1169))));
    assert_eq!(ev("H3|0x820000", &ctx), Value::Unit(Unit::Virtual(130)));
    assert_eq!(ev("C0|0x82", &ctx), Value::Command(0x82));
}

#[test]
fn ternary_with_t() {
    let composing = Ctx { t: 1, ..Default::default() };
    assert_eq!(
        ev("T ? H3|_J : 0x23", &composing),
        Value::Unit(Unit::Jamo(Jamo::new(Category::Jong, 0x11BD)))
    );
    let idle = Ctx { t: 0, ..Default::default() };
    assert_eq!(ev("T ? H3|_J : 0x23", &idle), Value::Int(0x23));
    assert_eq!(ev("T ? H3|0x1F4 : 0x24", &composing), Value::Unit(Unit::Toggle));
    assert_eq!(ev("T ? H3|0x1F4 : 0x24", &idle), Value::Int(0x24));
}

#[test]
fn automata_expr_parses_and_evaluates() {
    let src = "A&&A!=500 ? 0 : B||C||A==500 ? 2 : -2";
    assert_eq!(ev(src, &Ctx { a: 0x1100, ..Default::default() }), Value::Int(0));
    assert_eq!(ev(src, &Ctx { c: 0x11A8, ..Default::default() }), Value::Int(2));
    assert_eq!(ev(src, &Ctx { a: 500, ..Default::default() }), Value::Int(2));
    assert_eq!(ev(src, &Ctx::default()), Value::Int(-2));
}

#[test]
fn contains_unit_detects_hangul_keys() {
    assert!(Expr::parse("H3|_GG").unwrap().contains_unit());
    assert!(Expr::parse("T ? H3|_J : 0x23").unwrap().contains_unit());
    assert!(!Expr::parse("119^(P&1)<<5").unwrap().contains_unit());
    assert!(!Expr::parse("0x5B").unwrap().contains_unit());
    assert!(!Expr::parse("C0|0x82").unwrap().contains_unit());
}

#[test]
fn precedence_sanity() {
    let ctx = Ctx::default();
    assert_eq!(ev("1+2*3", &ctx), Value::Int(7));
    assert_eq!(ev("(1+2)*3", &ctx), Value::Int(9));
    assert_eq!(ev("1<2 && 3>2", &ctx), Value::Int(1));
    assert_eq!(ev("0 || 0 || 5", &ctx), Value::Int(1));
    assert_eq!(ev("7 & 3", &ctx), Value::Int(3));
    assert_eq!(ev("1 << 4", &ctx), Value::Int(16));
}
