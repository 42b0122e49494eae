//! The bounds evaluator: literals, operators, precedence, and the failures
//! the grammar demands.

use bounded_integer::eval::{eval_expr, EvalError, Expr};
use bounded_integer::parse::{evaluate, parse_expression, resolve_closed_range, resolve_range};
use bounded_integer::repr::Repr;

#[test]
fn literal() {
    assert_eq!(evaluate("5"), Ok(5));
}

#[test]
fn negation() {
    assert_eq!(evaluate("-3"), Ok(-3));
}

#[test]
fn addition() {
    assert_eq!(evaluate("6+2"), Ok(8));
}

#[test]
fn precedence_mul_over_sub() {
    assert_eq!(evaluate("3*4-1"), Ok(11));
}

#[test]
fn division_by_zero() {
    assert_eq!(evaluate("7/0"), Err(EvalError::DivisionByZero));
}

#[test]
fn unsupported_identifier() {
    assert_eq!(evaluate("x+1"), Err(EvalError::UnsupportedSyntax(0)));
}

#[test]
fn bitwise_not_both_spellings() {
    assert_eq!(evaluate("~0"), Ok(-1));
    assert_eq!(evaluate("!5"), Ok(-6));
}

#[test]
fn bitwise_binary_operators() {
    assert_eq!(evaluate("2^3"), Ok(1));
    assert_eq!(evaluate("6&3"), Ok(2));
    assert_eq!(evaluate("6|3"), Ok(7));
}

#[test]
fn division_and_remainder_truncate() {
    assert_eq!(evaluate("7/2"), Ok(3));
    assert_eq!(evaluate("-7/2"), Ok(-3));
    assert_eq!(evaluate("10%4"), Ok(2));
    assert_eq!(evaluate("-10%4"), Ok(-2));
}

#[test]
fn grouping() {
    assert_eq!(evaluate("(1+2)*3"), Ok(9));
}

#[test]
fn full_precedence_chain() {
    // * binds before &, & before ^, ^ before |.
    assert_eq!(evaluate("1|2^3&4*5"), Ok(1 | (2 ^ (3 & (4 * 5)))));
}

#[test]
fn literal_out_of_range() {
    assert_eq!(
        evaluate("9223372036854775808"),
        Err(EvalError::LiteralOutOfRange(0))
    );
    assert_eq!(evaluate("9223372036854775807"), Ok(i64::MAX));
}

#[test]
fn arithmetic_overflow() {
    assert_eq!(
        evaluate("9223372036854775807+1"),
        Err(EvalError::Overflow)
    );
    assert_eq!(evaluate("--9223372036854775807"), Ok(i64::MAX));
}

#[test]
fn malformed_expressions() {
    assert_eq!(evaluate("1+"), Err(EvalError::Malformed(2)));
    assert_eq!(evaluate("(1"), Err(EvalError::Malformed(2)));
    assert_eq!(evaluate(""), Err(EvalError::Malformed(0)));
    assert_eq!(evaluate("1 2"), Err(EvalError::Malformed(2)));
}

#[test]
fn unsupported_shift_operator() {
    assert_eq!(evaluate("1<<2"), Err(EvalError::UnsupportedSyntax(1)));
}

#[test]
fn whitespace_is_skipped() {
    assert_eq!(evaluate(" 6 + 2 "), Ok(8));
}

#[test]
fn eval_expr_on_built_tree() {
    // (6 + 2) * -1, built directly as the tagged form.
    let e = Expr::Mul(
        Box::new(Expr::Group(Box::new(Expr::Add(
            Box::new(Expr::Literal(6)),
            Box::new(Expr::Literal(2)),
        )))),
        Box::new(Expr::Neg(Box::new(Expr::Literal(1)))),
    );
    assert_eq!(eval_expr(&e), Ok(-8));
}

#[test]
fn parse_builds_expected_tree() {
    let e = parse_expression("6+2").unwrap();
    assert_eq!(
        e,
        Expr::Add(Box::new(Expr::Literal(6)), Box::new(Expr::Literal(2)))
    );
}

#[test]
fn closed_range_inclusive() {
    assert_eq!(resolve_closed_range("3..=7"), Ok((3, 7)));
}

#[test]
fn closed_range_half_open_adjusts_syntactically() {
    assert_eq!(resolve_closed_range("-3..2"), Ok((-3, 1)));
    // The upper expression is arbitrary; the adjustment wraps it whole.
    assert_eq!(resolve_closed_range("-8..6+2"), Ok((-8, 7)));
}

#[test]
fn open_bound_is_refused_for_closed_ranges() {
    assert_eq!(resolve_closed_range("..5"), Err(EvalError::OpenBound));
    assert_eq!(resolve_closed_range("0.."), Err(EvalError::OpenBound));
}

#[test]
fn open_range_takes_representation_extremes() {
    assert_eq!(resolve_range("..", Repr::U8), Ok((0, 255)));
    assert_eq!(resolve_range("1..", Repr::U16), Ok((1, 65535)));
    assert_eq!(resolve_range("..100", Repr::I8), Ok((-128, 99)));
    assert_eq!(resolve_range("-3..2", Repr::I8), Ok((-3, 1)));
}

#[test]
fn error_descriptions() {
    assert_eq!(
        EvalError::UnsupportedSyntax(0).description(),
        "expected simple expression"
    );
    assert_eq!(
        EvalError::DivisionByZero.description(),
        "attempted to divide by zero"
    );
    assert_eq!(
        EvalError::OpenBound.description(),
        "the bounds of the range must be closed"
    );
}
