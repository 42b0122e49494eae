//! The bounds evaluator: a restricted constant-expression form and its
//! recursive evaluation, strictly typed to a 64-bit signed accumulator.

use vstd::prelude::*;

verus! {

/// A restricted constant expression: an integer literal, negation, bitwise
/// not, the five arithmetic operators, the three bitwise binary operators,
/// and transparent grouping. Anything else never reaches this form: the
/// parser rejects it.
#[derive(Debug, PartialEq, Eq)]
pub enum Expr {
    Literal(i64),
    Neg(Box<Expr>),
    Not(Box<Expr>),
    Add(Box<Expr>, Box<Expr>),
    Sub(Box<Expr>, Box<Expr>),
    Mul(Box<Expr>, Box<Expr>),
    Div(Box<Expr>, Box<Expr>),
    Rem(Box<Expr>, Box<Expr>),
    Xor(Box<Expr>, Box<Expr>),
    And(Box<Expr>, Box<Expr>),
    Or(Box<Expr>, Box<Expr>),
    Group(Box<Expr>),
}

/// Why resolving a bound expression failed.
#[derive(Debug, Clone, Copy, PartialEq, Eq, Structural)]
pub enum EvalError {
    /// A construct outside the expression grammar — an identifier, another
    /// literal kind, an unsupported operator — stands at the given character
    /// offset.
    UnsupportedSyntax(usize),
    /// The expression's shape is broken at the given character offset: a
    /// missing operand, an unbalanced parenthesis, or trailing input.
    Malformed(usize),
    /// The integer literal at the given character offset does not fit the
    /// evaluator's accumulator.
    LiteralOutOfRange(usize),
    /// A divisor expression evaluated to zero.
    DivisionByZero,
    /// An intermediate value left the accumulator's width.
    Overflow,
    /// A range that must have both bounds closed omitted one.
    OpenBound,
}

impl EvalError {
    /// A short description of the failure, naming the unsupported construct
    /// class where there is one.
    pub fn description(&self) -> (r: &'static str)
        ensures
            r == self.description_spec(),
    {
        match self {
            EvalError::UnsupportedSyntax(_) => "expected simple expression",
            EvalError::Malformed(_) => "malformed expression",
            EvalError::LiteralOutOfRange(_) => "integer literal out of range",
            EvalError::DivisionByZero => "attempted to divide by zero",
            EvalError::Overflow => "arithmetic overflow in constant expression",
            EvalError::OpenBound => "the bounds of the range must be closed",
        }
    }

    /// The description each failure carries.
    pub open spec fn description_spec(&self) -> &'static str {
        match self {
            EvalError::UnsupportedSyntax(_) => "expected simple expression",
            EvalError::Malformed(_) => "malformed expression",
            EvalError::LiteralOutOfRange(_) => "integer literal out of range",
            EvalError::DivisionByZero => "attempted to divide by zero",
            EvalError::Overflow => "arithmetic overflow in constant expression",
            EvalError::OpenBound => "the bounds of the range must be closed",
        }
    }
}

/// What evaluation produces: the value of the expression in the accumulator,
/// the left operand's failure before the right one's, a division-by-zero
/// failure on a zero divisor, and an overflow failure whenever a step leaves
/// the accumulator's width.
pub open spec fn eval_spec(e: Expr) -> Result<i64, EvalError>
    decreases e,
{
    match e {
        Expr::Literal(n) => Ok(n),
        Expr::Neg(a) => match eval_spec(*a) {
            Ok(v) => if v == i64::MIN {
                Err(EvalError::Overflow)
            } else {
                Ok((-v) as i64)
            },
            Err(err) => Err(err),
        },
        Expr::Not(a) => match eval_spec(*a) {
            Ok(v) => Ok((-1 - v) as i64),
            Err(err) => Err(err),
        },
        Expr::Add(a, b) => match eval_spec(*a) {
            Ok(x) => match eval_spec(*b) {
                Ok(y) => if x + y < i64::MIN || x + y > i64::MAX {
                    Err(EvalError::Overflow)
                } else {
                    Ok((x + y) as i64)
                },
                Err(err) => Err(err),
            },
            Err(err) => Err(err),
        },
        Expr::Sub(a, b) => match eval_spec(*a) {
            Ok(x) => match eval_spec(*b) {
                Ok(y) => if x - y < i64::MIN || x - y > i64::MAX {
                    Err(EvalError::Overflow)
                } else {
                    Ok((x - y) as i64)
                },
                Err(err) => Err(err),
            },
            Err(err) => Err(err),
        },
        Expr::Mul(a, b) => match eval_spec(*a) {
            Ok(x) => match eval_spec(*b) {
                Ok(y) => if x * y < i64::MIN || x * y > i64::MAX {
                    Err(EvalError::Overflow)
                } else {
                    Ok((x * y) as i64)
                },
                Err(err) => Err(err),
            },
            Err(err) => Err(err),
        },
        Expr::Div(a, b) => match eval_spec(*a) {
            Ok(x) => match eval_spec(*b) {
                Ok(y) => if y == 0 {
                    Err(EvalError::DivisionByZero)
                } else {
                    match x.checked_div(y) {
                        Some(q) => Ok(q),
                        None => Err(EvalError::Overflow),
                    }
                },
                Err(err) => Err(err),
            },
            Err(err) => Err(err),
        },
        Expr::Rem(a, b) => match eval_spec(*a) {
            Ok(x) => match eval_spec(*b) {
                Ok(y) => if y == 0 {
                    Err(EvalError::DivisionByZero)
                } else {
                    match x.checked_rem(y) {
                        Some(m) => Ok(m),
                        None => Err(EvalError::Overflow),
                    }
                },
                Err(err) => Err(err),
            },
            Err(err) => Err(err),
        },
        Expr::Xor(a, b) => match eval_spec(*a) {
            Ok(x) => match eval_spec(*b) {
                Ok(y) => Ok(x ^ y),
                Err(err) => Err(err),
            },
            Err(err) => Err(err),
        },
        Expr::And(a, b) => match eval_spec(*a) {
            Ok(x) => match eval_spec(*b) {
                Ok(y) => Ok(x & y),
                Err(err) => Err(err),
            },
            Err(err) => Err(err),
        },
        Expr::Or(a, b) => match eval_spec(*a) {
            Ok(x) => match eval_spec(*b) {
                Ok(y) => Ok(x | y),
                Err(err) => Err(err),
            },
            Err(err) => Err(err),
        },
        Expr::Group(a) => eval_spec(*a),
    }
}

/// Evaluates a bound expression by recursive descent over its form.
pub fn eval_expr(e: &Expr) -> (r: Result<i64, EvalError>)
    ensures
        r == eval_spec(*e),
    decreases *e,
{
    match e {
        Expr::Literal(n) => Ok(*n),
        Expr::Neg(a) => match eval_expr(&**a) {
            Ok(v) => if v == i64::MIN {
                Err(EvalError::Overflow)
            } else {
                Ok(-v)
            },
            Err(err) => Err(err),
        },
        Expr::Not(a) => match eval_expr(&**a) {
            Ok(v) => Ok(-1 - v),
            Err(err) => Err(err),
        },
        Expr::Add(a, b) => match (eval_expr(&**a), eval_expr(&**b)) {
            (Ok(x), Ok(y)) => match x.checked_add(y) {
                Some(s) => Ok(s),
                None => Err(EvalError::Overflow),
            },
            (Err(err), _) => Err(err),
            (_, Err(err)) => Err(err),
        },
        Expr::Sub(a, b) => match (eval_expr(&**a), eval_expr(&**b)) {
            (Ok(x), Ok(y)) => match x.checked_sub(y) {
                Some(s) => Ok(s),
                None => Err(EvalError::Overflow),
            },
            (Err(err), _) => Err(err),
            (_, Err(err)) => Err(err),
        },
        Expr::Mul(a, b) => match (eval_expr(&**a), eval_expr(&**b)) {
            (Ok(x), Ok(y)) => match x.checked_mul(y) {
                Some(s) => Ok(s),
                None => Err(EvalError::Overflow),
            },
            (Err(err), _) => Err(err),
            (_, Err(err)) => Err(err),
        },
        Expr::Div(a, b) => match (eval_expr(&**a), eval_expr(&**b)) {
            (Ok(x), Ok(y)) => if y == 0 {
                Err(EvalError::DivisionByZero)
            } else {
                match x.checked_div(y) {
                    Some(q) => Ok(q),
                    None => Err(EvalError::Overflow),
                }
            },
            (Err(err), _) => Err(err),
            (_, Err(err)) => Err(err),
        },
        Expr::Rem(a, b) => match (eval_expr(&**a), eval_expr(&**b)) {
            (Ok(x), Ok(y)) => if y == 0 {
                Err(EvalError::DivisionByZero)
            } else {
                match x.checked_rem(y) {
                    Some(m) => Ok(m),
                    None => Err(EvalError::Overflow),
                }
            },
            (Err(err), _) => Err(err),
            (_, Err(err)) => Err(err),
        },
        Expr::Xor(a, b) => match (eval_expr(&**a), eval_expr(&**b)) {
            (Ok(x), Ok(y)) => Ok(x ^ y),
            (Err(err), _) => Err(err),
            (_, Err(err)) => Err(err),
        },
        Expr::And(a, b) => match (eval_expr(&**a), eval_expr(&**b)) {
            (Ok(x), Ok(y)) => Ok(x & y),
            (Err(err), _) => Err(err),
            (_, Err(err)) => Err(err),
        },
        Expr::Or(a, b) => match (eval_expr(&**a), eval_expr(&**b)) {
            (Ok(x), Ok(y)) => Ok(x | y),
            (Err(err), _) => Err(err),
            (_, Err(err)) => Err(err),
        },
        Expr::Group(a) => eval_expr(&**a),
    }
}

} // verus!
