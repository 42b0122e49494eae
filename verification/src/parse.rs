//! Parsing of bound expressions and range expressions: a lexer and a
//! recursive-descent parser over the restricted grammar, with every
//! executable step mirrored by a specification-level function.

use vstd::prelude::*;

use crate::eval::{eval_spec, eval_expr, EvalError, Expr};
use crate::repr::Repr;
use vstd::string::StrSliceExecFns;

verus! {

/// One lexeme of the restricted grammar. `!` and `~` both stand for bitwise
/// not and lex to the same token.
#[derive(Debug, Clone, Copy, PartialEq, Eq, Structural)]
pub enum TokenKind {
    Int(i64),
    Plus,
    Minus,
    Star,
    Slash,
    Percent,
    Caret,
    Amp,
    Pipe,
    Tilde,
    LParen,
    RParen,
    DotDot,
    DotDotEq,
}

/// A lexeme together with the character offset it starts at.
#[derive(Debug, Clone, Copy, PartialEq, Eq, Structural)]
pub struct Token {
    pub kind: TokenKind,
    pub pos: usize,
}

/// A range expression as written: two optional bound expressions around
/// `..` or `..=`.
#[derive(Debug, PartialEq, Eq)]
pub struct RangeExpr {
    /// The lower bound, absent in `..b`.
    pub lo: Option<Expr>,
    /// The upper bound, absent in `a..`, still unadjusted for openness.
    pub hi: Option<Expr>,
    /// Whether the range was written `..=` (closed) rather than `..` (the
    /// upper bound excluded).
    pub inclusive: bool,
}

/// Whitespace between lexemes.
pub open spec fn is_space_char(c: char) -> bool {
    c == ' ' || c == '\t' || c == '\n' || c == '\r'
}

/// A decimal digit.
pub open spec fn is_digit_char(c: char) -> bool {
    48 <= c as u32 <= 57
}

/// A digit's value.
pub open spec fn digit_val(c: char) -> int {
    c as u32 - 48
}

/// Scans a decimal literal that started at `start`, left to right with the
/// usual base-ten accumulation, failing once the accumulator would leave the
/// 64-bit signed width.
pub open spec fn lex_int_spec(s: Seq<char>, start: usize, i: int, acc: int) -> Result<
    (i64, int),
    EvalError,
>
    decreases s.len() - i,
    when 0 <= i <= s.len() && 0 <= acc <= i64::MAX
{
    if i >= s.len() || !is_digit_char(s[i]) {
        Ok((acc as i64, i))
    } else {
        let d = digit_val(s[i]);
        if acc * 10 + d > i64::MAX {
            Err(EvalError::LiteralOutOfRange(start))
        } else {
            lex_int_spec(s, start, i + 1, acc * 10 + d)
        }
    }
}

/// Scans the input from `i` on into lexemes; any character outside the
/// grammar fails with its offset.
pub open spec fn lex_spec(s: Seq<char>, i: int) -> Result<Seq<Token>, EvalError>
    decreases s.len() - i,
    when 0 <= i <= s.len()
{
    if i >= s.len() {
        Ok(Seq::empty())
    } else {
        let c = s[i];
        if is_space_char(c) {
            lex_spec(s, i + 1)
        } else if is_digit_char(c) {
            match lex_int_spec(s, i as usize, i, 0) {
                Ok((v, j)) => if j <= i || j > s.len() {
                    Err(EvalError::UnsupportedSyntax(i as usize))
                } else {
                    match lex_spec(s, j) {
                        Ok(rest) => Ok(
                            seq![Token { kind: TokenKind::Int(v), pos: i as usize }] + rest,
                        ),
                        Err(err) => Err(err),
                    }
                },
                Err(err) => Err(err),
            }
        } else if c == '.' {
            if i + 2 < s.len() && s[i + 1] == '.' && s[i + 2] == '=' {
                match lex_spec(s, i + 3) {
                    Ok(rest) => Ok(
                        seq![Token { kind: TokenKind::DotDotEq, pos: i as usize }] + rest,
                    ),
                    Err(err) => Err(err),
                }
            } else if i + 1 < s.len() && s[i + 1] == '.' {
                match lex_spec(s, i + 2) {
                    Ok(rest) => Ok(seq![Token { kind: TokenKind::DotDot, pos: i as usize }] + rest),
                    Err(err) => Err(err),
                }
            } else {
                Err(EvalError::UnsupportedSyntax(i as usize))
            }
        } else {
            let kind = if c == '+' {
                Some(TokenKind::Plus)
            } else if c == '-' {
                Some(TokenKind::Minus)
            } else if c == '*' {
                Some(TokenKind::Star)
            } else if c == '/' {
                Some(TokenKind::Slash)
            } else if c == '%' {
                Some(TokenKind::Percent)
            } else if c == '^' {
                Some(TokenKind::Caret)
            } else if c == '&' {
                Some(TokenKind::Amp)
            } else if c == '|' {
                Some(TokenKind::Pipe)
            } else if c == '!' || c == '~' {
                Some(TokenKind::Tilde)
            } else if c == '(' {
                Some(TokenKind::LParen)
            } else if c == ')' {
                Some(TokenKind::RParen)
            } else {
                None
            };
            match kind {
                Some(k) => match lex_spec(s, i + 1) {
                    Ok(rest) => Ok(seq![Token { kind: k, pos: i as usize }] + rest),
                    Err(err) => Err(err),
                },
                None => Err(EvalError::UnsupportedSyntax(i as usize)),
            }
        }
    }
}

/// The offset to blame when the input ends too early: one past its last
/// character.
pub open spec fn level_of(t: TokenKind) -> int {
    match t {
        TokenKind::Pipe => 5,
        TokenKind::Caret => 4,
        TokenKind::Amp => 3,
        TokenKind::Plus => 2,
        TokenKind::Minus => 2,
        TokenKind::Star => 1,
        TokenKind::Slash => 1,
        TokenKind::Percent => 1,
        _ => 0,
    }
}

/// The expression a binary operator token builds.
pub open spec fn apply_bin(t: TokenKind, a: Expr, b: Expr) -> Expr {
    match t {
        TokenKind::Plus => Expr::Add(Box::new(a), Box::new(b)),
        TokenKind::Minus => Expr::Sub(Box::new(a), Box::new(b)),
        TokenKind::Star => Expr::Mul(Box::new(a), Box::new(b)),
        TokenKind::Slash => Expr::Div(Box::new(a), Box::new(b)),
        TokenKind::Percent => Expr::Rem(Box::new(a), Box::new(b)),
        TokenKind::Caret => Expr::Xor(Box::new(a), Box::new(b)),
        TokenKind::Amp => Expr::And(Box::new(a), Box::new(b)),
        TokenKind::Pipe => Expr::Or(Box::new(a), Box::new(b)),
        _ => Expr::Literal(0),
    }
}

/// An atom: an integer literal or a parenthesized subexpression.
pub open spec fn parse_atom_spec(toks: Seq<Token>, end: usize, i: int) -> Result<
    (Expr, int),
    EvalError,
>
    decreases toks.len() - i, 0int,
    when 0 <= i <= toks.len()
{
    if i >= toks.len() {
        Err(EvalError::Malformed(end))
    } else {
        match toks[i].kind {
            TokenKind::Int(v) => Ok((Expr::Literal(v), i + 1)),
            TokenKind::LParen => match parse_binary_spec(5, toks, end, i + 1) {
                Ok((inner, j)) => if i + 1 <= j < toks.len() && toks[j].kind == TokenKind::RParen {
                    Ok((Expr::Group(Box::new(inner)), j + 1))
                } else if 0 <= j < toks.len() {
                    Err(EvalError::Malformed(toks[j].pos))
                } else {
                    Err(EvalError::Malformed(end))
                },
                Err(err) => Err(err),
            },
            _ => Err(EvalError::Malformed(toks[i].pos)),
        }
    }
}

/// A unary chain: any number of negations and bitwise nots before an atom.
pub open spec fn parse_unary_spec(toks: Seq<Token>, end: usize, i: int) -> Result<
    (Expr, int),
    EvalError,
>
    decreases toks.len() - i, 1int,
    when 0 <= i <= toks.len()
{
    if i < toks.len() && toks[i].kind == TokenKind::Minus {
        match parse_unary_spec(toks, end, i + 1) {
            Ok((inner, j)) => Ok((Expr::Neg(Box::new(inner)), j)),
            Err(err) => Err(err),
        }
    } else if i < toks.len() && toks[i].kind == TokenKind::Tilde {
        match parse_unary_spec(toks, end, i + 1) {
            Ok((inner, j)) => Ok((Expr::Not(Box::new(inner)), j)),
            Err(err) => Err(err),
        }
    } else {
        parse_atom_spec(toks, end, i)
    }
}

/// One precedence level of left-associative binary operators; level `0` is
/// the unary chain, level `5` the whole expression.
pub open spec fn parse_binary_spec(l: int, toks: Seq<Token>, end: usize, i: int) -> Result<
    (Expr, int),
    EvalError,
>
    decreases toks.len() - i, 2 * l + 2,
    when 0 <= i <= toks.len() && 0 <= l <= 5
{
    if l == 0 {
        parse_unary_spec(toks, end, i)
    } else {
        match parse_binary_spec(l - 1, toks, end, i) {
            Ok((lhs, j)) => if i < j <= toks.len() {
                parse_bin_tail_spec(l, lhs, toks, end, j)
            } else {
                Err(EvalError::Malformed(end))
            },
            Err(err) => Err(err),
        }
    }
}

/// The left-associative continuation of one binary level: folds further
/// operands of the same precedence onto `lhs`.
pub open spec fn parse_bin_tail_spec(
    l: int,
    lhs: Expr,
    toks: Seq<Token>,
    end: usize,
    i: int,
) -> Result<(Expr, int), EvalError>
    decreases toks.len() - i, 2 * l + 3,
    when 0 <= i <= toks.len() && 1 <= l <= 5
{
    if i < toks.len() && level_of(toks[i].kind) == l {
        match parse_binary_spec(l - 1, toks, end, i + 1) {
            Ok((rhs, j)) => if i + 1 <= j <= toks.len() {
                parse_bin_tail_spec(l, apply_bin(toks[i].kind, lhs, rhs), toks, end, j)
            } else {
                Err(EvalError::Malformed(end))
            },
            Err(err) => Err(err),
        }
    } else {
        Ok((lhs, i))
    }
}

/// A whole expression: the top binary level, with nothing allowed to trail.
pub open spec fn parse_tokens_spec(toks: Seq<Token>, end: usize) -> Result<Expr, EvalError> {
    match parse_binary_spec(5, toks, end, 0) {
        Ok((e, j)) => if j == toks.len() {
            Ok(e)
        } else if 0 <= j < toks.len() {
            Err(EvalError::Malformed(toks[j].pos))
        } else {
            Err(EvalError::Malformed(end))
        },
        Err(err) => Err(err),
    }
}

/// Whether a token opens the `..` / `..=` separator of a range.
pub open spec fn is_dots(t: TokenKind) -> bool {
    t == TokenKind::DotDot || t == TokenKind::DotDotEq
}

/// A whole range: an optional bound expression, `..` or `..=`, and an
/// optional bound expression, with nothing allowed to trail.
pub open spec fn parse_range_tokens_spec(toks: Seq<Token>, end: usize) -> Result<
    RangeExpr,
    EvalError,
> {
    if toks.len() == 0 {
        Err(EvalError::Malformed(end))
    } else {
        let lo_part: Result<(Option<Expr>, int), EvalError> = if is_dots(toks[0].kind) {
            Ok((None, 0))
        } else {
            match parse_binary_spec(5, toks, end, 0) {
                Ok((e, j)) => Ok((Some(e), j)),
                Err(err) => Err(err),
            }
        };
        match lo_part {
            Ok((lo, i)) => if 0 <= i < toks.len() && is_dots(toks[i].kind) {
                let inclusive = toks[i].kind == TokenKind::DotDotEq;
                if i + 1 == toks.len() {
                    Ok(RangeExpr { lo, hi: None, inclusive })
                } else {
                    match parse_binary_spec(5, toks, end, i + 1) {
                        Ok((e, m)) => if m == toks.len() {
                            Ok(RangeExpr { lo, hi: Some(e), inclusive })
                        } else if 0 <= m < toks.len() {
                            Err(EvalError::Malformed(toks[m].pos))
                        } else {
                            Err(EvalError::Malformed(end))
                        },
                        Err(err) => Err(err),
                    }
                }
            } else if 0 <= i < toks.len() {
                Err(EvalError::Malformed(toks[i].pos))
            } else {
                Err(EvalError::Malformed(end))
            },
            Err(err) => Err(err),
        }
    }
}

/// What parsing a whole input produces.
pub open spec fn parse_expression_spec(s: Seq<char>) -> Result<Expr, EvalError> {
    match lex_spec(s, 0) {
        Ok(toks) => parse_tokens_spec(toks, s.len() as usize),
        Err(err) => Err(err),
    }
}

/// What evaluating a whole input produces: its parse, evaluated.
pub open spec fn evaluate_spec(s: Seq<char>) -> Result<i64, EvalError> {
    match parse_expression_spec(s) {
        Ok(e) => eval_spec(e),
        Err(err) => Err(err),
    }
}

/// What parsing a whole input as a range produces.
pub open spec fn parse_range_spec(s: Seq<char>) -> Result<RangeExpr, EvalError> {
    match lex_spec(s, 0) {
        Ok(toks) => parse_range_tokens_spec(toks, s.len() as usize),
        Err(err) => Err(err),
    }
}

/// The upper bound to evaluate: untouched when the range is closed, and
/// wrapped — at the syntactic level, before any evaluation — as "upper minus
/// one" when the range excludes its upper bound.
pub open spec fn normalized_hi(r: RangeExpr) -> Expr
    recommends
        r.hi is Some,
{
    if r.inclusive {
        r.hi->0
    } else {
        Expr::Sub(Box::new(r.hi->0), Box::new(Expr::Literal(1)))
    }
}

/// What resolving a range that must have both bounds closed produces: both
/// endpoints evaluated, the lower first, after the syntactic openness
/// adjustment.
pub open spec fn resolve_closed_range_spec(s: Seq<char>) -> Result<(i64, i64), EvalError> {
    match parse_range_spec(s) {
        Ok(r) => if r.lo is None || r.hi is None {
            Err(EvalError::OpenBound)
        } else {
            match eval_spec(r.lo->0) {
                Ok(lov) => match eval_spec(normalized_hi(r)) {
                    Ok(hiv) => Ok((lov, hiv)),
                    Err(err) => Err(err),
                },
                Err(err) => Err(err),
            }
        },
        Err(err) => Err(err),
    }
}

/// What resolving a possibly open range over a representation produces: an
/// omitted endpoint defaults to the representation's native extreme on that
/// side, a present one is evaluated after the openness adjustment.
pub open spec fn resolve_range_spec(s: Seq<char>, repr: Repr) -> Result<(i128, i128), EvalError> {
    match parse_range_spec(s) {
        Ok(r) => {
            let lo_res: Result<i128, EvalError> = match r.lo {
                Some(e) => match eval_spec(e) {
                    Ok(v) => Ok(v as i128),
                    Err(err) => Err(err),
                },
                None => Ok(repr.min_spec() as i128),
            };
            match lo_res {
                Ok(lov) => match r.hi {
                    Some(_) => match eval_spec(normalized_hi(r)) {
                        Ok(v) => Ok((lov, v as i128)),
                        Err(err) => Err(err),
                    },
                    None => Ok((lov, repr.max_spec() as i128)),
                },
                Err(err) => Err(err),
            }
        },
        Err(err) => Err(err),
    }
}

/// Agreement between an executable parse result, indexed by `usize`, and its
/// specification, indexed by `int`.
pub open spec fn agrees<T>(r: Result<(T, usize), EvalError>, sp: Result<(T, int), EvalError>) -> bool {
    match (r, sp) {
        (Ok((v, j)), Ok((v2, j2))) => v == v2 && j == j2,
        (Err(a), Err(b)) => a == b,
        _ => false,
    }
}

/// Agreement between an executable token vector and the lexed sequence.
pub open spec fn lex_agrees(r: Result<Vec<Token>, EvalError>, sp: Result<Seq<Token>, EvalError>) -> bool {
    match (r, sp) {
        (Ok(v), Ok(sq)) => v@ == sq,
        (Err(a), Err(b)) => a == b,
        _ => false,
    }
}

/// Scans one decimal literal.
fn lex_int(s: &str, len: usize, start: usize, i: usize, acc: i64) -> (r: Result<
    (i64, usize),
    EvalError,
>)
    requires
        len == s@.len(),
        start <= i <= len,
        0 <= acc,
    ensures
        agrees(r, lex_int_spec(s@, start, i as int, acc as int)),
    decreases len - i,
{
    if i >= len {
        return Ok((acc, i));
    }
    let c = s.get_char(i);
    let u = c as u32;
    if u < 48 || u > 57 {
        return Ok((acc, i));
    }
    let d = (u - 48) as i64;
    let next = match acc.checked_mul(10) {
        Some(m) => match m.checked_add(d) {
            Some(n) => n,
            None => {
                return Err(EvalError::LiteralOutOfRange(start));
            },
        },
        None => {
            return Err(EvalError::LiteralOutOfRange(start));
        },
    };
    lex_int(s, len, start, i + 1, next)
}

/// Scans the input from `i` on into lexemes.
fn lex_from(s: &str, len: usize, i: usize) -> (r: Result<Vec<Token>, EvalError>)
    requires
        len == s@.len(),
        i <= len,
    ensures
        lex_agrees(r, lex_spec(s@, i as int)),
    decreases len - i,
{
    if i >= len {
        return Ok(Vec::new());
    }
    let c = s.get_char(i);
    if c == ' ' || c == '\t' || c == '\n' || c == '\r' {
        return lex_from(s, len, i + 1);
    }
    let u = c as u32;
    if 48 <= u && u <= 57 {
        return match lex_int(s, len, i, i, 0) {
            Ok((v, j)) => if j <= i || j > len {
                Err(EvalError::UnsupportedSyntax(i))
            } else {
                match lex_from(s, len, j) {
                    Ok(rest) => {
                        let ghost tail = rest@;
                        let mut out = rest;
                        out.insert(0, Token { kind: TokenKind::Int(v), pos: i });
                        proof {
                            assert(out@ =~= seq![Token { kind: TokenKind::Int(v), pos: i }]
                                + tail);
                        }
                        Ok(out)
                    },
                    Err(err) => Err(err),
                }
            },
            Err(err) => Err(err),
        };
    }
    if c == '.' {
        if len - i > 2 && s.get_char(i + 1) == '.' && s.get_char(i + 2) == '=' {
            return match lex_from(s, len, i + 3) {
                Ok(rest) => {
                    let ghost tail = rest@;
                    let mut out = rest;
                    out.insert(0, Token { kind: TokenKind::DotDotEq, pos: i });
                    proof {
                        assert(out@ =~= seq![Token { kind: TokenKind::DotDotEq, pos: i }] + tail);
                    }
                    Ok(out)
                },
                Err(err) => Err(err),
            };
        }
        if len - i > 1 && s.get_char(i + 1) == '.' {
            return match lex_from(s, len, i + 2) {
                Ok(rest) => {
                    let ghost tail = rest@;
                    let mut out = rest;
                    out.insert(0, Token { kind: TokenKind::DotDot, pos: i });
                    proof {
                        assert(out@ =~= seq![Token { kind: TokenKind::DotDot, pos: i }] + tail);
                    }
                    Ok(out)
                },
                Err(err) => Err(err),
            };
        }
        return Err(EvalError::UnsupportedSyntax(i));
    }
    let kind: Option<TokenKind> = if c == '+' {
        Some(TokenKind::Plus)
    } else if c == '-' {
        Some(TokenKind::Minus)
    } else if c == '*' {
        Some(TokenKind::Star)
    } else if c == '/' {
        Some(TokenKind::Slash)
    } else if c == '%' {
        Some(TokenKind::Percent)
    } else if c == '^' {
        Some(TokenKind::Caret)
    } else if c == '&' {
        Some(TokenKind::Amp)
    } else if c == '|' {
        Some(TokenKind::Pipe)
    } else if c == '!' || c == '~' {
        Some(TokenKind::Tilde)
    } else if c == '(' {
        Some(TokenKind::LParen)
    } else if c == ')' {
        Some(TokenKind::RParen)
    } else {
        None
    };
    match kind {
        Some(k) => match lex_from(s, len, i + 1) {
            Ok(rest) => {
                let ghost tail = rest@;
                let mut out = rest;
                out.insert(0, Token { kind: k, pos: i });
                proof {
                    assert(out@ =~= seq![Token { kind: k, pos: i }] + tail);
                }
                Ok(out)
            },
            Err(err) => Err(err),
        },
        None => Err(EvalError::UnsupportedSyntax(i)),
    }
}

/// The precedence level a token binds at; `0` marks a token that is no
/// binary operator.
fn token_level(t: TokenKind) -> (r: u8)
    ensures
        r as int == level_of(t),
{
    match t {
        TokenKind::Pipe => 5,
        TokenKind::Caret => 4,
        TokenKind::Amp => 3,
        TokenKind::Plus => 2,
        TokenKind::Minus => 2,
        TokenKind::Star => 1,
        TokenKind::Slash => 1,
        TokenKind::Percent => 1,
        _ => 0,
    }
}

/// Builds the expression a binary operator token stands for.
fn make_bin(t: TokenKind, a: Expr, b: Expr) -> (r: Expr)
    ensures
        r == apply_bin(t, a, b),
{
    match t {
        TokenKind::Plus => Expr::Add(Box::new(a), Box::new(b)),
        TokenKind::Minus => Expr::Sub(Box::new(a), Box::new(b)),
        TokenKind::Star => Expr::Mul(Box::new(a), Box::new(b)),
        TokenKind::Slash => Expr::Div(Box::new(a), Box::new(b)),
        TokenKind::Percent => Expr::Rem(Box::new(a), Box::new(b)),
        TokenKind::Caret => Expr::Xor(Box::new(a), Box::new(b)),
        TokenKind::Amp => Expr::And(Box::new(a), Box::new(b)),
        TokenKind::Pipe => Expr::Or(Box::new(a), Box::new(b)),
        _ => Expr::Literal(0),
    }
}

/// Parses an atom.
fn parse_atom(toks: &Vec<Token>, end: usize, i: usize) -> (r: Result<(Expr, usize), EvalError>)
    requires
        i <= toks@.len(),
    ensures
        agrees(r, parse_atom_spec(toks@, end, i as int)),
    decreases toks@.len() - i, 0int,
{
    if i >= toks.len() {
        return Err(EvalError::Malformed(end));
    }
    match toks[i].kind {
        TokenKind::Int(v) => Ok((Expr::Literal(v), i + 1)),
        TokenKind::LParen => match parse_binary(5, toks, end, i + 1) {
            Ok((inner, j)) => if i + 1 <= j && j < toks.len() && toks[j].kind == TokenKind::RParen {
                Ok((Expr::Group(Box::new(inner)), j + 1))
            } else if j < toks.len() {
                Err(EvalError::Malformed(toks[j].pos))
            } else {
                Err(EvalError::Malformed(end))
            },
            Err(err) => Err(err),
        },
        _ => Err(EvalError::Malformed(toks[i].pos)),
    }
}

/// Parses a unary chain.
fn parse_unary(toks: &Vec<Token>, end: usize, i: usize) -> (r: Result<(Expr, usize), EvalError>)
    requires
        i <= toks@.len(),
    ensures
        agrees(r, parse_unary_spec(toks@, end, i as int)),
    decreases toks@.len() - i, 1int,
{
    if i < toks.len() && toks[i].kind == TokenKind::Minus {
        match parse_unary(toks, end, i + 1) {
            Ok((inner, j)) => Ok((Expr::Neg(Box::new(inner)), j)),
            Err(err) => Err(err),
        }
    } else if i < toks.len() && toks[i].kind == TokenKind::Tilde {
        match parse_unary(toks, end, i + 1) {
            Ok((inner, j)) => Ok((Expr::Not(Box::new(inner)), j)),
            Err(err) => Err(err),
        }
    } else {
        parse_atom(toks, end, i)
    }
}

/// Parses one binary precedence level.
fn parse_binary(l: u8, toks: &Vec<Token>, end: usize, i: usize) -> (r: Result<
    (Expr, usize),
    EvalError,
>)
    requires
        i <= toks@.len(),
        l <= 5,
    ensures
        agrees(r, parse_binary_spec(l as int, toks@, end, i as int)),
    decreases toks@.len() - i, 2 * l + 2,
{
    if l == 0 {
        return parse_unary(toks, end, i);
    }
    match parse_binary(l - 1, toks, end, i) {
        Ok((lhs, j)) => if i < j && j <= toks.len() {
            parse_bin_tail(l, lhs, toks, end, j)
        } else {
            Err(EvalError::Malformed(end))
        },
        Err(err) => Err(err),
    }
}

/// Folds further operands of one binary level onto `lhs`.
fn parse_bin_tail(l: u8, lhs: Expr, toks: &Vec<Token>, end: usize, i: usize) -> (r: Result<
    (Expr, usize),
    EvalError,
>)
    requires
        i <= toks@.len(),
        1 <= l <= 5,
    ensures
        agrees(r, parse_bin_tail_spec(l as int, lhs, toks@, end, i as int)),
    decreases toks@.len() - i, 2 * l + 3,
{
    if i < toks.len() && token_level(toks[i].kind) == l {
        let op = toks[i].kind;
        match parse_binary(l - 1, toks, end, i + 1) {
            Ok((rhs, j)) => if i + 1 <= j && j <= toks.len() {
                parse_bin_tail(l, make_bin(op, lhs, rhs), toks, end, j)
            } else {
                Err(EvalError::Malformed(end))
            },
            Err(err) => Err(err),
        }
    } else {
        Ok((lhs, i))
    }
}

/// Parses a token stream as one whole expression.
fn parse_tokens(toks: &Vec<Token>, end: usize) -> (r: Result<Expr, EvalError>)
    ensures
        r == parse_tokens_spec(toks@, end),
{
    match parse_binary(5, toks, end, 0) {
        Ok((e, j)) => if j == toks.len() {
            Ok(e)
        } else if j < toks.len() {
            Err(EvalError::Malformed(toks[j].pos))
        } else {
            Err(EvalError::Malformed(end))
        },
        Err(err) => Err(err),
    }
}

/// Parses a token stream as one whole range.
fn parse_range_tokens(toks: &Vec<Token>, end: usize) -> (r: Result<RangeExpr, EvalError>)
    ensures
        r == parse_range_tokens_spec(toks@, end),
{
    if toks.len() == 0 {
        return Err(EvalError::Malformed(end));
    }
    let first = toks[0].kind;
    let lo_part: Result<(Option<Expr>, usize), EvalError> = if first == TokenKind::DotDot || first
        == TokenKind::DotDotEq {
        Ok((None, 0))
    } else {
        match parse_binary(5, toks, end, 0) {
            Ok((e, j)) => Ok((Some(e), j)),
            Err(err) => Err(err),
        }
    };
    match lo_part {
        Ok((lo, i)) => {
            if i < toks.len() && (toks[i].kind == TokenKind::DotDot || toks[i].kind
                == TokenKind::DotDotEq) {
                let inclusive = toks[i].kind == TokenKind::DotDotEq;
                if i + 1 == toks.len() {
                    Ok(RangeExpr { lo, hi: None, inclusive })
                } else {
                    match parse_binary(5, toks, end, i + 1) {
                        Ok((e, m)) => if m == toks.len() {
                            Ok(RangeExpr { lo, hi: Some(e), inclusive })
                        } else if m < toks.len() {
                            Err(EvalError::Malformed(toks[m].pos))
                        } else {
                            Err(EvalError::Malformed(end))
                        },
                        Err(err) => Err(err),
                    }
                }
            } else if i < toks.len() {
                Err(EvalError::Malformed(toks[i].pos))
            } else {
                Err(EvalError::Malformed(end))
            }
        },
        Err(err) => Err(err),
    }
}

/// Parses one bound expression from source text.
pub fn parse_expression(s: &str) -> (r: Result<Expr, EvalError>)
    ensures
        r == parse_expression_spec(s@),
{
    let len = s.unicode_len();
    match lex_from(s, len, 0) {
        Ok(toks) => parse_tokens(&toks, len),
        Err(err) => Err(err),
    }
}

/// Resolves one bound expression from source text: parses it and evaluates
/// its value in the accumulator.
pub fn evaluate(s: &str) -> (r: Result<i64, EvalError>)
    ensures
        r == evaluate_spec(s@),
{
    match parse_expression(s) {
        Ok(e) => eval_expr(&e),
        Err(err) => Err(err),
    }
}

/// Parses a range expression from source text, leaving the bounds
/// unevaluated.
pub fn parse_range(s: &str) -> (r: Result<RangeExpr, EvalError>)
    ensures
        r == parse_range_spec(s@),
{
    let len = s.unicode_len();
    match lex_from(s, len, 0) {
        Ok(toks) => parse_range_tokens(&toks, len),
        Err(err) => Err(err),
    }
}

/// Resolves a range whose bounds must both be written, as an enumerated
/// bounded integer demands: the openness adjustment wraps the upper
/// expression before anything is evaluated.
pub fn resolve_closed_range(s: &str) -> (r: Result<(i64, i64), EvalError>)
    ensures
        r == resolve_closed_range_spec(s@),
{
    match parse_range(s) {
        Ok(range) => {
            let inclusive = range.inclusive;
            match (range.lo, range.hi) {
                (Some(lo), Some(hi)) => {
                    let hi_expr = if inclusive {
                        hi
                    } else {
                        Expr::Sub(Box::new(hi), Box::new(Expr::Literal(1)))
                    };
                    match eval_expr(&lo) {
                        Ok(lov) => match eval_expr(&hi_expr) {
                            Ok(hiv) => Ok((lov, hiv)),
                            Err(err) => Err(err),
                        },
                        Err(err) => Err(err),
                    }
                },
                _ => Err(EvalError::OpenBound),
            }
        },
        Err(err) => Err(err),
    }
}

/// Resolves a possibly open range over a representation: an omitted endpoint
/// defaults to the representation's native extreme on that side.
pub fn resolve_range(s: &str, repr: Repr) -> (r: Result<(i128, i128), EvalError>)
    ensures
        r == resolve_range_spec(s@, repr),
{
    match parse_range(s) {
        Ok(range) => {
            let inclusive = range.inclusive;
            let lov: i128 = match range.lo {
                Some(e) => match eval_expr(&e) {
                    Ok(v) => v as i128,
                    Err(err) => {
                        return Err(err);
                    },
                },
                None => repr.min_value(),
            };
            match range.hi {
                Some(hi) => {
                    let hi_expr = if inclusive {
                        hi
                    } else {
                        Expr::Sub(Box::new(hi), Box::new(Expr::Literal(1)))
                    };
                    match eval_expr(&hi_expr) {
                        Ok(v) => Ok((lov, v as i128)),
                        Err(err) => Err(err),
                    }
                },
                None => Ok((lov, repr.max_value())),
            }
        },
        Err(err) => Err(err),
    }
}

} // verus!
