//! Bounded integers: values confined to a closed range `[MIN_VALUE, MAX_VALUE]`
//! of a primitive integer representation, with validated construction and a
//! full arithmetic surface under panicking (here: precondition-guarded),
//! checked, saturating and wrapping overflow policies.
//!
//! A small companion evaluator resolves range bounds from restricted constant
//! expressions (literals combined with negation, bitwise not, the five
//! arithmetic operators and the three bitwise binary operators).

pub mod arith;
pub mod bounded;
pub mod eval;
pub mod names;
pub mod ops;
pub mod parse;
pub mod repr;
