//! The arithmetic surface of a bounded value: default (precondition-guarded)
//! operators, and the checked family that turns a primitive overflow or an
//! out-of-range result into an absent result.

use vstd::prelude::*;

use crate::bounded::{Bounded, Bounds};
use crate::repr::lemma_repr_within_carrier;
use vstd::arithmetic::div_mod::{
    lemma_div_nonincreasing, lemma_div_pos_is_pos, lemma_fundamental_div_mod,
};
use vstd::arithmetic::power::{lemma0_pow, lemma1_pow, lemma_pow0, lemma_pow1, lemma_pow_adds, lemma_pow_increases, lemma_pow_positive, pow};
use vstd::math::abs;
use vstd::pervasive::unreached;

verus! {

/// Truncating division, as the primitive `/` computes it: the quotient of the
/// magnitudes, with the sign of the operands' product.
pub open spec fn trunc_div_spec(a: int, b: int) -> int
    recommends
        b != 0,
{
    if a == 0 {
        0
    } else if a > 0 && b > 0 {
        a / b
    } else if a < 0 && b < 0 {
        (-a) / (-b)
    } else if a < 0 {
        -((-a) / b)
    } else {
        -(a / (-b))
    }
}

/// Truncating remainder, as the primitive `%` computes it: the remainder of
/// the magnitudes, with the sign of the dividend.
pub open spec fn trunc_rem_spec(a: int, b: int) -> int
    recommends
        b != 0,
{
    if a == 0 {
        0
    } else if a > 0 && b > 0 {
        a % b
    } else if a < 0 && b < 0 {
        -((-a) % (-b))
    } else if a < 0 {
        -((-a) % b)
    } else {
        a % (-b)
    }
}

/// A well-formed range, and so every value confined to it, sits inside the
/// window `[i64::MIN, u64::MAX]` of the carrier.
pub proof fn lemma_bounds_within_carrier(b: Bounds)
    requires
        b.wf(),
    ensures
        -0x8000_0000_0000_0000 <= b.lo() <= b.hi() <= 0xffff_ffff_ffff_ffff,
{
    lemma_repr_within_carrier(b.repr_spec());
}

/// The Euclidean quotient is bounded by the magnitudes of its operands.
proof fn lemma_euclid_div_magnitude(a: int, b: int)
    requires
        b != 0,
    ensures
        abs(a / b) <= abs(a) + abs(b),
{
    lemma_fundamental_div_mod(a, b);
    let q = a / b;
    let r = a % b;
    assert(abs(q) <= abs(b * q)) by (nonlinear_arith)
        requires
            b != 0,
    ;
    assert(abs(b * q) == abs(a - r));
}

impl Bounded {
    /// Whether `n` is a value of this bounded integer's representation: the
    /// form a raw right-hand operand must have.
    pub open spec fn repr_holds(&self, n: int) -> bool {
        self.bounds().repr_spec().holds(n)
    }

    /// The contract every operation's result satisfies: same range, same
    /// invariant, and the given value.
    pub open spec fn result_of(&self, r: Bounded, v: int) -> bool {
        r.bounds() == self.bounds() && r.wf() && r.val() == v
    }

    /// Adds a raw value, panicking semantics replaced by a precondition: the
    /// sum must lie in range.
    pub fn add(&self, rhs: i128) -> (r: Bounded)
        requires
            self.wf(),
            self.repr_holds(rhs as int),
            self.bounds().in_range_spec(self.val() + rhs),
        ensures
            self.result_of(r, self.val() + rhs as int),
    {
        proof {
            lemma_bounds_within_carrier(self.bounds());
            lemma_repr_within_carrier(self.bounds().repr_spec());
        }
        self.get_bounds().new_unchecked(self.get() + rhs)
    }

    /// Subtracts a raw value; the difference must lie in range.
    pub fn sub(&self, rhs: i128) -> (r: Bounded)
        requires
            self.wf(),
            self.repr_holds(rhs as int),
            self.bounds().in_range_spec(self.val() - rhs),
        ensures
            self.result_of(r, self.val() - rhs as int),
    {
        proof {
            lemma_bounds_within_carrier(self.bounds());
            lemma_repr_within_carrier(self.bounds().repr_spec());
        }
        self.get_bounds().new_unchecked(self.get() - rhs)
    }

    /// Multiplies by a raw value; the product must lie in range.
    pub fn mul(&self, rhs: i128) -> (r: Bounded)
        requires
            self.wf(),
            self.repr_holds(rhs as int),
            self.bounds().in_range_spec(self.val() * rhs),
        ensures
            self.result_of(r, self.val() * rhs as int),
    {
        proof {
            lemma_bounds_within_carrier(self.bounds());
        }
        match self.get().checked_mul(rhs) {
            Some(p) => self.get_bounds().new_unchecked(p),
            None => unreached(),
        }
    }

    /// Divides by a raw value with the primitive's truncating semantics; the
    /// divisor must be nonzero and the quotient in range.
    pub fn div(&self, rhs: i128) -> (r: Bounded)
        requires
            self.wf(),
            self.repr_holds(rhs as int),
            rhs != 0,
            self.bounds().in_range_spec(trunc_div_spec(self.val(), rhs as int)),
        ensures
            self.result_of(r, trunc_div_spec(self.val(), rhs as int)),
    {
        match self.checked_div(rhs) {
            Some(r) => r,
            None => unreached(),
        }
    }

    /// Takes the remainder with the primitive's truncating semantics; the
    /// divisor must be nonzero, the remainder in range, and the operands must
    /// not be the representation minimum and `-1`, on which the primitive
    /// itself faults.
    pub fn rem(&self, rhs: i128) -> (r: Bounded)
        requires
            self.wf(),
            self.repr_holds(rhs as int),
            rhs != 0,
            !(self.val() == self.bounds().repr_spec().min_spec() && rhs == -1),
            self.bounds().in_range_spec(trunc_rem_spec(self.val(), rhs as int)),
        ensures
            self.result_of(r, trunc_rem_spec(self.val(), rhs as int)),
    {
        match self.checked_rem(rhs) {
            Some(r) => r,
            None => unreached(),
        }
    }

    /// Calculates the quotient of Euclidean division of `self` by `rhs`; the
    /// divisor must be nonzero and the quotient in range.
    pub fn div_euclid(&self, rhs: i128) -> (r: Bounded)
        requires
            self.wf(),
            self.repr_holds(rhs as int),
            rhs != 0,
            self.bounds().in_range_spec(self.val() / rhs as int),
        ensures
            self.result_of(r, self.val() / rhs as int),
    {
        match self.checked_div_euclid(rhs) {
            Some(r) => r,
            None => unreached(),
        }
    }

    /// Calculates the least nonnegative remainder of `self (mod rhs)`; the
    /// divisor must be nonzero, the remainder in range, and the operands must
    /// not be the representation minimum and `-1`.
    pub fn rem_euclid(&self, rhs: i128) -> (r: Bounded)
        requires
            self.wf(),
            self.repr_holds(rhs as int),
            rhs != 0,
            !(self.val() == self.bounds().repr_spec().min_spec() && rhs == -1),
            self.bounds().in_range_spec(self.val() % rhs as int),
        ensures
            self.result_of(r, self.val() % rhs as int),
    {
        match self.checked_rem_euclid(rhs) {
            Some(r) => r,
            None => unreached(),
        }
    }

    /// Negates the value; only signed representations support negation, and
    /// the negation must lie in range.
    pub fn neg(&self) -> (r: Bounded)
        requires
            self.wf(),
            !self.bounds().repr_spec().is_unsigned_spec(),
            self.bounds().in_range_spec(-self.val()),
        ensures
            self.result_of(r, -self.val()),
    {
        proof {
            lemma_bounds_within_carrier(self.bounds());
        }
        self.get_bounds().new_unchecked(-self.get())
    }

    /// Computes the absolute value; only signed representations support it,
    /// and the result must lie in range.
    pub fn abs(&self) -> (r: Bounded)
        requires
            self.wf(),
            !self.bounds().repr_spec().is_unsigned_spec(),
            self.bounds().in_range_spec(abs(self.val()) as int),
        ensures
            self.result_of(r, abs(self.val()) as int),
    {
        proof {
            lemma_bounds_within_carrier(self.bounds());
        }
        let v = self.get();
        self.get_bounds().new_unchecked(if v < 0 { -v } else { v })
    }

    /// Checked addition: absent when the sum leaves the range.
    pub fn checked_add(&self, rhs: i128) -> (r: Option<Bounded>)
        requires
            self.wf(),
            self.repr_holds(rhs as int),
        ensures
            r is Some <==> self.bounds().in_range_spec(self.val() + rhs),
            r matches Some(b) ==> self.result_of(b, self.val() + rhs as int),
            opt_val(r) == checked_gives(self.bounds(), ArithOp::Add, self.val(), rhs as int),
    {
        proof {
            lemma_bounds_within_carrier(self.bounds());
            lemma_repr_within_carrier(self.bounds().repr_spec());
        }
        self.get_bounds().new(self.get() + rhs)
    }

    /// Checked subtraction: absent when the difference leaves the range.
    pub fn checked_sub(&self, rhs: i128) -> (r: Option<Bounded>)
        requires
            self.wf(),
            self.repr_holds(rhs as int),
        ensures
            r is Some <==> self.bounds().in_range_spec(self.val() - rhs),
            r matches Some(b) ==> self.result_of(b, self.val() - rhs as int),
            opt_val(r) == checked_gives(self.bounds(), ArithOp::Sub, self.val(), rhs as int),
    {
        proof {
            lemma_bounds_within_carrier(self.bounds());
            lemma_repr_within_carrier(self.bounds().repr_spec());
        }
        self.get_bounds().new(self.get() - rhs)
    }

    /// Checked multiplication: absent when the product leaves the range,
    /// whether or not the primitive step could represent it.
    pub fn checked_mul(&self, rhs: i128) -> (r: Option<Bounded>)
        requires
            self.wf(),
            self.repr_holds(rhs as int),
        ensures
            r is Some <==> self.bounds().in_range_spec(self.val() * rhs),
            r matches Some(b) ==> self.result_of(b, self.val() * rhs as int),
            opt_val(r) == checked_gives(self.bounds(), ArithOp::Mul, self.val(), rhs as int),
    {
        proof {
            lemma_bounds_within_carrier(self.bounds());
        }
        match self.get().checked_mul(rhs) {
            Some(p) => self.get_bounds().new(p),
            None => None,
        }
    }

    /// Checked truncating division: absent on a zero divisor or an
    /// out-of-range quotient.
    pub fn checked_div(&self, rhs: i128) -> (r: Option<Bounded>)
        requires
            self.wf(),
            self.repr_holds(rhs as int),
        ensures
            r is Some <==> rhs != 0 && self.bounds().in_range_spec(
                trunc_div_spec(self.val(), rhs as int),
            ),
            r matches Some(b) ==> self.result_of(b, trunc_div_spec(self.val(), rhs as int)),
            opt_val(r) == checked_gives(self.bounds(), ArithOp::Div, self.val(), rhs as int),
    {
        proof {
            lemma_bounds_within_carrier(self.bounds());
        }
        if rhs == 0 {
            return None;
        }
        match self.get().checked_div(rhs) {
            Some(q) => self.get_bounds().new(q),
            None => {
                proof {
                    lemma_trunc_div_small(self.val(), rhs as int);
                }
                unreached()
            },
        }
    }

    /// Checked Euclidean division: absent on a zero divisor or an
    /// out-of-range quotient.
    pub fn checked_div_euclid(&self, rhs: i128) -> (r: Option<Bounded>)
        requires
            self.wf(),
            self.repr_holds(rhs as int),
        ensures
            r is Some <==> rhs != 0 && self.bounds().in_range_spec(self.val() / rhs as int),
            r matches Some(b) ==> self.result_of(b, self.val() / rhs as int),
            opt_val(r) == checked_gives(self.bounds(), ArithOp::DivEuclid, self.val(), rhs as int),
    {
        proof {
            lemma_bounds_within_carrier(self.bounds());
        }
        if rhs == 0 {
            return None;
        }
        match self.get().checked_div_euclid(rhs) {
            Some(q) => self.get_bounds().new(q),
            None => {
                proof {
                    lemma_euclid_div_magnitude(self.val(), rhs as int);
                    lemma_repr_within_carrier(self.bounds().repr_spec());
                }
                unreached()
            },
        }
    }

    /// Checked truncating remainder: absent on a zero divisor, on the
    /// representation minimum with divisor `-1` (the primitive step
    /// overflows), or on an out-of-range remainder.
    pub fn checked_rem(&self, rhs: i128) -> (r: Option<Bounded>)
        requires
            self.wf(),
            self.repr_holds(rhs as int),
        ensures
            r is Some <==> rhs != 0 && !(self.val() == self.bounds().repr_spec().min_spec()
                && rhs == -1) && self.bounds().in_range_spec(
                trunc_rem_spec(self.val(), rhs as int),
            ),
            r matches Some(b) ==> self.result_of(b, trunc_rem_spec(self.val(), rhs as int)),
            opt_val(r) == checked_gives(self.bounds(), ArithOp::Rem, self.val(), rhs as int),
    {
        proof {
            lemma_bounds_within_carrier(self.bounds());
        }
        if rhs == 0 {
            return None;
        }
        if self.get() == self.get_bounds().repr().min_value() && rhs == -1 {
            return None;
        }
        match self.get().checked_rem(rhs) {
            Some(m) => self.get_bounds().new(m),
            None => unreached(),
        }
    }

    /// Checked Euclidean remainder: absent on a zero divisor, on the
    /// representation minimum with divisor `-1`, or on an out-of-range
    /// remainder.
    pub fn checked_rem_euclid(&self, rhs: i128) -> (r: Option<Bounded>)
        requires
            self.wf(),
            self.repr_holds(rhs as int),
        ensures
            r is Some <==> rhs != 0 && !(self.val() == self.bounds().repr_spec().min_spec()
                && rhs == -1) && self.bounds().in_range_spec(self.val() % rhs as int),
            r matches Some(b) ==> self.result_of(b, self.val() % rhs as int),
            opt_val(r) == checked_gives(self.bounds(), ArithOp::RemEuclid, self.val(), rhs as int),
    {
        proof {
            lemma_bounds_within_carrier(self.bounds());
        }
        if rhs == 0 {
            return None;
        }
        if self.get() == self.get_bounds().repr().min_value() && rhs == -1 {
            return None;
        }
        match self.get().checked_rem_euclid(rhs) {
            Some(m) => self.get_bounds().new(m),
            None => unreached(),
        }
    }

    /// Checked negation: absent when the negation leaves the range. Unsigned
    /// representations keep it, succeeding only on a zero in range.
    pub fn checked_neg(&self) -> (r: Option<Bounded>)
        requires
            self.wf(),
        ensures
            r is Some <==> self.bounds().in_range_spec(-self.val()),
            r matches Some(b) ==> self.result_of(b, -self.val()),
            opt_val(r) == checked_gives(self.bounds(), ArithOp::Neg, self.val(), 0),
    {
        proof {
            lemma_bounds_within_carrier(self.bounds());
        }
        self.get_bounds().new(-self.get())
    }

    /// Checked absolute value, for signed representations: absent when the
    /// result leaves the range.
    pub fn checked_abs(&self) -> (r: Option<Bounded>)
        requires
            self.wf(),
            !self.bounds().repr_spec().is_unsigned_spec(),
        ensures
            r is Some <==> self.bounds().in_range_spec(abs(self.val()) as int),
            r matches Some(b) ==> self.result_of(b, abs(self.val()) as int),
            opt_val(r) == checked_gives(self.bounds(), ArithOp::Abs, self.val(), 0),
    {
        proof {
            lemma_bounds_within_carrier(self.bounds());
        }
        let v = self.get();
        self.get_bounds().new(if v < 0 { -v } else { v })
    }
}

impl Bounded {
    /// Raises self to the power of `exp` on the raw representation; the
    /// result must lie in range.
    pub fn pow(&self, exp: u32) -> (r: Bounded)
        requires
            self.wf(),
            self.bounds().in_range_spec(pow(self.val(), exp as nat)),
        ensures
            self.result_of(r, pow(self.val(), exp as nat)),
    {
        match self.checked_pow(exp) {
            Some(r) => r,
            None => unreached(),
        }
    }

    /// Checked exponentiation: absent when the power leaves the range,
    /// whether or not the primitive step could represent it.
    pub fn checked_pow(&self, exp: u32) -> (r: Option<Bounded>)
        requires
            self.wf(),
        ensures
            r is Some <==> self.bounds().in_range_spec(pow(self.val(), exp as nat)),
            r matches Some(b) ==> self.result_of(b, pow(self.val(), exp as nat)),
            opt_val(r) == checked_gives(self.bounds(), ArithOp::Pow, self.val(), exp as int),
    {
        proof {
            lemma_bounds_within_carrier(self.bounds());
        }
        match checked_pow_carrier(self.get(), exp) {
            Some(p) => self.get_bounds().new(p),
            None => None,
        }
    }

    /// Saturating addition: the sum, clamped into the range.
    pub fn saturating_add(&self, rhs: i128) -> (r: Bounded)
        requires
            self.wf(),
            self.repr_holds(rhs as int),
        ensures
            self.result_of(r, crate::bounded::clamp_spec(
                self.val() + rhs,
                self.bounds().lo(),
                self.bounds().hi(),
            )),
    {
        proof {
            lemma_bounds_within_carrier(self.bounds());
            lemma_repr_within_carrier(self.bounds().repr_spec());
        }
        self.get_bounds().new_saturating(self.get() + rhs)
    }

    /// Saturating subtraction: the difference, clamped into the range.
    pub fn saturating_sub(&self, rhs: i128) -> (r: Bounded)
        requires
            self.wf(),
            self.repr_holds(rhs as int),
        ensures
            self.result_of(r, crate::bounded::clamp_spec(
                self.val() - rhs,
                self.bounds().lo(),
                self.bounds().hi(),
            )),
    {
        proof {
            lemma_bounds_within_carrier(self.bounds());
            lemma_repr_within_carrier(self.bounds().repr_spec());
        }
        self.get_bounds().new_saturating(self.get() - rhs)
    }

    /// Saturating multiplication: the product, clamped into the range.
    pub fn saturating_mul(&self, rhs: i128) -> (r: Bounded)
        requires
            self.wf(),
            self.repr_holds(rhs as int),
        ensures
            self.result_of(r, crate::bounded::clamp_spec(
                self.val() * rhs,
                self.bounds().lo(),
                self.bounds().hi(),
            )),
    {
        proof {
            lemma_bounds_within_carrier(self.bounds());
        }
        match self.get().checked_mul(rhs) {
            Some(p) => self.get_bounds().new_saturating(p),
            None => {
                proof {
                    assert(self.val() * rhs >= 0 <== (self.val() >= 0 && rhs >= 0) || (self.val()
                        <= 0 && rhs <= 0)) by (nonlinear_arith);
                    assert(self.val() * rhs <= 0 <== (self.val() >= 0 && rhs <= 0) || (self.val()
                        <= 0 && rhs >= 0)) by (nonlinear_arith);
                }
                if (self.get() < 0) == (rhs < 0) {
                    self.get_bounds().largest()
                } else {
                    self.get_bounds().smallest()
                }
            },
        }
    }

    /// Saturating negation, for signed representations: the negation,
    /// clamped into the range.
    pub fn saturating_neg(&self) -> (r: Bounded)
        requires
            self.wf(),
            !self.bounds().repr_spec().is_unsigned_spec(),
        ensures
            self.result_of(r, crate::bounded::clamp_spec(
                -self.val(),
                self.bounds().lo(),
                self.bounds().hi(),
            )),
    {
        proof {
            lemma_bounds_within_carrier(self.bounds());
        }
        self.get_bounds().new_saturating(-self.get())
    }

    /// Saturating absolute value, for signed representations: the magnitude,
    /// clamped into the range.
    pub fn saturating_abs(&self) -> (r: Bounded)
        requires
            self.wf(),
            !self.bounds().repr_spec().is_unsigned_spec(),
        ensures
            self.result_of(r, crate::bounded::clamp_spec(
                abs(self.val()) as int,
                self.bounds().lo(),
                self.bounds().hi(),
            )),
    {
        proof {
            lemma_bounds_within_carrier(self.bounds());
        }
        let v = self.get();
        self.get_bounds().new_saturating(if v < 0 { -v } else { v })
    }

    /// Saturating exponentiation: the power, clamped into the range.
    pub fn saturating_pow(&self, exp: u32) -> (r: Bounded)
        requires
            self.wf(),
        ensures
            self.result_of(r, crate::bounded::clamp_spec(
                pow(self.val(), exp as nat),
                self.bounds().lo(),
                self.bounds().hi(),
            )),
    {
        proof {
            lemma_bounds_within_carrier(self.bounds());
        }
        match checked_pow_carrier(self.get(), exp) {
            Some(p) => self.get_bounds().new_saturating(p),
            None => {
                proof {
                    if self.val() == 0 {
                        if exp > 0 {
                            lemma0_pow(exp as nat);
                        } else {
                            lemma_pow0(0);
                        }
                    }
                    lemma_pow_abs(self.val(), exp as nat);
                    lemma_pow_positive(abs(self.val()) as int, exp as nat);
                }
                if self.get() >= 0 || exp % 2 == 0 {
                    self.get_bounds().largest()
                } else {
                    self.get_bounds().smallest()
                }
            },
        }
    }
}

impl Bounded {
    /// Adds a same-typed operand, delegating to the raw form through its
    /// value.
    pub fn add_bounded(&self, rhs: &Bounded) -> (r: Bounded)
        requires
            self.wf(),
            rhs.wf(),
            rhs.bounds() == self.bounds(),
            self.bounds().in_range_spec(self.val() + rhs.val()),
        ensures
            self.result_of(r, self.val() + rhs.val()),
    {
        self.add(rhs.get())
    }

    /// Subtracts a same-typed operand.
    pub fn sub_bounded(&self, rhs: &Bounded) -> (r: Bounded)
        requires
            self.wf(),
            rhs.wf(),
            rhs.bounds() == self.bounds(),
            self.bounds().in_range_spec(self.val() - rhs.val()),
        ensures
            self.result_of(r, self.val() - rhs.val()),
    {
        self.sub(rhs.get())
    }

    /// Multiplies by a same-typed operand.
    pub fn mul_bounded(&self, rhs: &Bounded) -> (r: Bounded)
        requires
            self.wf(),
            rhs.wf(),
            rhs.bounds() == self.bounds(),
            self.bounds().in_range_spec(self.val() * rhs.val()),
        ensures
            self.result_of(r, self.val() * rhs.val()),
    {
        self.mul(rhs.get())
    }

    /// Divides by a same-typed operand, with truncating semantics.
    pub fn div_bounded(&self, rhs: &Bounded) -> (r: Bounded)
        requires
            self.wf(),
            rhs.wf(),
            rhs.bounds() == self.bounds(),
            rhs.val() != 0,
            self.bounds().in_range_spec(trunc_div_spec(self.val(), rhs.val())),
        ensures
            self.result_of(r, trunc_div_spec(self.val(), rhs.val())),
    {
        self.div(rhs.get())
    }

    /// Takes the remainder by a same-typed operand, with truncating
    /// semantics.
    pub fn rem_bounded(&self, rhs: &Bounded) -> (r: Bounded)
        requires
            self.wf(),
            rhs.wf(),
            rhs.bounds() == self.bounds(),
            rhs.val() != 0,
            !(self.val() == self.bounds().repr_spec().min_spec() && rhs.val() == -1),
            self.bounds().in_range_spec(trunc_rem_spec(self.val(), rhs.val())),
        ensures
            self.result_of(r, trunc_rem_spec(self.val(), rhs.val())),
    {
        self.rem(rhs.get())
    }

    /// The re-validating assignment form of addition: replaces the value by
    /// the sum, under the same precondition as the plain form.
    pub fn add_assign(&mut self, rhs: i128)
        requires
            old(self).wf(),
            old(self).repr_holds(rhs as int),
            old(self).bounds().in_range_spec(old(self).val() + rhs),
        ensures
            old(self).result_of(*final (self), old(self).val() + rhs as int),
    {
        *self = self.add(rhs);
    }

    /// The re-validating assignment form of subtraction.
    pub fn sub_assign(&mut self, rhs: i128)
        requires
            old(self).wf(),
            old(self).repr_holds(rhs as int),
            old(self).bounds().in_range_spec(old(self).val() - rhs),
        ensures
            old(self).result_of(*final (self), old(self).val() - rhs as int),
    {
        *self = self.sub(rhs);
    }

    /// The re-validating assignment form of multiplication.
    pub fn mul_assign(&mut self, rhs: i128)
        requires
            old(self).wf(),
            old(self).repr_holds(rhs as int),
            old(self).bounds().in_range_spec(old(self).val() * rhs),
        ensures
            old(self).result_of(*final (self), old(self).val() * rhs as int),
    {
        *self = self.mul(rhs);
    }

    /// The re-validating assignment form of truncating division.
    pub fn div_assign(&mut self, rhs: i128)
        requires
            old(self).wf(),
            old(self).repr_holds(rhs as int),
            rhs != 0,
            old(self).bounds().in_range_spec(trunc_div_spec(old(self).val(), rhs as int)),
        ensures
            old(self).result_of(*final (self), trunc_div_spec(old(self).val(), rhs as int)),
    {
        *self = self.div(rhs);
    }

    /// The re-validating assignment form of the truncating remainder.
    pub fn rem_assign(&mut self, rhs: i128)
        requires
            old(self).wf(),
            old(self).repr_holds(rhs as int),
            rhs != 0,
            !(old(self).val() == old(self).bounds().repr_spec().min_spec() && rhs == -1),
            old(self).bounds().in_range_spec(trunc_rem_spec(old(self).val(), rhs as int)),
        ensures
            old(self).result_of(*final (self), trunc_rem_spec(old(self).val(), rhs as int)),
    {
        *self = self.rem(rhs);
    }
}

/// The operations that exist in both a default (faulting) and a checked
/// form; the right-hand operand is the raw value for the binary ones, the
/// exponent for `Pow`, and ignored for the unary ones.
#[derive(Debug, Clone, Copy, PartialEq, Eq, Structural)]
pub enum ArithOp {
    Add,
    Sub,
    Mul,
    Div,
    DivEuclid,
    Rem,
    RemEuclid,
    Neg,
    Abs,
    Pow,
}

/// The mathematical value an operation produces on given operands.
pub open spec fn op_value(op: ArithOp, v: int, rhs: int) -> int {
    match op {
        ArithOp::Add => v + rhs,
        ArithOp::Sub => v - rhs,
        ArithOp::Mul => v * rhs,
        ArithOp::Div => trunc_div_spec(v, rhs),
        ArithOp::DivEuclid => v / rhs,
        ArithOp::Rem => trunc_rem_spec(v, rhs),
        ArithOp::RemEuclid => v % rhs,
        ArithOp::Neg => -v,
        ArithOp::Abs => abs(v) as int,
        ArithOp::Pow => pow(v, rhs as nat),
    }
}

/// Where an operation's primitive step does not fault: the divisor is
/// nonzero, and a remainder is not taken of the representation minimum by
/// `-1`, which the primitive cannot represent.
pub open spec fn primitive_defined(b: Bounds, op: ArithOp, v: int, rhs: int) -> bool {
    match op {
        ArithOp::Div | ArithOp::DivEuclid => rhs != 0,
        ArithOp::Rem | ArithOp::RemEuclid => rhs != 0 && !(v == b.repr_spec().min_spec() && rhs
            == -1),
        _ => true,
    }
}

/// Where the default (faulting) form of an operation is defined: the
/// primitive step does not fault, the operation exists for the
/// representation's signedness, and the result lies in the range.
pub open spec fn default_defined(b: Bounds, op: ArithOp, v: int, rhs: int) -> bool {
    &&& primitive_defined(b, op, v, rhs)
    &&& match op {
        ArithOp::Neg | ArithOp::Abs => !b.repr_spec().is_unsigned_spec(),
        _ => true,
    }
    &&& b.in_range_spec(op_value(op, v, rhs))
}

/// What the checked form of an operation answers: the operation's value when
/// the primitive step is defined and the value lies in the range, and
/// nothing otherwise — a primitive fault and an out-of-range result are
/// indistinguishable at this boundary.
pub open spec fn checked_gives(b: Bounds, op: ArithOp, v: int, rhs: int) -> Option<int> {
    if primitive_defined(b, op, v, rhs) && b.in_range_spec(op_value(op, v, rhs)) {
        Some(op_value(op, v, rhs))
    } else {
        None
    }
}

/// The value a checked operation returned, stripped to the raw integer.
pub open spec fn opt_val(r: Option<Bounded>) -> Option<int> {
    match r {
        Some(b) => Some(b.val()),
        None => None,
    }
}

/// Checked/default agreement: on any operands where the default form of an
/// operation is defined — where it would not fault — the checked form
/// answers, and with the very value the default form produces.
pub proof fn lemma_checked_agrees_with_default(b: Bounds, op: ArithOp, v: int, rhs: int)
    requires
        b.wf(),
        default_defined(b, op, v, rhs),
    ensures
        checked_gives(b, op, v, rhs) == Some(op_value(op, v, rhs)),
{
}

/// Exponentiation over a negative base is the power of the magnitude, with
/// the exponent's parity deciding the sign.
proof fn lemma_pow_abs(b: int, e: nat)
    ensures
        b >= 0 || e % 2 == 0 ==> pow(b, e) == pow(abs(b) as int, e),
        b < 0 && e % 2 == 1 ==> pow(b, e) == -pow(abs(b) as int, e),
    decreases e,
{
    reveal(pow);
    if e > 0 {
        lemma_pow_abs(b, (e - 1) as nat);
        if b < 0 {
            let m = abs(b) as int;
            let prev = pow(m, (e - 1) as nat);
            assert(pow(b, e) == b * pow(b, (e - 1) as nat));
            assert(pow(m, e) == m * prev);
            if e % 2 == 0 {
                assert(b * (-prev) == m * prev) by (nonlinear_arith)
                    requires
                        b == -m,
                ;
            } else {
                assert(b * prev == -(m * prev)) by (nonlinear_arith)
                    requires
                        b == -m,
                ;
            }
        }
    }
}

/// Once a power of a base of magnitude at least two has left the carrier
/// window, every later power is outside it as well.
proof fn lemma_pow_escape(base: int, e1: nat, e2: nat)
    requires
        base <= -2 || base >= 2,
        e1 <= e2,
        pow(base, e1) > 0xffff_ffff_ffff_ffff || pow(base, e1) < -0xffff_ffff_ffff_ffff,
    ensures
        pow(base, e2) > 0xffff_ffff_ffff_ffff || pow(base, e2) < -0xffff_ffff_ffff_ffff,
{
    let m = abs(base) as nat;
    lemma_pow_abs(base, e1);
    lemma_pow_abs(base, e2);
    lemma_pow_positive(m as int, e1);
    lemma_pow_positive(m as int, e2);
    lemma_pow_increases(m, e1, e2);
}

/// Checked exponentiation on the carrier: the exact power while it stays in
/// the window `[-(u64::MAX), u64::MAX]` that holds every representation's
/// values, and nothing once it has left it.
fn checked_pow_carrier(base: i128, exp: u32) -> (r: Option<i128>)
    requires
        -0xffff_ffff_ffff_ffff <= base <= 0xffff_ffff_ffff_ffff,
    ensures
        r matches Some(p) ==> p as int == pow(base as int, exp as nat),
        r is None ==> pow(base as int, exp as nat) > 0xffff_ffff_ffff_ffff || pow(
            base as int,
            exp as nat,
        ) < -0xffff_ffff_ffff_ffff,
{
    if base == 0 {
        if exp == 0 {
            proof {
                lemma_pow0(base as int);
            }
            return Some(1);
        }
        proof {
            lemma0_pow(exp as nat);
        }
        return Some(0);
    }
    if base == 1 {
        proof {
            lemma1_pow(exp as nat);
        }
        return Some(1);
    }
    if base == -1 {
        proof {
            lemma_pow_abs(-1, exp as nat);
            lemma1_pow(exp as nat);
        }
        return Some(if exp % 2 == 0 { 1 } else { -1 });
    }
    let mut acc: i128 = 1;
    let mut i: u32 = 0;
    proof {
        lemma_pow0(base as int);
    }
    while i < exp
        invariant
            i <= exp,
            base <= -2 || base >= 2,
            -0xffff_ffff_ffff_ffff <= base <= 0xffff_ffff_ffff_ffff,
            acc as int == pow(base as int, i as nat),
            -0xffff_ffff_ffff_ffff <= acc <= 0xffff_ffff_ffff_ffff,
        decreases exp - i,
    {
        proof {
            lemma_pow_adds(base as int, i as nat, 1);
            lemma_pow1(base as int);
            assert(pow(base as int, (i + 1) as nat) == pow(base as int, i as nat) * base);
        }
        let next = match acc.checked_mul(base) {
            Some(p) => p,
            None => {
                proof {
                    lemma_pow_escape(base as int, (i + 1) as nat, exp as nat);
                }
                return None;
            },
        };
        if next > 0xffff_ffff_ffff_ffff || next < -0xffff_ffff_ffff_ffff {
            proof {
                lemma_pow_escape(base as int, (i + 1) as nat, exp as nat);
            }
            return None;
        }
        acc = next;
        i = i + 1;
    }
    Some(acc)
}

/// The magnitude of a truncating quotient never exceeds the magnitude of the
/// dividend.
proof fn lemma_trunc_div_small(a: int, b: int)
    requires
        b != 0,
    ensures
        abs(trunc_div_spec(a, b)) <= abs(a),
{
    if a != 0 {
        if a > 0 && b > 0 {
            lemma_div_pos_is_pos(a, b);
            lemma_div_nonincreasing(a, b);
        } else if a < 0 && b < 0 {
            lemma_div_pos_is_pos(-a, -b);
            lemma_div_nonincreasing(-a, -b);
        } else if a < 0 {
            lemma_div_pos_is_pos(-a, b);
            lemma_div_nonincreasing(-a, b);
        } else {
            lemma_div_pos_is_pos(a, -b);
            lemma_div_nonincreasing(a, -b);
        }
    }
}

} // verus!
