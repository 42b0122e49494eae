//! The bounded-value engine: a range paired with validated construction.

use vstd::prelude::*;

use crate::repr::Repr;
use vstd::arithmetic::div_mod::{
    lemma_fundamental_div_mod, lemma_mod_multiples_vanish, lemma_small_mod,
};

verus! {

/// A closed range `[MIN_VALUE, MAX_VALUE]` of values of one representation.
///
/// The count of values in the range, `MAX_VALUE - MIN_VALUE + 1`, is kept in
/// the widened carrier, so it is well defined even when the range spans the
/// representation's full width.
#[derive(Debug, Clone, Copy, PartialEq, Eq, Hash, PartialOrd, Ord, Structural)]
pub struct Bounds {
    repr: Repr,
    min_value: i128,
    max_value: i128,
}

/// A single representation value `v` with the invariant
/// `MIN_VALUE <= v <= MAX_VALUE`: every public operation but the unchecked
/// constructor maintains it.
#[derive(Debug, Clone, Copy, PartialEq, Eq, Hash, PartialOrd, Ord, Structural)]
pub struct Bounded {
    bounds: Bounds,
    value: i128,
}

impl Bounds {
    /// The representation the range lives in.
    pub closed spec fn repr_spec(&self) -> Repr {
        self.repr
    }

    /// The smallest value a bounded integer of this range can contain.
    pub closed spec fn lo(&self) -> int {
        self.min_value as int
    }

    /// The largest value a bounded integer of this range can contain.
    pub closed spec fn hi(&self) -> int {
        self.max_value as int
    }

    /// A well-formed range is ordered and sits inside its representation.
    pub open spec fn wf(&self) -> bool {
        self.repr_spec().min_spec() <= self.lo() <= self.hi() <= self.repr_spec().max_spec()
    }

    /// The number of values the range contains.
    pub open spec fn count(&self) -> int {
        self.hi() - self.lo() + 1
    }

    /// Whether `n` lies in the range.
    pub open spec fn in_range_spec(&self, n: int) -> bool {
        self.lo() <= n <= self.hi()
    }

    /// Builds a range over `repr` from optional endpoints; an omitted endpoint
    /// defaults to the representation's native extreme on that side. Returns
    /// the range exactly when the endpoints are ordered and both are values of
    /// the representation.
    pub fn of_repr(repr: Repr, min_value: Option<i128>, max_value: Option<i128>) -> (r: Option<
        Bounds,
    >)
        ensures
            ({
                let lo = (if min_value is Some {
                    min_value->0 as int
                } else {
                    repr.min_spec()
                });
                let hi = (if max_value is Some {
                    max_value->0 as int
                } else {
                    repr.max_spec()
                });
                &&& r is Some <==> repr.min_spec() <= lo <= hi <= repr.max_spec()
                &&& r matches Some(b) ==> b.repr_spec() == repr && b.lo() == lo && b.hi() == hi
                    && b.wf()
            }),
    {
        let lo: i128 = match min_value {
            Some(n) => n,
            None => repr.min_value(),
        };
        let hi: i128 = match max_value {
            Some(n) => n,
            None => repr.max_value(),
        };
        if repr.min_value() <= lo && lo <= hi && hi <= repr.max_value() {
            Some(Bounds { repr, min_value: lo, max_value: hi })
        } else {
            None
        }
    }

    /// The representation the range lives in.
    pub fn repr(&self) -> (r: Repr)
        ensures
            r == self.repr_spec(),
    {
        self.repr
    }

    /// The smallest value a bounded integer of this range can contain
    /// (`MIN_VALUE`).
    pub fn min_value(&self) -> (r: i128)
        ensures
            r as int == self.lo(),
    {
        self.min_value
    }

    /// The largest value a bounded integer of this range can contain
    /// (`MAX_VALUE`).
    pub fn max_value(&self) -> (r: i128)
        ensures
            r as int == self.hi(),
    {
        self.max_value
    }

    /// The number of values the range contains (`RANGE`), in the widened
    /// carrier so that a full-width range cannot overflow it.
    pub fn range_size(&self) -> (r: i128)
        requires
            self.wf(),
        ensures
            r as int == self.count(),
    {
        proof {
            crate::repr::lemma_repr_within_carrier(self.repr);
        }
        self.max_value - self.min_value + 1
    }

    /// Checks whether the given value is in the range of the bounded integer.
    pub fn in_range(&self, n: i128) -> (r: bool)
        ensures
            r == self.in_range_spec(n as int),
    {
        self.min_value <= n && n <= self.max_value
    }

    /// Creates a bounded integer if the given value is within the range
    /// `[MIN_VALUE, MAX_VALUE]`.
    pub fn new(&self, n: i128) -> (r: Option<Bounded>)
        requires
            self.wf(),
        ensures
            r is Some <==> self.in_range_spec(n as int),
            r matches Some(b) ==> b.val() == n as int && b.bounds() == *self && b.wf(),
    {
        if self.in_range(n) {
            Some(self.new_unchecked(n))
        } else {
            None
        }
    }

    /// Creates a bounded integer without checking the value.
    ///
    /// The value must not be outside the valid range of values; it must not
    /// be less than `MIN_VALUE` or greater than `MAX_VALUE`. That precondition
    /// is the caller's contract alone: the engine never tests it.
    pub fn new_unchecked(&self, n: i128) -> (r: Bounded)
        requires
            self.wf(),
            self.in_range_spec(n as int),
        ensures
            r.val() == n as int,
            r.bounds() == *self,
            r.wf(),
    {
        Bounded { bounds: *self, value: n }
    }

    /// Creates a bounded integer by setting the value to the minimum or
    /// maximum if it is too low or too high respectively.
    pub fn new_saturating(&self, n: i128) -> (r: Bounded)
        requires
            self.wf(),
        ensures
            r.bounds() == *self,
            r.wf(),
            r.val() == clamp_spec(n as int, self.lo(), self.hi()),
    {
        if n < self.min_value {
            Bounded { bounds: *self, value: self.min_value }
        } else if n > self.max_value {
            Bounded { bounds: *self, value: self.max_value }
        } else {
            Bounded { bounds: *self, value: n }
        }
    }

    /// Creates a bounded integer by modulo arithmetic: values in the range
    /// are unchanged, values outside are wrapped around by centered modulo,
    /// `((n - MIN_VALUE) mod RANGE) + MIN_VALUE` with a Euclidean
    /// (always-nonnegative) remainder.
    pub fn new_wrapping(&self, n: i128) -> (r: Bounded)
        requires
            self.wf(),
            self.repr_spec().holds(n as int),
        ensures
            r.bounds() == *self,
            r.wf(),
            r.val() == wrap_spec(n as int, self.lo(), self.hi()),
    {
        proof {
            crate::repr::lemma_repr_within_carrier(self.repr);
        }
        let size = self.range_size();
        let v = if n >= self.min_value {
            let d = (n - self.min_value) as u128;
            let m = (d % (size as u128)) as i128;
            proof {
                assert(m == (n - self.min_value) % (size as int));
            }
            self.min_value + m
        } else {
            let d = (self.min_value - n) as u128;
            let m = (d % (size as u128)) as i128;
            proof {
                assert(m == (self.min_value - n) % (size as int));
                lemma_mod_negated(self.min_value - n, size as int);
            }
            if m == 0 {
                self.min_value
            } else {
                self.min_value + (size - m)
            }
        };
        Bounded { bounds: *self, value: v }
    }

    /// The smallest bounded integer of the range (`MIN`).
    pub fn smallest(&self) -> (r: Bounded)
        requires
            self.wf(),
        ensures
            r.bounds() == *self,
            r.wf(),
            r.val() == self.lo(),
    {
        Bounded { bounds: *self, value: self.min_value }
    }

    /// The largest bounded integer of the range (`MAX`).
    pub fn largest(&self) -> (r: Bounded)
        requires
            self.wf(),
        ensures
            r.bounds() == *self,
            r.wf(),
            r.val() == self.hi(),
    {
        Bounded { bounds: *self, value: self.max_value }
    }
}

impl Bounded {
    /// The range the value is confined to.
    pub closed spec fn bounds(&self) -> Bounds {
        self.bounds
    }

    /// The stored value, as a mathematical integer.
    pub closed spec fn val(&self) -> int {
        self.value as int
    }

    /// The invariant every operation but the unchecked constructor maintains:
    /// the range is well formed and the value lies in it.
    pub open spec fn wf(&self) -> bool {
        self.bounds().wf() && self.bounds().in_range_spec(self.val())
    }

    /// The range the value is confined to.
    pub fn get_bounds(&self) -> (r: Bounds)
        ensures
            r == self.bounds(),
    {
        self.bounds
    }

    /// Gets the value of the bounded integer as a primitive (carrier) value.
    pub fn get(&self) -> (r: i128)
        ensures
            r as int == self.val(),
    {
        self.value
    }
}

/// What saturation produces: `n` clamped below to `lo` and above to `hi`,
/// the low bound checked first.
pub open spec fn clamp_spec(n: int, lo: int, hi: int) -> int {
    if n < lo {
        lo
    } else if n > hi {
        hi
    } else {
        n
    }
}

/// What wrapping produces: the centered modulo of `n` into `[lo, hi]`,
/// `((n - lo) mod (hi - lo + 1)) + lo` with a Euclidean remainder.
pub open spec fn wrap_spec(n: int, lo: int, hi: int) -> int {
    ((n - lo) % (hi - lo + 1)) + lo
}

/// A nonnegative value's Euclidean remainder agrees with the remainder of
/// its `nat` cast.
proof fn lemma_mod_cast_nonneg(a: int, b: int)
    requires
        a >= 0,
        b > 0,
    ensures
        a % b == (a as nat) % (b as nat),
{
}

/// The Euclidean remainder of `-d` is `0` when `d` divides evenly, and
/// otherwise the divisor's complement of the remainder of `d`.
proof fn lemma_mod_negated(d: int, b: int)
    requires
        d >= 0,
        b > 0,
    ensures
        d % b == 0 ==> (-d) % b == 0,
        d % b != 0 ==> (-d) % b == b - (d % b),
{
    lemma_fundamental_div_mod(d, b);
    let q = d / b;
    let m = d % b;
    if m == 0 {
        assert(-d == b * (-q) + 0) by (nonlinear_arith)
            requires
                d == b * q + m,
                m == 0,
        ;
        lemma_mod_multiples_vanish(-q, 0, b);
        lemma_small_mod(0, b as nat);
    } else {
        assert(-d == b * (-q - 1) + (b - m)) by (nonlinear_arith)
            requires
                d == b * q + m,
        ;
        lemma_mod_multiples_vanish(-q - 1, b - m, b);
        lemma_small_mod((b - m) as nat, b as nat);
    }
}

/// The range invariant: a well-formed bounded integer's value lies between
/// the bounds of its range. Every constructor and operation but the
/// unchecked constructor gives back a well-formed value, so no public path
/// ever produces one outside its range.
pub proof fn lemma_range_invariant(x: Bounded)
    requires
        x.wf(),
    ensures
        x.bounds().lo() <= x.val() <= x.bounds().hi(),
{
}

/// The closed form of centered modulo — shift `n` by the divisor's
/// complement of the minimum's own remainder, take the Euclidean remainder,
/// and add the minimum back — lands on the same value as the defining
/// formula `((n - lo) mod RANGE) + lo`.
pub proof fn lemma_wrap_closed_form(n: int, lo: int, hi: int)
    requires
        lo <= hi,
    ensures
        ((n + ((hi - lo + 1) - (lo % (hi - lo + 1)))) % (hi - lo + 1)) + lo == wrap_spec(
            n,
            lo,
            hi,
        ),
{
    let r = hi - lo + 1;
    lemma_fundamental_div_mod(lo, r);
    let q = lo / r;
    assert(n + (r - (lo % r)) == r * (1 + q) + (n - lo)) by (nonlinear_arith)
        requires
            lo == r * q + (lo % r),
    ;
    lemma_mod_multiples_vanish(1 + q, n - lo, r);
}

/// Wrapping maps every input into the range; an input already in the range
/// is unchanged; the first value past either end wraps to the opposite end.
pub proof fn lemma_wrap_properties(n: int, lo: int, hi: int)
    requires
        lo <= hi,
    ensures
        lo <= wrap_spec(n, lo, hi) <= hi,
        lo <= n <= hi ==> wrap_spec(n, lo, hi) == n,
        wrap_spec(hi + 1, lo, hi) == lo,
        wrap_spec(lo - 1, lo, hi) == hi,
{
    let size = hi - lo + 1;
    lemma_fundamental_div_mod(n - lo, size);
    if lo <= n <= hi {
        lemma_small_mod((n - lo) as nat, size as nat);
    }
    assert(wrap_spec(hi + 1, lo, hi) == lo) by {
        lemma_mod_multiples_vanish(1, 0, size);
        lemma_small_mod(0, size as nat);
    };
    assert(wrap_spec(lo - 1, lo, hi) == hi) by {
        lemma_mod_multiples_vanish(-1, size - 1, size);
        lemma_small_mod((size - 1) as nat, size as nat);
    };
}

} // verus!
