//! The bounded-value engine: construction under each policy and the
//! arithmetic surface under each overflow policy.

use bounded_integer::bounded::Bounds;
use bounded_integer::repr::Repr;

fn small_signed() -> Bounds {
    // i8 representation, range -3..=1 (the half-open -3..2 of scenario A).
    Bounds::of_repr(Repr::I8, Some(-3), Some(1)).unwrap()
}

fn small_unsigned() -> Bounds {
    // u16 representation, range 3..=7 (scenario B).
    Bounds::of_repr(Repr::U16, Some(3), Some(7)).unwrap()
}

#[test]
fn scenario_a_constants() {
    let b = small_signed();
    assert_eq!(b.min_value(), -3);
    assert_eq!(b.max_value(), 1);
    assert_eq!(b.range_size(), 5);
    assert!(b.new(1).is_some());
    assert!(b.new(2).is_none());
}

#[test]
fn scenario_b_constants() {
    let b = small_unsigned();
    assert_eq!(b.min_value(), 3);
    assert_eq!(b.max_value(), 7);
    assert_eq!(b.new_wrapping(8).get(), 3);
    // 5 - 3 = 2 lies below the minimum of 3, so the checked difference is
    // absent, exactly as it is for 3 - 1 = 2.
    let five = b.new(5).unwrap();
    assert!(five.checked_sub(3).is_none());
    let three = b.new(3).unwrap();
    assert!(three.checked_sub(1).is_none());
    let seven = b.new(7).unwrap();
    assert_eq!(seven.checked_sub(3).unwrap().get(), 4);
}

#[test]
fn construction_agreement() {
    let b = small_signed();
    let mut n: i128 = -10;
    while n <= 10 {
        let made = b.new(n);
        assert_eq!(made.is_some(), b.in_range(n));
        if let Some(v) = made {
            assert_eq!(v.get(), n);
        }
        n += 1;
    }
}

#[test]
fn unchecked_passes_through() {
    let b = small_signed();
    assert_eq!(b.new_unchecked(-3).get(), -3);
    assert_eq!(b.new_unchecked(1).get(), 1);
}

#[test]
fn saturation() {
    let b = small_signed();
    assert_eq!(b.new_saturating(-100).get(), -3);
    assert_eq!(b.new_saturating(100).get(), 1);
    assert_eq!(b.new_saturating(0).get(), 0);
    assert_eq!(b.new_saturating(-3).get(), -3);
    assert_eq!(b.new_saturating(1).get(), 1);
}

#[test]
fn wrapping_single_steps() {
    let b = small_signed();
    // One past the top lands on the bottom, and one below the bottom on top.
    assert_eq!(b.new_wrapping(2).get(), -3);
    assert_eq!(b.new_wrapping(-4).get(), 1);
}

#[test]
fn wrapping_is_centered_modulo() {
    let b = small_signed();
    let mut n: i128 = -30;
    while n <= 30 {
        let got = b.new_wrapping(n).get();
        assert!(-3 <= got && got <= 1);
        if -3 <= n && n <= 1 {
            assert_eq!(got, n);
        }
        // The wrapped value differs from the input by a multiple of RANGE.
        assert_eq!((got - n).rem_euclid(5), 0);
        n += 1;
    }
}

#[test]
fn wrapping_far_from_zero() {
    let b = small_signed();
    assert_eq!(b.new_wrapping(7).get(), -3);
    assert_eq!(b.new_wrapping(-9).get(), 1);
    assert_eq!(b.new_wrapping(127).get(), -3);
    assert_eq!(b.new_wrapping(-128).get(), -3);
}

#[test]
fn extremes() {
    let b = small_unsigned();
    assert_eq!(b.smallest().get(), 3);
    assert_eq!(b.largest().get(), 7);
}

#[test]
fn default_operators() {
    let b = small_unsigned();
    let five = b.new(5).unwrap();
    assert_eq!(five.add(2).get(), 7);
    assert_eq!(five.sub(1).get(), 4);
    assert_eq!(five.mul(1).get(), 5);
    assert_eq!(five.div(1).get(), 5);
    assert_eq!(five.rem(4000).get(), 5);
}

#[test]
fn checked_family() {
    let b = small_unsigned();
    let five = b.new(5).unwrap();
    assert_eq!(five.checked_add(2).unwrap().get(), 7);
    assert!(five.checked_add(3).is_none());
    assert!(five.checked_mul(2).is_none());
    assert_eq!(five.checked_div(1).unwrap().get(), 5);
    assert!(five.checked_div(0).is_none());
    assert!(five.checked_rem(4).is_none()); // 5 % 4 = 1 lies below 3.
    assert_eq!(five.checked_rem(4000).unwrap().get(), 5);
    assert!(five.checked_neg().is_none());
}

#[test]
fn checked_division_overflow_edges() {
    let full = Bounds::of_repr(Repr::I8, None, None).unwrap();
    assert_eq!(full.min_value(), -128);
    assert_eq!(full.max_value(), 127);
    let min = full.new(-128).unwrap();
    // -128 / -1 = 128 leaves the representation; so does its remainder step.
    assert!(min.checked_div(-1).is_none());
    assert!(min.checked_rem(-1).is_none());
    assert!(min.checked_div_euclid(-1).is_none());
    assert!(min.checked_rem_euclid(-1).is_none());
    assert!(min.checked_abs().is_none());
    assert!(min.checked_neg().is_none());
    assert_eq!(full.new(-127).unwrap().checked_neg().unwrap().get(), 127);
}

#[test]
fn euclidean_and_truncating_division_differ() {
    let full = Bounds::of_repr(Repr::I32, None, None).unwrap();
    let minus_seven = full.new(-7).unwrap();
    assert_eq!(minus_seven.div(2).get(), -3);
    assert_eq!(minus_seven.div_euclid(2).get(), -4);
    assert_eq!(minus_seven.rem(2).get(), -1);
    assert_eq!(minus_seven.rem_euclid(2).get(), 1);
}

#[test]
fn absolute_value() {
    let full = Bounds::of_repr(Repr::I8, None, None).unwrap();
    assert_eq!(full.new(-5).unwrap().abs().get(), 5);
    assert_eq!(full.new(5).unwrap().abs().get(), 5);
    assert_eq!(full.new(-128).unwrap().saturating_abs().get(), 127);
}

#[test]
fn exponentiation() {
    let full = Bounds::of_repr(Repr::I32, None, None).unwrap();
    let two = full.new(2).unwrap();
    assert_eq!(two.pow(10).get(), 1024);
    assert_eq!(two.pow(0).get(), 1);
    assert!(two.checked_pow(31).is_none());
    assert_eq!(two.checked_pow(30).unwrap().get(), 1_i128 << 30);
    let minus_two = full.new(-2).unwrap();
    assert_eq!(minus_two.pow(3).get(), -8);
    assert_eq!(minus_two.saturating_pow(31), full.new(i32::MIN as i128).unwrap());
    assert_eq!(minus_two.saturating_pow(40).get(), i32::MAX as i128);
    assert_eq!(full.new(0).unwrap().pow(0).get(), 1);
    assert_eq!(full.new(0).unwrap().pow(5).get(), 0);
}

#[test]
fn saturating_family() {
    let b = small_unsigned();
    let five = b.new(5).unwrap();
    assert_eq!(five.saturating_add(100).get(), 7);
    assert_eq!(five.saturating_sub(100).get(), 3);
    assert_eq!(five.saturating_mul(1000).get(), 7);
    assert_eq!(five.saturating_pow(3).get(), 7);
    let signed = small_signed();
    let minus_three = signed.new(-3).unwrap();
    assert_eq!(minus_three.saturating_neg().get(), 1);
    assert_eq!(minus_three.saturating_abs().get(), 1);
    assert_eq!(minus_three.saturating_mul(100).get(), -3);
    assert_eq!(minus_three.saturating_mul(-100).get(), 1);
}

#[test]
fn two_saturation_boundaries_compose() {
    // Primitive-width saturation happens first, range saturation second: a
    // value clamped to the primitive maximum still comes down to MAX_VALUE.
    let b = Bounds::of_repr(Repr::U64, Some(3), Some(7)).unwrap();
    let seven = b.new(7).unwrap();
    assert_eq!(seven.saturating_mul(u64::MAX as i128).get(), 7);
}

#[test]
fn checked_agrees_with_default_on_samples() {
    let b = small_unsigned();
    let five = b.new(5).unwrap();
    // Wherever the default operator is defined, the checked one answers the
    // same value.
    assert_eq!(five.checked_add(2).unwrap().get(), five.add(2).get());
    assert_eq!(five.checked_sub(1).unwrap().get(), five.sub(1).get());
    assert_eq!(five.checked_div(1).unwrap().get(), five.div(1).get());
    let signed = Bounds::of_repr(Repr::I8, None, None).unwrap();
    let v = signed.new(-7).unwrap();
    assert_eq!(v.checked_mul(3).unwrap().get(), v.mul(3).get());
    assert_eq!(v.checked_neg().unwrap().get(), v.neg().get());
    assert_eq!(v.checked_abs().unwrap().get(), v.abs().get());
    assert_eq!(v.checked_rem(4).unwrap().get(), v.rem(4).get());
    assert_eq!(v.checked_div_euclid(2).unwrap().get(), v.div_euclid(2).get());
    assert_eq!(v.checked_rem_euclid(2).unwrap().get(), v.rem_euclid(2).get());
    assert_eq!(v.checked_pow(2).unwrap().get(), v.pow(2).get());
}

#[test]
fn same_type_operands_delegate() {
    let full = Bounds::of_repr(Repr::I32, None, None).unwrap();
    let ten = full.new(10).unwrap();
    let three = full.new(3).unwrap();
    assert_eq!(ten.add_bounded(&three).get(), 13);
    assert_eq!(ten.sub_bounded(&three).get(), 7);
    assert_eq!(ten.mul_bounded(&three).get(), 30);
    assert_eq!(ten.div_bounded(&three).get(), 3);
    assert_eq!(ten.rem_bounded(&three).get(), 1);
}

#[test]
fn assignment_forms_revalidate() {
    let b = small_unsigned();
    let mut v = b.new(3).unwrap();
    v.add_assign(4);
    assert_eq!(v.get(), 7);
    v.sub_assign(2);
    assert_eq!(v.get(), 5);
    v.mul_assign(1);
    assert_eq!(v.get(), 5);
    v.div_assign(1);
    assert_eq!(v.get(), 5);
    v.rem_assign(4000);
    assert_eq!(v.get(), 5);
}

#[test]
fn invalid_configurations_are_refused() {
    assert!(Bounds::of_repr(Repr::I8, Some(2), Some(1)).is_none());
    assert!(Bounds::of_repr(Repr::I8, Some(-129), Some(0)).is_none());
    assert!(Bounds::of_repr(Repr::U8, Some(-1), Some(10)).is_none());
    assert!(Bounds::of_repr(Repr::U8, Some(0), Some(256)).is_none());
    assert!(Bounds::of_repr(Repr::U8, Some(0), Some(255)).is_some());
}

#[test]
fn range_invariant_sweep() {
    // Every operation but the unchecked constructor lands in the range, for
    // every representation value and operand.
    let b = small_signed();
    let in_range = |v: i128| (-3..=1).contains(&v);
    for n in -128..=127_i128 {
        assert!(in_range(b.new_saturating(n).get()));
        assert!(in_range(b.new_wrapping(n).get()));
        if let Some(v) = b.new(n) {
            assert!(in_range(v.get()));
        }
    }
    for v in -3..=1_i128 {
        let x = b.new(v).unwrap();
        for u in [x.checked_neg(), x.checked_abs(), x.checked_pow(3)] {
            if let Some(y) = u {
                assert!(in_range(y.get()));
            }
        }
        assert!(in_range(x.saturating_neg().get()));
        assert!(in_range(x.saturating_abs().get()));
        assert!(in_range(x.saturating_pow(5).get()));
        for rhs in -128..=127_i128 {
            for r in [
                x.checked_add(rhs),
                x.checked_sub(rhs),
                x.checked_mul(rhs),
                x.checked_div(rhs),
                x.checked_rem(rhs),
                x.checked_div_euclid(rhs),
                x.checked_rem_euclid(rhs),
            ] {
                if let Some(y) = r {
                    assert!(in_range(y.get()));
                }
            }
            assert!(in_range(x.saturating_add(rhs).get()));
            assert!(in_range(x.saturating_sub(rhs).get()));
            assert!(in_range(x.saturating_mul(rhs).get()));
        }
    }
}

#[test]
fn checked_default_agreement_sweep() {
    // Wherever the checked form answers, the default form is defined and
    // produces the same value.
    let b = small_signed();
    for v in -3..=1_i128 {
        let x = b.new(v).unwrap();
        for rhs in -128..=127_i128 {
            if let Some(y) = x.checked_add(rhs) {
                assert_eq!(y.get(), x.add(rhs).get());
            }
            if let Some(y) = x.checked_sub(rhs) {
                assert_eq!(y.get(), x.sub(rhs).get());
            }
            if let Some(y) = x.checked_mul(rhs) {
                assert_eq!(y.get(), x.mul(rhs).get());
            }
            if let Some(y) = x.checked_div(rhs) {
                assert_eq!(y.get(), x.div(rhs).get());
            }
            if let Some(y) = x.checked_rem(rhs) {
                assert_eq!(y.get(), x.rem(rhs).get());
            }
            if let Some(y) = x.checked_div_euclid(rhs) {
                assert_eq!(y.get(), x.div_euclid(rhs).get());
            }
            if let Some(y) = x.checked_rem_euclid(rhs) {
                assert_eq!(y.get(), x.rem_euclid(rhs).get());
            }
        }
        if let Some(y) = x.checked_neg() {
            assert_eq!(y.get(), x.neg().get());
        }
        if let Some(y) = x.checked_abs() {
            assert_eq!(y.get(), x.abs().get());
        }
        for exp in 0..8_u32 {
            if let Some(y) = x.checked_pow(exp) {
                assert_eq!(y.get(), x.pow(exp).get());
            }
        }
    }
}

#[test]
fn representation_queries() {
    assert!(Repr::U32.is_unsigned());
    assert!(!Repr::I64.is_unsigned());
    assert_eq!(Repr::I16.min_value(), -32768);
    assert_eq!(Repr::I16.max_value(), 32767);
    assert_eq!(Repr::U64.max_value(), u64::MAX as i128);
    let b = Bounds::of_repr(Repr::U8, Some(1), Some(6)).unwrap();
    assert_eq!(b.repr(), Repr::U8);
    assert!(b.in_range(6));
    assert!(!b.in_range(7));
}
