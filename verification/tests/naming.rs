//! Variant naming, the ordered variant list, decimal rendering, and the
//! operator table.

use bounded_integer::bounded::Bounds;
use bounded_integer::names::{decimal_string, range_message, variant_name, variant_names};
use bounded_integer::ops::{checked_operators, operators, CheckedOnUnsigned, CheckedOperator};
use bounded_integer::repr::Repr;

#[test]
fn name_of_each_sign() {
    assert_eq!(variant_name(-8), "N8");
    assert_eq!(variant_name(0), "Z0");
    assert_eq!(variant_name(7), "P7");
}

#[test]
fn nibble_variant_list() {
    // An isize-represented range of -8..6+2, normalized to -8..=7: sixteen
    // variants ascending from N8 (standing for -8) to P7.
    let b = Bounds::of_repr(Repr::Isize, Some(-8), Some(7)).unwrap();
    let names = variant_names(&b);
    let expected = vec![
        "N8", "N7", "N6", "N5", "N4", "N3", "N2", "N1", "Z0", "P1", "P2", "P3", "P4", "P5", "P6",
        "P7",
    ];
    assert_eq!(names.len(), 16);
    for (k, n) in names.iter().enumerate() {
        assert_eq!(n, expected[k]);
        // The k-th variant stands for MIN_VALUE + k.
        assert_eq!(n.as_str(), variant_name(b.min_value() + k as i128).as_str());
    }
    // The naming is one to one: no two values share a name.
    for (k, n) in names.iter().enumerate() {
        for m in names.iter().skip(k + 1) {
            assert_ne!(n, m);
        }
    }
}

#[test]
fn small_unsigned_variant_list() {
    let b = Bounds::of_repr(Repr::U16, Some(3), Some(7)).unwrap();
    let names = variant_names(&b);
    assert_eq!(names, vec!["P3", "P4", "P5", "P6", "P7"]);
}

#[test]
fn decimal_rendering() {
    assert_eq!(decimal_string(0), "0");
    assert_eq!(decimal_string(-128), "-128");
    assert_eq!(decimal_string(1024), "1024");
    assert_eq!(decimal_string(u64::MAX as i128), "18446744073709551615");
    assert_eq!(decimal_string(i64::MIN as i128), "-9223372036854775808");
}

#[test]
fn range_description_message() {
    let b = Bounds::of_repr(Repr::I8, Some(-3), Some(1)).unwrap();
    assert_eq!(
        range_message(&b),
        "integer out of range, expected it to be between -3 and 1"
    );
}

#[test]
fn operator_table() {
    let t = checked_operators();
    assert_eq!(t.len(), 10);
    let names: Vec<&str> = t.iter().map(|o| o.name).collect();
    assert_eq!(
        names,
        vec![
            "add",
            "sub",
            "mul",
            "div",
            "div_euclid",
            "rem",
            "rem_euclid",
            "neg",
            "abs",
            "pow"
        ]
    );
    // The division family has no saturating form; absolute value never
    // exists on unsigned representations; negation loses only its
    // saturating form there.
    assert!(!t[3].saturating && !t[4].saturating && !t[5].saturating && !t[6].saturating);
    assert_eq!(t[8].on_unsigned, CheckedOnUnsigned::Never);
    assert_eq!(t[7].on_unsigned, CheckedOnUnsigned::NoSaturating);
    assert!(t[7].rhs.is_none() && t[8].rhs.is_none());
    assert_eq!(t[9].rhs, Some("u32"));
}

#[test]
fn default_operator_table() {
    let t = operators();
    assert_eq!(t.len(), 6);
    let traits: Vec<&str> = t.iter().map(|o| o.trait_name).collect();
    assert_eq!(traits, vec!["Add", "Sub", "Mul", "Div", "Rem", "Neg"]);
    // Negation is unary and absent on unsigned representations.
    assert!(!t[5].bin && !t[5].on_unsigned);
    assert!(t.iter().take(5).all(|o| o.bin && o.on_unsigned));
    assert_eq!(t[4].description, "take remainder");
}

#[test]
fn operator_row_construction() {
    let row = CheckedOperator::new(
        "add",
        "integer addition",
        Some("Self"),
        true,
        CheckedOnUnsigned::All,
    );
    assert_eq!(row.name, "add");
    assert_eq!(row.description, "integer addition");
    assert_eq!(row.rhs, Some("Self"));
    assert!(row.saturating);
    assert_eq!(row.on_unsigned, CheckedOnUnsigned::All);
}
