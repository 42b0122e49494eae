//! The operator table: which checked and saturating operations exist, and
//! how much of each family an unsigned representation keeps.

use vstd::prelude::*;

verus! {

/// How much of a checked operation's family an unsigned representation
/// keeps: all of it, the checked form without the saturating form, or none
/// of it.
#[derive(Debug, Clone, Copy, PartialEq, Eq, Structural)]
pub enum CheckedOnUnsigned {
    All,
    NoSaturating,
    Never,
}

/// One row of the checked-operator table: the operation's name, its prose
/// description, the right-hand operand it takes (absent for the unary
/// operations, the raw representation or an unsigned exponent otherwise),
/// whether a saturating form exists, and what unsigned representations keep.
#[derive(Debug, Clone, Copy, PartialEq, Eq)]
pub struct CheckedOperator {
    pub name: &'static str,
    pub description: &'static str,
    pub rhs: Option<&'static str>,
    pub saturating: bool,
    pub on_unsigned: CheckedOnUnsigned,
}

impl CheckedOperator {
    /// Builds one table row from its parts.
    pub fn new(
        name: &'static str,
        description: &'static str,
        rhs: Option<&'static str>,
        saturating: bool,
        on_unsigned: CheckedOnUnsigned,
    ) -> (r: CheckedOperator)
        ensures
            r == (CheckedOperator { name, description, rhs, saturating, on_unsigned }),
    {
        CheckedOperator { name, description, rhs, saturating, on_unsigned }
    }
}

/// One row of the default-operator table: the operator trait the emission
/// layer wires up, its method, the verb for its fault message, whether it is
/// binary, and whether unsigned representations have it.
#[derive(Debug, Clone, Copy, PartialEq, Eq)]
pub struct Operator {
    pub trait_name: &'static str,
    pub method: &'static str,
    pub description: &'static str,
    pub bin: bool,
    pub on_unsigned: bool,
}

/// The default-operator table: the five binary operators for every
/// representation, and negation for the signed ones alone.
pub fn operators() -> (r: Vec<Operator>)
    ensures
        r@.len() == 6,
        r@[0].method@ == ("add")@ && r@[0].bin && r@[0].on_unsigned,
        r@[1].method@ == ("sub")@ && r@[1].bin && r@[1].on_unsigned,
        r@[2].method@ == ("mul")@ && r@[2].bin && r@[2].on_unsigned,
        r@[3].method@ == ("div")@ && r@[3].bin && r@[3].on_unsigned,
        r@[4].method@ == ("rem")@ && r@[4].bin && r@[4].on_unsigned,
        r@[5].method@ == ("neg")@ && !r@[5].bin && !r@[5].on_unsigned,
{
    let mut t: Vec<Operator> = Vec::new();
    t.push(Operator { trait_name: "Add", method: "add", description: "add", bin: true, on_unsigned: true });
    t.push(Operator { trait_name: "Sub", method: "sub", description: "subtract", bin: true, on_unsigned: true });
    t.push(Operator { trait_name: "Mul", method: "mul", description: "multiply", bin: true, on_unsigned: true });
    t.push(Operator { trait_name: "Div", method: "div", description: "divide", bin: true, on_unsigned: true });
    t.push(Operator { trait_name: "Rem", method: "rem", description: "take remainder", bin: true, on_unsigned: true });
    t.push(Operator { trait_name: "Neg", method: "neg", description: "negate", bin: false, on_unsigned: false });
    t
}

/// The checked-operator table, in the order the operations are offered:
/// the three total operations with every form, the division family without
/// saturating forms, negation without a saturating form on unsigned
/// representations, absolute value only on signed ones, and exponentiation
/// with every form.
pub fn checked_operators() -> (r: Vec<CheckedOperator>)
    ensures
        r@.len() == 10,
        r@[0].name@ == ("add")@ && r@[0].saturating && r@[0].on_unsigned == CheckedOnUnsigned::All,
        r@[1].name@ == ("sub")@ && r@[1].saturating && r@[1].on_unsigned == CheckedOnUnsigned::All,
        r@[2].name@ == ("mul")@ && r@[2].saturating && r@[2].on_unsigned == CheckedOnUnsigned::All,
        r@[3].name@ == ("div")@ && !r@[3].saturating && r@[3].on_unsigned
            == CheckedOnUnsigned::All,
        r@[4].name@ == ("div_euclid")@ && !r@[4].saturating && r@[4].on_unsigned
            == CheckedOnUnsigned::All,
        r@[5].name@ == ("rem")@ && !r@[5].saturating && r@[5].on_unsigned
            == CheckedOnUnsigned::All,
        r@[6].name@ == ("rem_euclid")@ && !r@[6].saturating && r@[6].on_unsigned
            == CheckedOnUnsigned::All,
        r@[7].name@ == ("neg")@ && r@[7].saturating && r@[7].on_unsigned
            == CheckedOnUnsigned::NoSaturating,
        r@[8].name@ == ("abs")@ && r@[8].saturating && r@[8].on_unsigned
            == CheckedOnUnsigned::Never,
        r@[9].name@ == ("pow")@ && r@[9].saturating && r@[9].on_unsigned
            == CheckedOnUnsigned::All,
        forall|k: int| 0 <= k < 7 ==> ((#[trigger] r@[k].rhs) matches Some(t) && t@ == ("Self")@),
        r@[7].rhs is None && r@[8].rhs is None,
        (r@[9].rhs matches Some(t) && t@ == ("u32")@),
{
    let mut t: Vec<CheckedOperator> = Vec::new();
    t.push(CheckedOperator::new("add", "integer addition", Some("Self"), true, CheckedOnUnsigned::All));
    t.push(CheckedOperator::new("sub", "integer subtraction", Some("Self"), true, CheckedOnUnsigned::All));
    t.push(CheckedOperator::new("mul", "integer multiplication", Some("Self"), true, CheckedOnUnsigned::All));
    t.push(CheckedOperator::new("div", "integer division", Some("Self"), false, CheckedOnUnsigned::All));
    t.push(CheckedOperator::new("div_euclid", "Euclidean division", Some("Self"), false, CheckedOnUnsigned::All));
    t.push(CheckedOperator::new("rem", "integer remainder", Some("Self"), false, CheckedOnUnsigned::All));
    t.push(CheckedOperator::new("rem_euclid", "Euclidean remainder", Some("Self"), false, CheckedOnUnsigned::All));
    t.push(CheckedOperator::new("neg", "negation", None, true, CheckedOnUnsigned::NoSaturating));
    t.push(CheckedOperator::new("abs", "absolute value", None, true, CheckedOnUnsigned::Never));
    t.push(CheckedOperator::new("pow", "exponentiation", Some("u32"), true, CheckedOnUnsigned::All));
    t
}

} // verus!
