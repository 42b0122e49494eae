//! Variant naming for enumerated bounded integers, and the decimal
//! rendering the names and range descriptions rest on.

use vstd::prelude::*;

use crate::bounded::Bounds;
use crate::repr::lemma_repr_within_carrier;
use vstd::string::StringExecFns;

verus! {

/// The character for one decimal digit value.
pub open spec fn digit_char(d: int) -> char {
    if d == 0 {
        '0'
    } else if d == 1 {
        '1'
    } else if d == 2 {
        '2'
    } else if d == 3 {
        '3'
    } else if d == 4 {
        '4'
    } else if d == 5 {
        '5'
    } else if d == 6 {
        '6'
    } else if d == 7 {
        '7'
    } else if d == 8 {
        '8'
    } else {
        '9'
    }
}

/// The decimal digits of a nonnegative value, most significant first.
pub open spec fn dec_spec(n: int) -> Seq<char>
    decreases n,
    when n >= 0
{
    if n < 10 {
        seq![digit_char(n)]
    } else {
        dec_spec(n / 10) + seq![digit_char(n % 10)]
    }
}

/// The decimal rendering of any integer: a minus sign before the digits of
/// the magnitude where negative.
pub open spec fn int_str_spec(n: int) -> Seq<char> {
    if n < 0 {
        seq!['-'] + dec_spec(-n)
    } else {
        dec_spec(n)
    }
}

/// The symbolic variant name of a value: `N` before the magnitude for a
/// negative value, `Z0` for zero, `P` before the value for a positive one.
pub open spec fn variant_name_spec(i: int) -> Seq<char> {
    if i < 0 {
        seq!['N'] + dec_spec(-i)
    } else if i == 0 {
        seq!['Z', '0']
    } else {
        seq!['P'] + dec_spec(i)
    }
}

/// Distinct digit values render as distinct characters.
proof fn lemma_digit_char_injective(a: int, b: int)
    requires
        0 <= a < 10,
        0 <= b < 10,
        digit_char(a) == digit_char(b),
    ensures
        a == b,
{
}

/// A decimal rendering is never empty.
proof fn lemma_dec_len_pos(n: int)
    requires
        n >= 0,
    ensures
        dec_spec(n).len() >= 1,
    decreases n,
{
    if n >= 10 {
        lemma_dec_len_pos(n / 10);
    }
}

/// Distinct nonnegative values have distinct decimal renderings.
proof fn lemma_dec_injective(a: int, b: int)
    requires
        a >= 0,
        b >= 0,
        dec_spec(a) == dec_spec(b),
    ensures
        a == b,
    decreases a + b,
{
    if a < 10 && b < 10 {
        assert(dec_spec(a) == seq![digit_char(a)]);
        assert(dec_spec(b) == seq![digit_char(b)]);
        assert(dec_spec(a)[0] == digit_char(a));
        assert(dec_spec(b)[0] == digit_char(b));
        lemma_digit_char_injective(a, b);
    } else if a < 10 {
        assert(dec_spec(a) == seq![digit_char(a)]);
        assert(dec_spec(b) == dec_spec(b / 10) + seq![digit_char(b % 10)]);
        lemma_dec_len_pos(b / 10);
        assert(dec_spec(b).len() >= 2);
        assert(false);
    } else if b < 10 {
        assert(dec_spec(b) == seq![digit_char(b)]);
        assert(dec_spec(a) == dec_spec(a / 10) + seq![digit_char(a % 10)]);
        lemma_dec_len_pos(a / 10);
        assert(dec_spec(a).len() >= 2);
        assert(false);
    } else {
        let s1 = dec_spec(a / 10);
        let s2 = dec_spec(b / 10);
        assert(dec_spec(a) == s1 + seq![digit_char(a % 10)]);
        assert(dec_spec(b) == s2 + seq![digit_char(b % 10)]);
        lemma_dec_len_pos(a / 10);
        lemma_dec_len_pos(b / 10);
        assert(dec_spec(a).len() == s1.len() + 1);
        assert(dec_spec(b).len() == s2.len() + 1);
        assert(s1.len() == s2.len());
        assert(dec_spec(a)[s1.len() as int] == digit_char(a % 10));
        assert(dec_spec(b)[s2.len() as int] == digit_char(b % 10));
        lemma_digit_char_injective(a % 10, b % 10);
        assert(s1 =~= s2) by {
            assert forall|k: int| 0 <= k < s1.len() implies s1[k] == s2[k] by {
                assert(s1[k] == dec_spec(a)[k]);
                assert(s2[k] == dec_spec(b)[k]);
            }
        };
        lemma_dec_injective(a / 10, b / 10);
        assert(a == 10 * (a / 10) + a % 10);
        assert(b == 10 * (b / 10) + b % 10);
    }
}

/// The variant naming is one to one: distinct values get distinct symbolic
/// names, so the names of a closed range stand in bijection with its
/// integers.
pub proof fn lemma_variant_name_injective(i: int, j: int)
    requires
        variant_name_spec(i) == variant_name_spec(j),
    ensures
        i == j,
{
    if i < 0 && j < 0 {
        let s1 = dec_spec(-i);
        let s2 = dec_spec(-j);
        assert(variant_name_spec(i) == seq!['N'] + s1);
        assert(variant_name_spec(j) == seq!['N'] + s2);
        assert(s1.len() == s2.len());
        assert(s1 =~= s2) by {
            assert forall|k: int| 0 <= k < s1.len() implies s1[k] == s2[k] by {
                assert(s1[k] == variant_name_spec(i)[k + 1]);
                assert(s2[k] == variant_name_spec(j)[k + 1]);
            }
        };
        lemma_dec_injective(-i, -j);
    } else if i > 0 && j > 0 {
        let s1 = dec_spec(i);
        let s2 = dec_spec(j);
        assert(variant_name_spec(i) == seq!['P'] + s1);
        assert(variant_name_spec(j) == seq!['P'] + s2);
        assert(s1.len() == s2.len());
        assert(s1 =~= s2) by {
            assert forall|k: int| 0 <= k < s1.len() implies s1[k] == s2[k] by {
                assert(s1[k] == variant_name_spec(i)[k + 1]);
                assert(s2[k] == variant_name_spec(j)[k + 1]);
            }
        };
        lemma_dec_injective(i, j);
    } else if i != j {
        // The signs differ, and with them the names' first characters.
        if i < 0 {
            assert(variant_name_spec(i)[0] == 'N');
        } else if i == 0 {
            assert(variant_name_spec(i)[0] == 'Z');
        } else {
            assert(variant_name_spec(i)[0] == 'P');
        }
        if j < 0 {
            assert(variant_name_spec(j)[0] == 'N');
        } else if j == 0 {
            assert(variant_name_spec(j)[0] == 'Z');
        } else {
            assert(variant_name_spec(j)[0] == 'P');
        }
        assert(false);
    }
}

/// One digit as text.
fn digit_str(d: u64) -> (r: &'static str)
    requires
        d < 10,
    ensures
        r@ == seq![digit_char(d as int)],
{
    proof {
        reveal_strlit("0");
        reveal_strlit("1");
        reveal_strlit("2");
        reveal_strlit("3");
        reveal_strlit("4");
        reveal_strlit("5");
        reveal_strlit("6");
        reveal_strlit("7");
        reveal_strlit("8");
        reveal_strlit("9");
    }
    let r = if d == 0 {
        "0"
    } else if d == 1 {
        "1"
    } else if d == 2 {
        "2"
    } else if d == 3 {
        "3"
    } else if d == 4 {
        "4"
    } else if d == 5 {
        "5"
    } else if d == 6 {
        "6"
    } else if d == 7 {
        "7"
    } else if d == 8 {
        "8"
    } else {
        "9"
    };
    proof {
        assert(r@ =~= seq![digit_char(d as int)]);
    }
    r
}

/// Appends the decimal digits of a magnitude, most significant first.
fn push_decimal(out: &mut String, n: u64)
    ensures
        final (out)@ == old(out)@ + dec_spec(n as int),
    decreases n,
{
    if n >= 10 {
        push_decimal(out, n / 10);
        out.append(digit_str(n % 10));
        proof {
            assert(out@ =~= old(out)@ + dec_spec(n as int));
        }
    } else {
        out.append(digit_str(n));
    }
}

/// Renders any representation value in decimal.
pub fn decimal_string(n: i128) -> (r: String)
    requires
        -0xffff_ffff_ffff_ffff <= n <= 0xffff_ffff_ffff_ffff,
    ensures
        r@ == int_str_spec(n as int),
{
    let mut out = String::new();
    if n < 0 {
        proof {
            reveal_strlit("-");
            assert(("-")@ =~= seq!['-']);
        }
        out.append("-");
        push_decimal(&mut out, (-n) as u64);
        proof {
            assert(out@ =~= int_str_spec(n as int));
        }
    } else {
        push_decimal(&mut out, n as u64);
        proof {
            assert(out@ =~= int_str_spec(n as int));
        }
    }
    out
}

/// The variant name of one range value.
pub fn variant_name(i: i128) -> (r: String)
    requires
        -0xffff_ffff_ffff_ffff <= i <= 0xffff_ffff_ffff_ffff,
    ensures
        r@ == variant_name_spec(i as int),
{
    let mut out = String::new();
    if i < 0 {
        proof {
            reveal_strlit("N");
            assert(("N")@ =~= seq!['N']);
        }
        out.append("N");
        push_decimal(&mut out, (-i) as u64);
        proof {
            assert(out@ =~= variant_name_spec(i as int));
        }
    } else if i == 0 {
        proof {
            reveal_strlit("Z0");
            assert(("Z0")@ =~= seq!['Z', '0']);
        }
        out.append("Z0");
        proof {
            assert(out@ =~= variant_name_spec(i as int));
        }
    } else {
        proof {
            reveal_strlit("P");
            assert(("P")@ =~= seq!['P']);
        }
        out.append("P");
        push_decimal(&mut out, i as u64);
        proof {
            assert(out@ =~= variant_name_spec(i as int));
        }
    }
    out
}

/// The ordered variant list of an enumerated range: one symbolic name per
/// value, ascending, so that the first name stands for the range's minimum
/// and each later one for a value exactly one greater.
pub fn variant_names(b: &Bounds) -> (r: Vec<String>)
    requires
        b.wf(),
        b.count() <= usize::MAX,
    ensures
        r@.len() == b.count(),
        forall|k: int| 0 <= k < r@.len() ==> r@[k]@ == variant_name_spec(b.lo() + k),
{
    proof {
        lemma_repr_within_carrier(b.repr_spec());
    }
    let count = b.range_size();
    let n: usize = count as usize;
    let mut out: Vec<String> = Vec::new();
    let mut k: usize = 0;
    while k < n
        invariant
            b.wf(),
            n == b.count(),
            k <= n,
            out@.len() == k,
            forall|j: int| 0 <= j < k ==> out@[j]@ == variant_name_spec(b.lo() + j),
        decreases n - k,
    {
        proof {
            lemma_repr_within_carrier(b.repr_spec());
        }
        let v = b.min_value() + (k as i128);
        out.push(variant_name(v));
        k = k + 1;
    }
    out
}

/// The range description a failed re-validation reports: the message that
/// restates both bounds of the range.
pub fn range_message(b: &Bounds) -> (r: String)
    requires
        b.wf(),
    ensures
        r@ == ("integer out of range, expected it to be between ")@ + int_str_spec(b.lo()) + (
        " and ")@ + int_str_spec(b.hi()),
{
    proof {
        lemma_repr_within_carrier(b.repr_spec());
    }
    let mut out = String::from_str("integer out of range, expected it to be between ");
    let lo_str = decimal_string(b.min_value());
    out.append(lo_str.as_str());
    out.append(" and ");
    let hi_str = decimal_string(b.max_value());
    out.append(hi_str.as_str());
    out
}

} // verus!
