//! The primitive integer representations that can back a bounded value.

use vstd::prelude::*;

verus! {

/// A fixed-width primitive integer representation: signed or unsigned, of a
/// given width. The representation decides where the native extremes lie and
/// whether the signed-only operations (negation, absolute value) exist.
///
/// Every representation's values fit in an `i128`, which the engine uses as
/// its carrier; the two 128-bit primitives are not offered, so that the count
/// of a full-width range is always representable in the carrier.
#[derive(Debug, Clone, Copy, PartialEq, Eq, Hash, PartialOrd, Ord, Structural)]
pub enum Repr {
    I8,
    I16,
    I32,
    I64,
    Isize,
    U8,
    U16,
    U32,
    U64,
    Usize,
}

impl Repr {
    /// The smallest value the representation itself can hold.
    pub open spec fn min_spec(self) -> int {
        match self {
            Repr::I8 => -0x80,
            Repr::I16 => -0x8000,
            Repr::I32 => -0x8000_0000,
            Repr::I64 => -0x8000_0000_0000_0000,
            Repr::Isize => isize::MIN as int,
            Repr::U8 => 0,
            Repr::U16 => 0,
            Repr::U32 => 0,
            Repr::U64 => 0,
            Repr::Usize => 0,
        }
    }

    /// The largest value the representation itself can hold.
    pub open spec fn max_spec(self) -> int {
        match self {
            Repr::I8 => 0x7f,
            Repr::I16 => 0x7fff,
            Repr::I32 => 0x7fff_ffff,
            Repr::I64 => 0x7fff_ffff_ffff_ffff,
            Repr::Isize => isize::MAX as int,
            Repr::U8 => 0xff,
            Repr::U16 => 0xffff,
            Repr::U32 => 0xffff_ffff,
            Repr::U64 => 0xffff_ffff_ffff_ffff,
            Repr::Usize => usize::MAX as int,
        }
    }

    /// Whether the representation is unsigned. Unsigned representations never
    /// support negation as a default operator, nor absolute value.
    pub open spec fn is_unsigned_spec(self) -> bool {
        match self {
            Repr::U8 => true,
            Repr::U16 => true,
            Repr::U32 => true,
            Repr::U64 => true,
            Repr::Usize => true,
            _ => false,
        }
    }

    /// Whether `n` is a value of the representation at all.
    pub open spec fn holds(self, n: int) -> bool {
        self.min_spec() <= n <= self.max_spec()
    }

    /// The native minimum, as a carrier value.
    pub fn min_value(self) -> (r: i128)
        ensures
            r as int == self.min_spec(),
    {
        match self {
            Repr::I8 => -0x80,
            Repr::I16 => -0x8000,
            Repr::I32 => -0x8000_0000,
            Repr::I64 => -0x8000_0000_0000_0000,
            Repr::Isize => isize::MIN as i128,
            Repr::U8 => 0,
            Repr::U16 => 0,
            Repr::U32 => 0,
            Repr::U64 => 0,
            Repr::Usize => 0,
        }
    }

    /// The native maximum, as a carrier value.
    pub fn max_value(self) -> (r: i128)
        ensures
            r as int == self.max_spec(),
    {
        match self {
            Repr::I8 => 0x7f,
            Repr::I16 => 0x7fff,
            Repr::I32 => 0x7fff_ffff,
            Repr::I64 => 0x7fff_ffff_ffff_ffff,
            Repr::Isize => isize::MAX as i128,
            Repr::U8 => 0xff,
            Repr::U16 => 0xffff,
            Repr::U32 => 0xffff_ffff,
            Repr::U64 => 0xffff_ffff_ffff_ffff,
            Repr::Usize => usize::MAX as i128,
        }
    }

    /// Whether the representation is unsigned.
    pub fn is_unsigned(self) -> (r: bool)
        ensures
            r == self.is_unsigned_spec(),
    {
        match self {
            Repr::U8 => true,
            Repr::U16 => true,
            Repr::U32 => true,
            Repr::U64 => true,
            Repr::Usize => true,
            _ => false,
        }
    }
}

/// Every representation's range sits inside `[i64::MIN, u64::MAX]`, so sums
/// and differences of representation values stay far from the carrier's own
/// extremes.
pub proof fn lemma_repr_within_carrier(r: Repr)
    ensures
        -0x8000_0000_0000_0000 <= r.min_spec() <= r.max_spec() <= 0xffff_ffff_ffff_ffff,
{
}

} // verus!
