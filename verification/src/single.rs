//! Single-precision readings, carried as their bit patterns.

use vstd::prelude::*;

verus! {

/// An IEEE 754 single-precision number, as its bit pattern. The core stores such
/// readings and asks whether one is positive; it does no arithmetic on them.
#[derive(Debug, Clone, Copy, PartialEq, Eq, Structural)]
pub struct Single {
    pub bits: u32,
}

impl Single {
    /// Whether the number is greater than zero. The sign bit is clear, some other
    /// bit is set, and the pattern does not lie behind that of infinity, where
    /// the patterns that are no numbers begin.
    pub open spec fn positive(self) -> bool {
        0 < self.bits <= 0x7f80_0000
    }

    /// Tests whether the number is greater than zero.
    pub fn is_positive(&self) -> (r: bool)
        ensures
            r == self.positive(),
    {
        0 < self.bits && self.bits <= 0x7f80_0000
    }

    /// Zero.
    pub fn zero() -> (r: Single)
        ensures
            r.bits == 0,
            !r.positive(),
    {
        Single { bits: 0 }
    }
}

/// A number is positive exactly where its sign is clear, its exponent and fraction are
/// not both zero, and it is a number at all: its exponent is not all ones, or it is
/// infinite, with a fraction of zero.
pub proof fn law_positive(x: Single)
    ensures
        x.positive() <==> {
            let sign = x.bits as int / 0x8000_0000;
            let exponent = x.bits as int / 0x80_0000 % 256;
            let fraction = x.bits as int % 0x80_0000;
            &&& sign == 0
            &&& exponent > 0 || fraction > 0
            &&& exponent < 255 || fraction == 0
        },
{
}

} // verus!
