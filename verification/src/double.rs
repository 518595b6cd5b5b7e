//! Double-precision numbers as bit patterns.

use vstd::prelude::*;

verus! {

/// An IEEE 754 binary64 number, held as its bit pattern.
pub type Double = u64;

/// The sign bit.
pub const SIGN: u64 = 0x8000_0000_0000_0000;

/// Positive zero.
pub const ZERO: Double = 0;

/// One half.
pub const HALF: Double = 0x3FE0_0000_0000_0000;

/// Minus one.
pub const MINUS_ONE: Double = 0xBFF0_0000_0000_0000;

/// `a == 0` as IEEE 754 defines it: true of both zeros and of nothing else.
pub open spec fn is_zero(a: Double) -> bool {
    a == ZERO || a == SIGN
}

/// Decides `a == 0`.
pub fn zero(a: Double) -> (r: bool)
    ensures
        r == is_zero(a),
{
    a == ZERO || a == SIGN
}

} // verus!
