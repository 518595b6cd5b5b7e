//! Single-precision numbers as bit patterns, and what can be decided about
//! them without rounding: sign, order, negation.

use vstd::prelude::*;
use vstd::arithmetic::power2::{lemma_pow2_pos, lemma_pow2_strictly_increases, lemma_pow2_unfold, pow2};

verus! {

/// An IEEE 754 binary32 number, held as its bit pattern.
pub type Single = u32;

/// The sign bit.
pub const SIGN: u32 = 0x8000_0000;

/// Positive infinity; every larger magnitude is a NaN.
pub const INFINITY: Single = 0x7F80_0000;

/// Positive zero.
pub const ZERO: Single = 0;

/// One half.
pub const HALF: Single = 0x3F00_0000;

/// The bit pattern with its sign bit cleared.
pub open spec fn magnitude(a: Single) -> int {
    if a >= SIGN {
        a - SIGN
    } else {
        a as int
    }
}

pub open spec fn is_negative(a: Single) -> bool {
    a >= SIGN
}

pub open spec fn is_nan(a: Single) -> bool {
    magnitude(a) > INFINITY
}

/// The place of `a` on the number line: numbers that are not NaN compare
/// as their ranks do.  Both zeros have rank 0.
pub open spec fn rank(a: Single) -> int {
    if is_negative(a) {
        -magnitude(a)
    } else {
        magnitude(a)
    }
}

/// `a > b` as IEEE 754 defines it: false whenever either side is a NaN.
pub open spec fn exceeds(a: Single, b: Single) -> bool {
    !is_nan(a) && !is_nan(b) && rank(a) > rank(b)
}

/// `a > 0`.
pub open spec fn is_positive(a: Single) -> bool {
    exceeds(a, ZERO)
}

pub open spec fn is_finite(a: Single) -> bool {
    magnitude(a) < INFINITY
}

/// The exponent field.
pub open spec fn exponent(a: Single) -> int {
    magnitude(a) / 0x80_0000
}

/// The fraction field.
pub open spec fn fraction(a: Single) -> int {
    magnitude(a) % 0x80_0000
}

/// The absolute value of a finite number, in units of 2^-149, the smallest
/// positive number.
pub open spec fn size(a: Single) -> int {
    if exponent(a) == 0 {
        fraction(a)
    } else {
        (0x80_0000 + fraction(a)) * pow2((exponent(a) - 1) as nat)
    }
}

/// The finite number that `a` stands for, in units of 2^-149.
pub open spec fn value(a: Single) -> int {
    if is_negative(a) {
        -size(a)
    } else {
        size(a)
    }
}

/// `-a`: the same magnitude under the opposite sign bit.
pub open spec fn negation(a: Single) -> Single {
    if a >= SIGN {
        (a - SIGN) as u32
    } else {
        (a + SIGN) as u32
    }
}

fn rank_of(a: Single) -> (r: i64)
    ensures
        r == rank(a),
{
    if a >= SIGN {
        -((a - SIGN) as i64)
    } else {
        a as i64
    }
}

fn nan(a: Single) -> (r: bool)
    ensures
        r == is_nan(a),
{
    if a >= SIGN {
        a - SIGN > INFINITY
    } else {
        a > INFINITY
    }
}

/// Decides `a > b`.
pub fn greater(a: Single, b: Single) -> (r: bool)
    ensures
        r == exceeds(a, b),
{
    !nan(a) && !nan(b) && rank_of(a) > rank_of(b)
}

/// Decides `a < b`.
pub fn less(a: Single, b: Single) -> (r: bool)
    ensures
        r == exceeds(b, a),
{
    greater(b, a)
}

/// Decides `a > 0`.
pub fn positive(a: Single) -> (r: bool)
    ensures
        r == is_positive(a),
{
    greater(a, ZERO)
}

/// Computes `-a`.
pub fn negate(a: Single) -> (r: Single)
    ensures
        r == negation(a),
{
    if a >= SIGN {
        a - SIGN
    } else {
        a + SIGN
    }
}

/// Negating twice gives the number back, bit for bit.
pub proof fn lemma_negation_involutive(a: Single)
    ensures
        negation(negation(a)) == a,
{
}

/// Negation mirrors the number line and keeps NaNs NaNs.
pub proof fn lemma_negation_mirrors(a: Single)
    ensures
        rank(negation(a)) == -rank(a),
        is_nan(negation(a)) == is_nan(a),
{
}

/// Among finite numbers, a larger magnitude stands for a larger size.
pub proof fn lemma_size_grows_with_magnitude(a: Single, b: Single)
    requires
        is_finite(a),
        is_finite(b),
        magnitude(a) < magnitude(b),
    ensures
        0 <= size(a) < size(b),
{
    let ea = exponent(a);
    let eb = exponent(b);
    let fa = fraction(a);
    let fb = fraction(b);
    if ea == 0 {
        if eb > 0 {
            lemma_pow2_pos((eb - 1) as nat);
            assert(0x80_0000 <= (0x80_0000 + fb) * pow2((eb - 1) as nat)) by (nonlinear_arith)
                requires
                    fb >= 0,
                    pow2((eb - 1) as nat) >= 1,
            ;
        }
    } else {
        let pa = pow2((ea - 1) as nat);
        let pb = pow2((eb - 1) as nat);
        lemma_pow2_pos((ea - 1) as nat);
        if ea == eb {
            assert((0x80_0000 + fa) * pa < (0x80_0000 + fb) * pa) by (nonlinear_arith)
                requires
                    0 <= fa < fb,
                    pa >= 1,
            ;
        } else {
            lemma_pow2_unfold(ea as nat);
            if ea < eb - 1 {
                lemma_pow2_strictly_increases(ea as nat, (eb - 1) as nat);
            }
            assert((0x80_0000 + fa) * pa < 0x80_0000 * pb) by (nonlinear_arith)
                requires
                    0 <= fa < 0x80_0000,
                    pa >= 1,
                    2 * pa <= pb,
            ;
            assert(0x80_0000 * pb <= (0x80_0000 + fb) * pb) by (nonlinear_arith)
                requires
                    fb >= 0,
                    pb >= 0,
            ;
        }
        assert(0 <= (0x80_0000 + fa) * pa) by (nonlinear_arith)
            requires
                fa >= 0,
                pa >= 0,
        ;
    }
}

/// The order of the bit patterns is the order of the numbers: among finite
/// numbers, `a > b` holds exactly where `a` stands for the larger number.
pub proof fn lemma_order_is_numeric(a: Single, b: Single)
    requires
        is_finite(a),
        is_finite(b),
    ensures
        exceeds(a, b) <==> value(a) > value(b),
        rank(a) == rank(b) <==> value(a) == value(b),
{
    if magnitude(a) < magnitude(b) {
        lemma_size_grows_with_magnitude(a, b);
    } else if magnitude(b) < magnitude(a) {
        lemma_size_grows_with_magnitude(b, a);
    }
    lemma_zero_size(a);
    lemma_zero_size(b);
}

/// Only the two zeros have size zero.
proof fn lemma_zero_size(a: Single)
    requires
        is_finite(a),
    ensures
        size(a) >= 0,
        size(a) == 0 <==> magnitude(a) == 0,
{
    if exponent(a) > 0 {
        lemma_pow2_pos((exponent(a) - 1) as nat);
        assert(0 < (0x80_0000 + fraction(a)) * pow2((exponent(a) - 1) as nat)) by (nonlinear_arith)
            requires
                fraction(a) >= 0,
                pow2((exponent(a) - 1) as nat) >= 1,
        ;
    }
}

/// `>` is irreflexive, asymmetric and transitive.
pub proof fn lemma_exceeds_strict_order(a: Single, b: Single, c: Single)
    ensures
        !exceeds(a, a),
        exceeds(a, b) ==> !exceeds(b, a),
        exceeds(a, b) && exceeds(b, c) ==> exceeds(a, c),
{
}

} // verus!
