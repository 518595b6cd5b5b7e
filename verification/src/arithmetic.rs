//! The rounding arithmetic that the simulation is built on.
//!
//! The crate never rounds a number itself.  It asks an `Arithmetic` for each
//! operation and fixes, in its contracts, which operations are asked for, on
//! which operands and in which order.  The relations below say "`r` is what
//! the arithmetic returned for this operation on these operands"; nothing is
//! assumed about which value that is.

use vstd::prelude::*;
use crate::single::Single;
use crate::double::Double;

verus! {

/// The operations of IEEE 754 arithmetic that the simulation uses, on bit
/// patterns.
pub trait Arithmetic {
    /// `a + b` in single precision.
    fn plus(&self, a: Single, b: Single) -> Single;

    /// `a - b` in single precision.
    fn minus(&self, a: Single, b: Single) -> Single;

    /// `a * b` in single precision.
    fn times(&self, a: Single, b: Single) -> Single;

    /// `a / b` in single precision.
    fn over(&self, a: Single, b: Single) -> Single;

    /// The square root of `a` in single precision.
    fn root(&self, a: Single) -> Single;

    /// `a` converted to double precision.
    fn widen(&self, a: Single) -> Double;

    /// `a + b` in double precision.
    fn plus_wide(&self, a: Double, b: Double) -> Double;

    /// `a * b` in double precision.
    fn times_wide(&self, a: Double, b: Double) -> Double;

    /// `a / b` in double precision.
    fn over_wide(&self, a: Double, b: Double) -> Double;

    /// The square root of `a` in double precision.
    fn root_wide(&self, a: Double) -> Double;
}

pub open spec fn sum<K: Arithmetic>(k: &K, a: Single, b: Single, r: Single) -> bool {
    call_ensures(K::plus, (k, a, b), r)
}

pub open spec fn difference<K: Arithmetic>(k: &K, a: Single, b: Single, r: Single) -> bool {
    call_ensures(K::minus, (k, a, b), r)
}

pub open spec fn product<K: Arithmetic>(k: &K, a: Single, b: Single, r: Single) -> bool {
    call_ensures(K::times, (k, a, b), r)
}

pub open spec fn quotient<K: Arithmetic>(k: &K, a: Single, b: Single, r: Single) -> bool {
    call_ensures(K::over, (k, a, b), r)
}

pub open spec fn square_root<K: Arithmetic>(k: &K, a: Single, r: Single) -> bool {
    call_ensures(K::root, (k, a), r)
}

pub open spec fn widened<K: Arithmetic>(k: &K, a: Single, r: Double) -> bool {
    call_ensures(K::widen, (k, a), r)
}

pub open spec fn wide_sum<K: Arithmetic>(k: &K, a: Double, b: Double, r: Double) -> bool {
    call_ensures(K::plus_wide, (k, a, b), r)
}

pub open spec fn wide_product<K: Arithmetic>(k: &K, a: Double, b: Double, r: Double) -> bool {
    call_ensures(K::times_wide, (k, a, b), r)
}

pub open spec fn wide_quotient<K: Arithmetic>(k: &K, a: Double, b: Double, r: Double) -> bool {
    call_ensures(K::over_wide, (k, a, b), r)
}

pub open spec fn wide_square_root<K: Arithmetic>(k: &K, a: Double, r: Double) -> bool {
    call_ensures(K::root_wide, (k, a), r)
}

/// `r` is `a * a + b * b` in single precision.
pub open spec fn sum_of_squares<K: Arithmetic>(k: &K, a: Single, b: Single, r: Single) -> bool {
    exists|aa: Single, bb: Single|
        #![trigger product(k, a, a, aa), product(k, b, b, bb)]
        product(k, a, a, aa) && product(k, b, b, bb) && sum(k, aa, bb, r)
}

/// `r` is `a * a + b * b` in double precision.
pub open spec fn wide_sum_of_squares<K: Arithmetic>(k: &K, a: Double, b: Double, r: Double) -> bool {
    exists|aa: Double, bb: Double|
        #![trigger wide_product(k, a, a, aa), wide_product(k, b, b, bb)]
        wide_product(k, a, a, aa) && wide_product(k, b, b, bb) && wide_sum(k, aa, bb, r)
}

/// Computes `a * a + b * b` in single precision.
pub fn square_sum<K: Arithmetic>(k: &K, a: Single, b: Single) -> (r: Single)
    ensures
        sum_of_squares(k, a, b, r),
{
    let aa = k.times(a, a);
    let bb = k.times(b, b);
    assert(product(k, a, a, aa) && product(k, b, b, bb));
    k.plus(aa, bb)
}

/// Computes `a * a + b * b` in double precision.
pub fn wide_square_sum<K: Arithmetic>(k: &K, a: Double, b: Double) -> (r: Double)
    ensures
        wide_sum_of_squares(k, a, b, r),
{
    let aa = k.times_wide(a, a);
    let bb = k.times_wide(b, b);
    assert(wide_product(k, a, a, aa) && wide_product(k, b, b, bb));
    k.plus_wide(aa, bb)
}

/// The arithmetic answers each question in one way only.
pub open spec fn deterministic<K: Arithmetic>(k: &K) -> bool {
    &&& forall|a: Single, b: Single, r: Single, s: Single|
        #![trigger sum(k, a, b, r), sum(k, a, b, s)]
        sum(k, a, b, r) && sum(k, a, b, s) ==> r == s
    &&& forall|a: Single, b: Single, r: Single, s: Single|
        #![trigger difference(k, a, b, r), difference(k, a, b, s)]
        difference(k, a, b, r) && difference(k, a, b, s) ==> r == s
    &&& forall|a: Single, b: Single, r: Single, s: Single|
        #![trigger product(k, a, b, r), product(k, a, b, s)]
        product(k, a, b, r) && product(k, a, b, s) ==> r == s
    &&& forall|a: Single, b: Single, r: Single, s: Single|
        #![trigger quotient(k, a, b, r), quotient(k, a, b, s)]
        quotient(k, a, b, r) && quotient(k, a, b, s) ==> r == s
    &&& forall|a: Single, r: Single, s: Single|
        #![trigger square_root(k, a, r), square_root(k, a, s)]
        square_root(k, a, r) && square_root(k, a, s) ==> r == s
    &&& forall|a: Single, r: Double, s: Double|
        #![trigger widened(k, a, r), widened(k, a, s)]
        widened(k, a, r) && widened(k, a, s) ==> r == s
    &&& forall|a: Double, b: Double, r: Double, s: Double|
        #![trigger wide_sum(k, a, b, r), wide_sum(k, a, b, s)]
        wide_sum(k, a, b, r) && wide_sum(k, a, b, s) ==> r == s
    &&& forall|a: Double, b: Double, r: Double, s: Double|
        #![trigger wide_product(k, a, b, r), wide_product(k, a, b, s)]
        wide_product(k, a, b, r) && wide_product(k, a, b, s) ==> r == s
    &&& forall|a: Double, b: Double, r: Double, s: Double|
        #![trigger wide_quotient(k, a, b, r), wide_quotient(k, a, b, s)]
        wide_quotient(k, a, b, r) && wide_quotient(k, a, b, s) ==> r == s
    &&& forall|a: Double, r: Double, s: Double|
        #![trigger wide_square_root(k, a, r), wide_square_root(k, a, s)]
        wide_square_root(k, a, r) && wide_square_root(k, a, s) ==> r == s
}

} // verus!
