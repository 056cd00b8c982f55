//! Counts and times at a rate, rounded down.

use vstd::prelude::*;

verus! {

/// A quotient that is rounded down: the largest number of whole parts that fit.
pub proof fn rounded_down(a: int, b: int)
    requires
        b > 0,
    ensures
        a / b * b <= a,
        a < (a / b + 1) * b,
        a % b == 0 ==> a / b * b == a,
        a >= 0 ==> a / b >= 0,
{
    assert(a == b * (a / b) + a % b && 0 <= a % b < b) by (nonlinear_arith)
        requires
            b > 0,
    ;
    assert(a / b * b <= a && a < (a / b + 1) * b && (a % b == 0 ==> a / b * b == a)) by (nonlinear_arith)
        requires
            a == b * (a / b) + a % b,
            0 <= a % b < b,
    ;
    assert(a >= 0 ==> a / b >= 0) by (nonlinear_arith)
        requires
            b > 0,
    ;
}

/// What fits once `n` whole parts are taken: `n` is the quotient.
pub proof fn fits_exactly(n: int, a: int, b: int)
    requires
        b > 0,
        n * b <= a,
        a < (n + 1) * b,
    ensures
        n == a / b,
{
    rounded_down(a, b);
    let q = a / b;
    assert(n == q) by (nonlinear_arith)
        requires
            b > 0,
            n * b <= a,
            a < (n + 1) * b,
            q * b <= a,
            a < (q + 1) * b,
    ;
}

} // verus!
