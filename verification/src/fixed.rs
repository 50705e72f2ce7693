//! Fixed-point conventions shared by the processors.

use vstd::prelude::*;

verus! {

/// Number of fixed-point steps in one unit: quantities are counted in millionths.
pub const MICRO: i64 = 1_000_000;

/// Quotient rounded towards negative infinity, for a positive divisor.
///
/// This is the division that contracts write as `/` on `int`.
pub fn div_floor(a: i128, b: i128) -> (q: i128)
    requires
        0 < b,
        i128::MIN < a,
    ensures
        q == a / b,
{
    if a >= 0 {
        a / b
    } else {
        let m: i128 = -a;
        let t: i128 = m / b;
        let r: i128 = m % b;
        proof {
            lemma_floor_of_negative(m as int, b as int);
        }
        if r == 0 {
            -t
        } else {
            -t - 1
        }
    }
}

/// The floor quotient of `-m` in terms of the quotient and remainder of `m`.
pub proof fn lemma_floor_of_negative(m: int, b: int)
    requires
        0 < m,
        0 < b,
    ensures
        m % b == 0 ==> (-m) / b == -(m / b),
        m % b != 0 ==> (-m) / b == -(m / b) - 1,
{
    let t = m / b;
    let r = m % b;
    vstd::arithmetic::div_mod::lemma_fundamental_div_mod(m, b);
    vstd::arithmetic::div_mod::lemma_mod_bound(m, b);
    assert(m == b * t + r);
    if r == 0 {
        assert(-m == b * (-t) + 0) by (nonlinear_arith)
            requires
                m == b * t + r,
                r == 0,
        ;
        vstd::arithmetic::div_mod::lemma_fundamental_div_mod_converse(-m, b, -t, 0);
    } else {
        assert(-m == b * (-t - 1) + (b - r)) by (nonlinear_arith)
            requires
                m == b * t + r,
        ;
        vstd::arithmetic::div_mod::lemma_fundamental_div_mod_converse(-m, b, -t - 1, b - r);
    }
}

} // verus!
