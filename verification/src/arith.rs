//! Exact integer arithmetic helpers for the settlement engine.
//!
//! All divisions in the engine round toward negative infinity (floor
//! division), which is what `/` on `int` means in specifications whenever the
//! divisor is positive. Rust's `/` on signed integers truncates toward zero
//! instead, so the executable helpers here correct for that difference.

use vstd::prelude::*;
use vstd::arithmetic::div_mod::{lemma_fundamental_div_mod, lemma_fundamental_div_mod_converse};

verus! {

/// Floor division of `a` by a positive divisor `b`: rounds toward negative
/// infinity, matching `a as int / b as int`.
pub fn div_floor(a: i128, b: i128) -> (q: i128)
    requires
        0 < b,
        i128::MIN < a,
    ensures
        q == a as int / b as int,
{
    if a >= 0 {
        a / b
    } else {
        let m: i128 = -a;
        let qm: i128 = m / b;
        let rm: i128 = m % b;
        proof {
            lemma_fundamental_div_mod(m as int, b as int);
            assert((-(qm as int)) * (b as int) == -(qm as int * b as int)) by (nonlinear_arith);
            assert((-(qm as int) - 1) * (b as int) == -(qm as int * b as int) - b)
                by (nonlinear_arith);
            if rm == 0 {
                lemma_fundamental_div_mod_converse(a as int, b as int, -(qm as int), 0);
            } else {
                lemma_fundamental_div_mod_converse(
                    a as int,
                    b as int,
                    -(qm as int) - 1,
                    b - rm,
                );
            }
        }
        if rm == 0 {
            -qm
        } else {
            -qm - 1
        }
    }
}

/// A quotient with a positive divisor is bounded whenever the dividend is:
/// from `|a| <= m * b` follows `|a / b| <= m`.
pub proof fn lemma_div_scaled(a: int, b: int, m: int)
    requires
        1 <= b,
        0 <= m,
        -(m * b) <= a <= m * b,
    ensures
        -m <= a / b <= m,
{
    lemma_fundamental_div_mod(a, b);
    let q = a / b;
    let r = a % b;
    if q >= 0 {
        assert(q * b <= m * b ==> q <= m) by (nonlinear_arith)
            requires
                b >= 1,
        ;
        assert(q * b == a - r);
    } else {
        if q <= -m - 1 {
            assert((q + 1) * b <= (-m) * b) by (nonlinear_arith)
                requires
                    q + 1 <= -m,
                    b >= 1,
            ;
            assert((q + 1) * b == q * b + b) by (nonlinear_arith);
            assert((-m) * b == -(m * b)) by (nonlinear_arith);
            assert(a == q * b + r);
            assert(a <= q * b + b - 1);
            assert(a <= -(m * b) - 1);
            assert(false);
        }
    }
}

/// Multiplying both sides of an inequality by a nonnegative factor.
pub proof fn lemma_mul_mono(a: int, b: int, k: int)
    requires
        a <= b,
        0 <= k,
    ensures
        a * k <= b * k,
{
    assert(a * k <= b * k) by (nonlinear_arith)
        requires
            a <= b,
            0 <= k,
    ;
}

} // verus!
