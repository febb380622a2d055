//! Scalar helpers for the fixed-point arithmetic: division that truncates
//! toward zero, and the magnitude bounds the rest of the crate needs to
//! rule out overflow.

use vstd::prelude::*;
use vstd::arithmetic::div_mod::{
    lemma_div_is_ordered, lemma_div_multiples_vanish, lemma_div_pos_is_pos,
};

verus! {

/// Magnitude of a mathematical integer.
pub open spec fn abs_i(v: int) -> int {
    if v >= 0 {
        v
    } else {
        -v
    }
}

/// Division rounding toward zero, the rounding used throughout the crate's
/// fixed-point arithmetic.  Defined for positive divisors.
pub open spec fn tz_div(v: int, d: int) -> int
    recommends
        d > 0,
{
    if v >= 0 {
        v / d
    } else {
        -((-v) / d)
    }
}

/// Truncating division of a signed value by a positive divisor, computed
/// on magnitudes so that the rounding is toward zero on either sign.
pub fn div_tz(v: i64, d: i64) -> (r: i64)
    requires
        d > 0,
        v > i64::MIN,
    ensures
        r == tz_div(v as int, d as int),
        abs_i(r as int) <= abs_i(v as int),
{
    if v >= 0 {
        let q = (v as u64) / (d as u64);
        proof {
            lemma_div_is_ordered(v as int, v as int, d as int);
            assert(v as int / d as int <= v as int) by (nonlinear_arith)
                requires
                    v >= 0,
                    d > 0,
            ;
        }
        q as i64
    } else {
        let m = ((-v) as u64) / (d as u64);
        proof {
            assert((-v) as int / d as int <= (-v) as int) by (nonlinear_arith)
                requires
                    v < 0,
                    d > 0,
            ;
            lemma_div_pos_is_pos(-v as int, d as int);
        }
        -(m as i64)
    }
}

/// If `|v| <= b * d`, then `|tz_div(v, d)| <= b`.
pub proof fn lemma_tz_div_bound(v: int, d: int, b: int)
    requires
        d > 0,
        b >= 0,
        -(b * d) <= v <= b * d,
    ensures
        -b <= tz_div(v, d) <= b,
{
    assert(b * d == d * b) by (nonlinear_arith);
    lemma_div_multiples_vanish(b, d);
    if v >= 0 {
        lemma_div_is_ordered(v, d * b, d);
        lemma_div_pos_is_pos(v, d);
    } else {
        lemma_div_is_ordered(-v, d * b, d);
        lemma_div_pos_is_pos(-v, d);
    }
}

/// Dividing an exact multiple of `d` truncates nothing.
pub proof fn lemma_tz_div_exact(x: int, d: int)
    requires
        d > 0,
    ensures
        tz_div(x * d, d) == x,
{
    if x >= 0 {
        lemma_div_multiples_vanish(x, d);
        assert(x * d == d * x) by (nonlinear_arith);
    } else {
        lemma_div_multiples_vanish(-x, d);
        assert(-(x * d) == d * (-x)) by (nonlinear_arith);
    }
}

/// Dividing by one changes nothing.
pub proof fn lemma_tz_div_by_one(v: int)
    ensures
        tz_div(v, 1) == v,
{
    if v >= 0 {
        lemma_div_multiples_vanish(v, 1);
        assert(1 * v == v) by (nonlinear_arith);
    } else {
        lemma_div_multiples_vanish(-v, 1);
        assert(1 * (-v) == -v) by (nonlinear_arith);
    }
}

} // verus!
