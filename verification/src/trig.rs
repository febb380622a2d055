//! Fixed-point sine and cosine.
//!
//! Angles are measured in `1/UNIT` of a full turn and results are scaled
//! by `UNIT`.  Within each half wave the sine is the classical rational
//! quarter-wave approximation `16 x (H - x) / (5 H^2 - 4 x (H - x))`
//! (for `x` in `[0, H]`, `H` a half turn), which is exact at the
//! quadrant points and stays within about 0.0017 of the real sine —
//! ample for driving a visualization, and free of floating point.

use vstd::prelude::*;
use vstd::arithmetic::div_mod::{
    lemma_div_is_ordered, lemma_div_multiples_vanish, lemma_div_pos_is_pos,
    lemma_fundamental_div_mod, lemma_fundamental_div_mod_converse_div,
    lemma_fundamental_div_mod_converse_mod, lemma_mod_multiples_basic,
};
use crate::UNIT;

verus! {

/// Half a turn, in angle units.
pub const HALF_TURN: i64 = 32768;

/// A quarter turn, in angle units.
pub const QUARTER_TURN: i64 = 16384;

/// Largest angle magnitude the trigonometric entry points accept; every
/// angle the crate forms (a frequency below 2^15 times a time or sample
/// fraction below 2^32) stays far inside it.
pub const ANGLE_LIMIT: i64 = 0x1_0000_0000_0000;

/// Quarter-wave sine on `[0, HALF_TURN]`: the rational approximation of
/// `sin(pi * x / HALF_TURN)`, scaled by `UNIT`.
pub open spec fn sin_half_wave(x: int) -> int
    recommends
        0 <= x <= HALF_TURN,
{
    (16 * x * (HALF_TURN - x) * UNIT) / (5 * HALF_TURN * HALF_TURN - 4 * x * (HALF_TURN - x))
}

/// Sine of an angle measured in `1/UNIT` of a full turn, scaled by
/// `UNIT`.  Total on all of `int`: the angle is first reduced to one
/// turn, and the second half wave is the mirrored first one.
pub open spec fn sin_s(a: int) -> int {
    let m = a % (UNIT as int);
    if m < HALF_TURN {
        sin_half_wave(m)
    } else {
        -sin_half_wave(m - HALF_TURN)
    }
}

/// Cosine as the quarter-turn shift of the sine.
pub open spec fn cos_s(a: int) -> int {
    sin_s(a + QUARTER_TURN)
}

/// The sine magnitude never exceeds one unit.
pub proof fn lemma_sin_bounded(a: int)
    ensures
        -UNIT <= sin_s(a) <= UNIT,
{
    let m = a % (UNIT as int);
    vstd::arithmetic::div_mod::lemma_mod_division_less_than_divisor(a, UNIT as int);
    if m < HALF_TURN {
        lemma_sin_half_wave_bounded(m);
    } else {
        lemma_sin_half_wave_bounded(m - HALF_TURN);
    }
}

/// The cosine magnitude never exceeds one unit.
pub proof fn lemma_cos_bounded(a: int)
    ensures
        -UNIT <= cos_s(a) <= UNIT,
{
    lemma_sin_bounded(a + QUARTER_TURN);
}

/// On its quarter-wave domain the raw sine lies in `[0, UNIT]`.
proof fn lemma_sin_half_wave_bounded(x: int)
    requires
        0 <= x <= HALF_TURN,
    ensures
        0 <= sin_half_wave(x) <= UNIT,
{
    let num = 16 * x * (HALF_TURN - x) * (UNIT as int);
    let den = 5 * HALF_TURN * HALF_TURN - 4 * x * (HALF_TURN - x);
    assert(0 <= 4 * x * (HALF_TURN - x) <= HALF_TURN * HALF_TURN) by (nonlinear_arith)
        requires
            0 <= x <= HALF_TURN,
    ;
    assert(den > 0);
    assert(num <= den * (UNIT as int)) by (nonlinear_arith)
        requires
            num == 16 * x * (HALF_TURN - x) * (UNIT as int),
            den == 5 * HALF_TURN * HALF_TURN - 4 * x * (HALF_TURN - x),
            0 <= 4 * x * (HALF_TURN - x) <= HALF_TURN * HALF_TURN,
    ;
    assert(num >= 0) by (nonlinear_arith)
        requires
            num == 16 * x * (HALF_TURN - x) * (UNIT as int),
            0 <= 4 * x * (HALF_TURN - x),
    ;
    lemma_div_pos_is_pos(num, den);
    lemma_div_is_ordered(num, den * (UNIT as int), den);
    lemma_div_multiples_vanish(UNIT as int, den);
}

/// At the quadrant points the approximation agrees exactly with the
/// real sine and cosine.
pub proof fn lemma_sin_quadrants()
    ensures
        sin_s(0) == 0,
        sin_s(QUARTER_TURN as int) == UNIT,
        sin_s(HALF_TURN as int) == 0,
        sin_s(3 * QUARTER_TURN) == -UNIT,
        cos_s(0) == UNIT,
{
    lemma_fundamental_div_mod_converse_mod(0, UNIT as int, 0, 0);
    lemma_fundamental_div_mod_converse_mod(QUARTER_TURN as int, UNIT as int, 0, QUARTER_TURN as int);
    lemma_fundamental_div_mod_converse_mod(HALF_TURN as int, UNIT as int, 0, HALF_TURN as int);
    lemma_fundamental_div_mod_converse_mod(3 * QUARTER_TURN, UNIT as int, 0, 3 * QUARTER_TURN);
    vstd::arithmetic::div_mod::lemma_div_of0(5 * HALF_TURN * HALF_TURN - 4 * 0 * (HALF_TURN - 0));
    assert(sin_half_wave(0) == 0);
    lemma_fundamental_div_mod_converse_div(
        16 * (QUARTER_TURN as int) * (HALF_TURN - QUARTER_TURN) * (UNIT as int),
        5 * HALF_TURN * HALF_TURN - 4 * (QUARTER_TURN as int) * (HALF_TURN - QUARTER_TURN),
        UNIT as int,
        0,
    );
    assert(sin_half_wave(QUARTER_TURN as int) == UNIT);
}

/// Reduces an angle to `[0, UNIT)`, the spec-level Euclidean remainder.
/// Takes a quarter turn of slack beyond `ANGLE_LIMIT` so that the cosine
/// can shift its argument.
fn angle_mod(a: i64) -> (r: i64)
    requires
        -ANGLE_LIMIT - QUARTER_TURN <= a <= ANGLE_LIMIT + QUARTER_TURN,
    ensures
        r == (a as int) % (UNIT as int),
        0 <= r < UNIT,
{
    if a >= 0 {
        ((a as u64) % 65536) as i64
    } else {
        let m = (((-a) as u64) % 65536) as i64;
        proof {
            let q = (-a as int) / (UNIT as int);
            lemma_fundamental_div_mod(-a as int, UNIT as int);
            if m == 0 {
                assert(a as int == (UNIT as int) * (-q));
                lemma_mod_multiples_basic(-q, UNIT as int);
            } else {
                assert(a as int == (UNIT as int) * (-q - 1) + (UNIT - m)) by (nonlinear_arith)
                    requires
                        -a as int == (UNIT as int) * q + m as int,
                ;
                lemma_fundamental_div_mod_converse_mod(a as int, UNIT as int, -q - 1, UNIT - m);
            }
        }
        if m == 0 {
            0
        } else {
            65536 - m
        }
    }
}

/// Fixed-point sine: the result is `sin_s` of the angle exactly.
pub fn sin_fp(a: i64) -> (r: i64)
    requires
        -ANGLE_LIMIT - QUARTER_TURN <= a <= ANGLE_LIMIT + QUARTER_TURN,
    ensures
        r == sin_s(a as int),
        -UNIT <= r <= UNIT,
{
    let m = angle_mod(a);
    let (x, neg): (i64, bool) = if m < HALF_TURN {
        (m, false)
    } else {
        (m - HALF_TURN, true)
    };
    assert(0 <= x < HALF_TURN);
    proof {
        assert(0 <= x * (HALF_TURN - x) && 4 * (x * (HALF_TURN - x)) <= HALF_TURN * HALF_TURN)
            by (nonlinear_arith)
            requires
                0 <= x < HALF_TURN,
        ;
    }
    let t = x * (HALF_TURN - x);
    let num = 16 * t * UNIT;
    let den = 5 * HALF_TURN * HALF_TURN - 4 * t;
    let q = ((num as u64) / (den as u64)) as i64;
    proof {
        assert(num == 16 * (x as int) * (HALF_TURN - x as int) * (UNIT as int)) by (nonlinear_arith)
            requires
                t == x as int * (HALF_TURN - x as int),
                num == 16 * (t as int) * (UNIT as int),
        ;
        assert(den == 5 * HALF_TURN * HALF_TURN - 4 * (x as int) * (HALF_TURN - x as int))
            by (nonlinear_arith)
            requires
                t == x as int * (HALF_TURN - x as int),
                den == 5 * HALF_TURN * HALF_TURN - 4 * (t as int),
        ;
        lemma_sin_half_wave_bounded(x as int);
        assert(q == sin_half_wave(x as int));
        lemma_sin_bounded(a as int);
    }
    if neg {
        -q
    } else {
        q
    }
}

/// Fixed-point cosine: the result is `cos_s` of the angle exactly.
pub fn cos_fp(a: i64) -> (r: i64)
    requires
        -ANGLE_LIMIT <= a <= ANGLE_LIMIT,
    ensures
        r == cos_s(a as int),
        -UNIT <= r <= UNIT,
{
    sin_fp(a + QUARTER_TURN)
}

} // verus!
