//! The 2D fixed-point point type and its rotation.

use vstd::prelude::*;
use crate::UNIT;
use crate::fixed::{abs_i, div_tz, lemma_tz_div_bound, lemma_tz_div_exact, tz_div};
use crate::trig::{cos_fp, cos_s, sin_fp, sin_s, ANGLE_LIMIT};

verus! {

/// Largest coordinate magnitude `rotate` accepts; large enough that the
/// fixed-point products below stay inside `i64`.
pub const COORD_LIMIT: i64 = 0x100_0000_0000;

/// A 2D point in `1/UNIT` fixed-point coordinates.  It stands both for a
/// sample of the input path (a complex number: x the real part, y the
/// imaginary one) and for a vertex handed to the render sink.
#[derive(Clone, Copy, PartialEq, Eq, Structural, Debug)]
pub struct Point {
    pub x: i64,
    pub y: i64,
}

impl View for Point {
    type V = (int, int);

    open spec fn view(&self) -> (int, int) {
        (self.x as int, self.y as int)
    }
}

impl Default for Point {
    /// The origin.
    fn default() -> (p: Point)
        ensures
            p == (Point { x: 0, y: 0 }),
    {
        Point { x: 0, y: 0 }
    }
}

/// The vector `v` rotated by the angle `a` (in `1/UNIT` turns): the
/// usual rotation by `(cos a, sin a)`, with each coordinate truncated
/// toward zero after the fixed-point products.
pub open spec fn rotate_spec(v: (int, int), a: int) -> (int, int) {
    (
        tz_div(v.0 * cos_s(a) - v.1 * sin_s(a), UNIT as int),
        tz_div(v.0 * sin_s(a) + v.1 * cos_s(a), UNIT as int),
    )
}

/// Rotating by a zero angle moves nothing.
pub proof fn lemma_rotate_zero(v: (int, int))
    ensures
        rotate_spec(v, 0) == v,
{
    crate::trig::lemma_sin_quadrants();
    assert(v.0 * cos_s(0) - v.1 * sin_s(0) == v.0 * (UNIT as int)) by (nonlinear_arith)
        requires
            cos_s(0) == UNIT,
            sin_s(0) == 0,
    ;
    assert(v.0 * sin_s(0) + v.1 * cos_s(0) == v.1 * (UNIT as int)) by (nonlinear_arith)
        requires
            cos_s(0) == UNIT,
            sin_s(0) == 0,
    ;
    lemma_tz_div_exact(v.0, UNIT as int);
    lemma_tz_div_exact(v.1, UNIT as int);
    assert((v.0, v.1) == v);
}

/// Rotates a point by an angle in `1/UNIT` turns.  The magnitude of each
/// result coordinate is bounded by the sum of the input magnitudes.
pub fn rotate(p: Point, a: i64) -> (r: Point)
    requires
        -COORD_LIMIT <= p.x <= COORD_LIMIT,
        -COORD_LIMIT <= p.y <= COORD_LIMIT,
        -ANGLE_LIMIT <= a <= ANGLE_LIMIT,
    ensures
        r@ == rotate_spec(p@, a as int),
        abs_i(r.x as int) <= abs_i(p.x as int) + abs_i(p.y as int),
        abs_i(r.y as int) <= abs_i(p.x as int) + abs_i(p.y as int),
{
    let s = sin_fp(a);
    let c = cos_fp(a);
    let ghost ax: int = abs_i(p.x as int);
    let ghost ay: int = abs_i(p.y as int);
    proof {
        assert(-(ax * (UNIT as int)) <= p.x * c <= ax * (UNIT as int)
            && -(ax * (UNIT as int)) <= p.x * s <= ax * (UNIT as int)
            && -(ay * (UNIT as int)) <= p.y * c <= ay * (UNIT as int)
            && -(ay * (UNIT as int)) <= p.y * s <= ay * (UNIT as int)) by (nonlinear_arith)
            requires
                ax >= p.x,
                ax >= -p.x,
                ay >= p.y,
                ay >= -p.y,
                -UNIT <= c <= UNIT,
                -UNIT <= s <= UNIT,
        ;
        assert(ax <= COORD_LIMIT && ay <= COORD_LIMIT);
    }
    let vx = p.x * c - p.y * s;
    let vy = p.x * s + p.y * c;
    proof {
        lemma_tz_div_bound(vx as int, UNIT as int, ax + ay);
        lemma_tz_div_bound(vy as int, UNIT as int, ax + ay);
    }
    let rx = div_tz(vx, UNIT);
    let ry = div_tz(vy, UNIT);
    Point { x: rx, y: ry }
}

} // verus!
