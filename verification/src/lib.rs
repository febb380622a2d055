//! Epicycle animation core: a discrete Fourier decomposition of a closed
//! 2D path into rotating-vector coefficients, the per-time evaluation of
//! the resulting epicycle chain, and the fixed-capacity trace buffer that
//! accumulates the chain's tip positions for rendering.
//!
//! All geometry is carried in 64-bit fixed-point arithmetic: coordinates,
//! trigonometric values, angles and time fractions are multiples of
//! `1/UNIT`.  One full animation cycle and one full turn are both `UNIT`
//! units, so a frequency-`k` coefficient rotated to time `t` turns by
//! exactly `k * t` angle units.

use vstd::prelude::*;

pub mod fixed;
pub mod trig;
pub mod point;
pub mod buffer;
pub mod fourier;

verus! {

/// One fixed-point unit.  Coordinates, trigonometric values, angles
/// (fraction of a full turn) and time (fraction of a full cycle) are all
/// stored as multiples of `1/UNIT`.
pub const UNIT: i64 = 65536;

} // verus!
