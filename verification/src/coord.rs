//! The coordinate type and the bit-level model of the double-precision
//! numbers it carries.
//!
//! A coordinate holds its two components as IEEE-754 binary64 bit patterns.
//! Finiteness and numeric equality are then plain functions of the bits: a
//! value is finite when its exponent field is not all ones, it is NaN when
//! the exponent field is all ones and the fraction is non-zero, and two
//! values are numerically equal when neither is NaN and they either have the
//! same bits or are both zeros (the two zero encodings compare equal).

use crate::{Problem, ProblemAtPosition, ProblemPosition, Valid};
use vstd::prelude::*;

verus! {

/// The exponent field of a binary64 value.
pub const EXPONENT_MASK: u64 = 0x7ff0_0000_0000_0000;

/// The fraction field of a binary64 value.
pub const FRACTION_MASK: u64 = 0x000f_ffff_ffff_ffff;

/// Everything but the sign bit of a binary64 value.
pub const MAGNITUDE_MASK: u64 = 0x7fff_ffff_ffff_ffff;

/// A planar coordinate. `x` and `y` hold the bit patterns of IEEE-754
/// double-precision numbers.
#[derive(Debug, Clone, Copy)]
pub struct Coord {
    pub x: u64,
    pub y: u64,
}

/// The bit pattern encodes a finite number (not NaN, not an infinity).
pub open spec fn finite_bits(b: u64) -> bool {
    b & EXPONENT_MASK != EXPONENT_MASK
}

/// The bit pattern encodes NaN.
pub open spec fn nan_bits(b: u64) -> bool {
    b & EXPONENT_MASK == EXPONENT_MASK && b & FRACTION_MASK != 0
}

/// The bit pattern encodes a zero (either +0.0 or -0.0).
pub open spec fn zero_bits(b: u64) -> bool {
    b & MAGNITUDE_MASK == 0
}

/// Numeric equality of two binary64 values, as the `==` of doubles decides
/// it: false when either is NaN, and true for +0.0 against -0.0.
pub open spec fn float_eq_bits(a: u64, b: u64) -> bool {
    !nan_bits(a) && !nan_bits(b) && (a == b || (zero_bits(a) && zero_bits(b)))
}

/// Both components of the coordinate are finite.
pub open spec fn coord_finite(c: Coord) -> bool {
    finite_bits(c.x) && finite_bits(c.y)
}

/// The coordinates are numerically equal, component by component.
pub open spec fn coord_eq(a: Coord, b: Coord) -> bool {
    float_eq_bits(a.x, b.x) && float_eq_bits(a.y, b.y)
}

/// Every coordinate of the sequence is finite.
pub open spec fn all_finite(s: Seq<Coord>) -> bool {
    forall|i: int| 0 <= i < s.len() ==> coord_finite(#[trigger] s[i])
}

impl Coord {
    /// A coordinate from the bit patterns of its two components.
    pub fn new(x: u64, y: u64) -> (c: Coord)
        ensures
            c.x == x,
            c.y == y,
    {
        Coord { x, y }
    }
}

/// Whether the bit pattern encodes a finite number.
pub fn bits_are_finite(b: u64) -> (r: bool)
    ensures
        r == finite_bits(b),
{
    b & EXPONENT_MASK != EXPONENT_MASK
}

/// Numeric equality of two binary64 values given as bits.
pub fn bits_float_eq(a: u64, b: u64) -> (r: bool)
    ensures
        r == float_eq_bits(a, b),
{
    let a_nan = a & EXPONENT_MASK == EXPONENT_MASK && a & FRACTION_MASK != 0;
    let b_nan = b & EXPONENT_MASK == EXPONENT_MASK && b & FRACTION_MASK != 0;
    !a_nan && !b_nan && (a == b || (a & MAGNITUDE_MASK == 0 && b & MAGNITUDE_MASK == 0))
}

/// Whether both components of the coordinate are finite.
pub fn coord_is_finite(c: &Coord) -> (r: bool)
    ensures
        r == coord_finite(*c),
{
    bits_are_finite(c.x) && bits_are_finite(c.y)
}

/// Numeric equality of two coordinates, as the `==` of doubles decides it.
pub fn coords_equal(a: &Coord, b: &Coord) -> (r: bool)
    ensures
        r == coord_eq(*a, *b),
{
    bits_float_eq(a.x, b.x) && bits_float_eq(a.y, b.y)
}

/// The findings a bare coordinate deserves: `NotFinite` when one of its
/// components is NaN or infinite, nothing otherwise.
pub open spec fn coord_problems(c: Coord) -> Seq<ProblemAtPosition> {
    if coord_finite(c) {
        Seq::empty()
    } else {
        seq![ProblemAtPosition(Problem::NotFinite, ProblemPosition::Point)]
    }
}

impl Valid for Coord {
    open spec fn spec_problems(&self) -> Seq<ProblemAtPosition> {
        coord_problems(*self)
    }

    open spec fn spec_valid(&self) -> bool {
        coord_finite(*self)
    }

    proof fn valid_iff_no_problems(&self) {
    }

    fn is_valid(&self) -> (valid: bool) {
        coord_is_finite(self)
    }

    fn explain_invalidity(&self) -> (report: Option<Vec<ProblemAtPosition>>) {
        if coord_is_finite(self) {
            None
        } else {
            let mut reason: Vec<ProblemAtPosition> = Vec::new();
            reason.push(ProblemAtPosition(Problem::NotFinite, ProblemPosition::Point));
            assert(reason@ =~= coord_problems(*self));
            Some(reason)
        }
    }
}

} // verus!
