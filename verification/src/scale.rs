//! How many pixels a point takes.

use vstd::prelude::*;

verus! {

/// The parts that a fractional scale counts: a scale of one is as many of them.
pub const SCALE_PARTS: u32 = 120;

/// A scale as the compositor gave it. Whoever draws turns it into a number.
#[derive(Clone, Copy, Debug, PartialEq, Eq, Structural)]
pub enum Scale {
    /// Whole pixels per point.
    Factor(i32),
    /// Pixels per point in parts of `SCALE_PARTS`.
    Fraction(u32),
}

impl Scale {
    /// The number that the scale stands for, in parts of `SCALE_PARTS`.
    pub open spec fn parts(self) -> int {
        match self {
            Scale::Factor(factor) => SCALE_PARTS * factor,
            Scale::Fraction(parts) => parts as int,
        }
    }

    /// The fraction that stands for the same number as a whole factor.
    pub open spec fn fraction_of(factor: i32) -> Scale {
        Scale::Fraction((SCALE_PARTS * factor) as u32)
    }
}

/// Every whole factor that a fraction can express is the same scale as that
/// fraction, and different factors are different scales.
pub proof fn factors_are_fractions(factor: i32, other: i32)
    requires
        0 <= factor <= u32::MAX / SCALE_PARTS,
    ensures
        Scale::fraction_of(factor).parts() == Scale::Factor(factor).parts(),
        Scale::Factor(factor).parts() == Scale::Factor(other).parts() <==> factor == other,
{
}

/// A fraction counts its parts, and one more pixel per point is 120 of them.
pub proof fn scales_count_parts(parts: u32, factor: i32, next: i32)
    requires
        next == factor + 1,
    ensures
        Scale::Fraction(parts).parts() == parts,
        Scale::Factor(next).parts() == Scale::Factor(factor).parts() + 120,
        Scale::Factor(0).parts() == 0,
{
}

} // verus!
