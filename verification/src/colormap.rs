//! Value ranges of number colormaps.

use vstd::prelude::*;

verus! {

/// Specifies the minimum and maximum values of a number colormap.
///
/// Floating-point limits are carried as their IEEE 754 bit patterns. Dates are days since
/// 1970-01-01 and date-times are microseconds since 1970-01-01T00:00:00Z.
#[derive(Debug, Clone, Copy, PartialEq, Eq, Structural)]
pub enum NumberRange {
    Float { min_bits: u64, max_bits: u64 },
    Integer { min: i64, max: i64 },
    Date { min: i64, max: i64 },
    DateTime { min: i64, max: i64 },
}

} // verus!
