//! The error kinds of the crate.

use vstd::prelude::*;

verus! {

/// Why a validated constructor or field setter rejected its input.
///
/// Validated operations never clamp silently: they either produce a fully
/// valid value or one of these kinds.
#[derive(Debug, Clone, Copy, PartialEq, Eq, Structural, Hash)]
pub enum Error {
    /// The year/month/day or year/ordinal combination does not exist in the
    /// proleptic Gregorian calendar.
    DateOutOfRange,
    /// An hour, minute, second or sub-second field was given a value outside
    /// its valid bound.
    TimeOutOfRange,
}

} // verus!
