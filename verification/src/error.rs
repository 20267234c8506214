//! Errors raised from this library.

use vstd::prelude::*;

verus! {

/// The error `jiff` raises when a date, a time or a timestamp cannot be
/// parsed or is out of range.
#[verifier::external_type_specification]
#[verifier::external_body]
pub struct ExJiffError(jiff::Error);

/// Variants of error raised from this library.
#[derive(Debug)]
pub enum MyError {
    /// Date, time + timestamp (`jiff`) parsing error.
    Time(jiff::Error),
    /// Conversion of an integer to a double precision number would lose
    /// precision; holds the decimal rendering of the integer.
    PrecisionLoss(String),
    /// Integer conversion error: the value does not fit the target type.
    Conv,
    /// String to integer conversion error.
    Conv2,
    /// Coordinate reference system (PROJ) error, with its message.
    Proj(String),
    /// Runtime error, with a message.
    Runtime(String),
}

} // verus!
