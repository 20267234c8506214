//! Spatial Reference System identifier. The code is implicitly one of the
//! "EPSG" Authority.
//!
//! Whether PROJ knows a code is asked of PROJ by the caller; the functions
//! here decide which code to ask about, and what the answer makes of the
//! identifier.

use crate::error::MyError;
use crate::numeric::{i128_text, signed_decimal};
use vstd::prelude::*;

verus! {

/// Representation of a Spatial Reference IDentifier. For now the Authority
/// is implied to be EPSG.
#[derive(Debug, Default, Clone, Copy, PartialEq, Eq, Structural, PartialOrd, Ord)]
pub struct SRID(i32);

impl SRID {
    /// The numeric code of this identifier.
    pub closed spec fn code(self) -> i32 {
        self.0
    }

    /// The identifier with the given code.
    pub closed spec fn of(code: i32) -> SRID {
        SRID(code)
    }

    /// Identifiers are their codes.
    pub proof fn lemma_code_of(code: i32)
        ensures
            Self::of(code).code() == code,
    {
    }

    /// The ubiquitous `EPSG:4326` or `WGS'84` SRID.
    pub fn epsg_4326() -> (r: SRID)
        ensures
            r.code() == 4326,
    {
        SRID(4326)
    }

    /// Return the numeric code of this identifier.
    pub fn value(&self) -> (r: i32)
        ensures
            r == self.code(),
    {
        self.0
    }

    /// The EPSG code that PROJ must know for `value` to become an
    /// identifier: none for `-1` and `0` (the undefined cartesian and
    /// geographic systems of the GeoPackage specification) or for a negative
    /// value (which no code can be), the value itself otherwise.
    pub fn code_to_check_i32(value: i32) -> (r: Option<usize>)
        ensures
            value > 0 ==> r == Some(value as usize),
            value <= 0 ==> r is None,
    {
        if value > 0 {
            Some(value as usize)
        } else {
            None
        }
    }

    /// Construct an identifier from a signed code, as found in GeoPackage
    /// and WKB data. `-1` and `0` always succeed. A negative value fails to
    /// convert to an EPSG code. Any other value is accepted if and only if
    /// PROJ knows the code: `proj_check` is the outcome of building the
    /// coordinate reference system `EPSG:{value}` with PROJ, and its error
    /// is handed back as is.
    pub fn try_from_i32(value: i32, proj_check: Result<(), MyError>) -> (r: Result<
        SRID,
        MyError,
    >)
        ensures
            (value == -1 || value == 0) ==> r == Ok::<SRID, MyError>(Self::of(value)),
            value < -1 ==> r matches Err(MyError::Conv),
            value > 0 ==> (r is Ok <==> proj_check is Ok),
            value > 0 && proj_check is Ok ==> r == Ok::<SRID, MyError>(Self::of(value)),
            value > 0 ==> (proj_check matches Err(e) ==> r == Err::<SRID, MyError>(e)),
    {
        if value == -1 || value == 0 {
            Ok(SRID(value))
        } else if value < 0 {
            Err(MyError::Conv)
        } else {
            match proj_check {
                Ok(()) => Ok(SRID(value)),
                Err(e) => Err(e),
            }
        }
    }

    /// The EPSG code that PROJ must know for `value` to become an
    /// identifier: none for `0`, the value itself otherwise.
    pub fn code_to_check_usize(value: usize) -> (r: Option<usize>)
        ensures
            value != 0 ==> r == Some(value),
            value == 0 ==> r is None,
    {
        if value != 0 {
            Some(value)
        } else {
            None
        }
    }

    /// Construct an identifier from an unsigned code, as found in GEOS
    /// geometries. `0` always succeeds. Any other value needs PROJ to know
    /// the code (`proj_check` is the outcome of building `EPSG:{value}`,
    /// whose error is handed back as is), then to fit in an `i32`.
    pub fn try_from_usize(value: usize, proj_check: Result<(), MyError>) -> (r: Result<
        SRID,
        MyError,
    >)
        ensures
            value == 0 ==> r == Ok::<SRID, MyError>(Self::of(0)),
            value != 0 ==> (proj_check matches Err(e) ==> r == Err::<SRID, MyError>(e)),
            value != 0 && proj_check is Ok && value > i32::MAX ==> r matches Err(MyError::Conv),
            value != 0 && proj_check is Ok && value <= i32::MAX ==> r == Ok::<SRID, MyError>(
                Self::of(value as i32),
            ),
    {
        if value == 0 {
            Ok(SRID(0))
        } else {
            match proj_check {
                Err(e) => Err(e),
                Ok(()) => {
                    if value <= 2147483647usize {
                        Ok(SRID(value as i32))
                    } else {
                        Err(MyError::Conv)
                    }
                }
            }
        }
    }

    /// Return this code as an unsigned integer; an error for the negative
    /// code `-1`.
    pub fn as_usize(&self) -> (r: Result<usize, MyError>)
        ensures
            self.code() >= 0 ==> r == Ok::<usize, MyError>(self.code() as usize),
            self.code() < 0 ==> r matches Err(MyError::Conv),
    {
        if self.0 >= 0 {
            Ok(self.0 as usize)
        } else {
            Err(MyError::Conv)
        }
    }

    /// The text rendering of this identifier.
    pub open spec fn text(self) -> Seq<char> {
        if self.code() == -1 {
            "Undefined (Cartesian)"@
        } else if self.code() == 0 {
            "Undefined (geographic)"@
        } else {
            "EPSG:"@ + signed_decimal(self.code() as int)
        }
    }

    /// Return the text rendering of this identifier: `EPSG:` and the code,
    /// or which undefined system `-1` and `0` stand for.
    pub fn to_string(&self) -> (r: String)
        ensures
            r@ == self.text(),
    {
        if self.0 == -1 {
            "Undefined (Cartesian)".to_string()
        } else if self.0 == 0 {
            "Undefined (geographic)".to_string()
        } else {
            let mut r = "EPSG:".to_string();
            let digits = i128_text(self.0 as i128);
            r.append(digits.as_str());
            r
        }
    }
}

} // verus!
