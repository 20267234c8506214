//! In OGC CQL2 a temporal _Bound_ is a value that is either bounded or not,
//! used either on its own as an _Instant_ or as a _limit_ in an _Interval_.
//!
//! A bounded value stands for a UTC instant, given as the number of
//! nanoseconds since the Unix epoch.

use crate::error::MyError;
use jiff::{civil::Date, tz::TimeZone, Timestamp};
use vstd::prelude::*;

verus! {

/// The instant, in nanoseconds since the Unix epoch, that `jiff` parses an
/// RFC 3339 full date into (midnight UTC of that day); `None` when the text
/// is not a valid date.
pub uninterp spec fn parsed_date(s: Seq<char>) -> Option<i128>;

/// The instant, in nanoseconds since the Unix epoch, that `jiff` parses an
/// RFC 3339 timestamp into; `None` when the text is not a valid timestamp.
pub uninterp spec fn parsed_timestamp(s: Seq<char>) -> Option<i128>;

/// Whether `jiff` can represent the instant that many nanoseconds after the
/// Unix epoch: it lies between `Timestamp::MIN` and `Timestamp::MAX`, whose
/// seconds are those of `-009999-01-02T01:59:59Z` and
/// `9999-12-30T22:00:00Z` (the range of civil date-times, narrowed by the
/// largest UTC offset, 25:59:59, on each side).
pub open spec fn nanos_in_range(n: i128) -> bool {
    -377705023201_000000000 <= n <= 253402207200_999999999
}

/// The text `jiff` writes for the civil date, in UTC, of an instant given
/// in nanoseconds since the Unix epoch (`YYYY-MM-DD`).
pub uninterp spec fn date_text_of(z: i128) -> Seq<char>;

/// The text `jiff` writes for the civil date and time, in UTC, of an
/// instant given in nanoseconds since the Unix epoch.
pub uninterp spec fn timestamp_text_of(z: i128) -> Seq<char>;

/// The text of a date instant: empty for an instant `jiff` cannot hold.
pub open spec fn date_chars(z: i128) -> Seq<char> {
    if nanos_in_range(z) {
        date_text_of(z)
    } else {
        Seq::empty()
    }
}

/// The text of a timestamp instant: empty for an instant `jiff` cannot
/// hold.
pub open spec fn timestamp_chars(z: i128) -> Seq<char> {
    if nanos_in_range(z) {
        timestamp_text_of(z)
    } else {
        Seq::empty()
    }
}

/// `Timestamp::from_nanosecond(z)` then `.to_zoned(TimeZone::UTC).date()`,
/// written by its `Display` impl; an instant out of range (the one error
/// of `from_nanosecond`) gives the empty text.
#[verifier::external_body]
pub fn date_text(z: i128) -> (r: String)
    ensures
        nanos_in_range(z) ==> r@ == date_text_of(z),
        !nanos_in_range(z) ==> r@ == Seq::<char>::empty(),
{
    match Timestamp::from_nanosecond(z) {
        Ok(t) => t.to_zoned(TimeZone::UTC).date().to_string(),
        Err(_) => String::new(),
    }
}

/// `Timestamp::from_nanosecond(z)` then
/// `.to_zoned(TimeZone::UTC).datetime()`, written by its `Display` impl;
/// an instant out of range gives the empty text.
#[verifier::external_body]
pub fn timestamp_text(z: i128) -> (r: String)
    ensures
        nanos_in_range(z) ==> r@ == timestamp_text_of(z),
        !nanos_in_range(z) ==> r@ == Seq::<char>::empty(),
{
    match Timestamp::from_nanosecond(z) {
        Ok(t) => t.to_zoned(TimeZone::UTC).datetime().to_string(),
        Err(_) => String::new(),
    }
}

/// `s.parse::<jiff::civil::Date>()` then `.to_zoned(TimeZone::UTC)`: the
/// UTC midnight instant of a full date, in nanoseconds.
#[verifier::external_body]
fn parse_date(s: &str) -> (r: Result<i128, jiff::Error>)
    ensures
        r is Ok <==> parsed_date(s@) is Some,
        r matches Ok(n) ==> parsed_date(s@) == Some(n),
{
    let d = s.parse::<Date>()?;
    let z = d.to_zoned(TimeZone::UTC)?;
    Ok(z.timestamp().as_nanosecond())
}

/// `s.parse::<jiff::Timestamp>()`: the instant of an RFC 3339 timestamp,
/// in nanoseconds.
#[verifier::external_body]
fn parse_timestamp(s: &str) -> (r: Result<i128, jiff::Error>)
    ensures
        r is Ok <==> parsed_timestamp(s@) is Some,
        r matches Ok(n) ==> parsed_timestamp(s@) == Some(n),
{
    let t = s.parse::<Timestamp>()?;
    Ok(t.as_nanosecond())
}

/// `jiff::Timestamp::from_nanosecond`: fails exactly when the instant lies
/// outside the range `jiff` represents; otherwise the instant is kept.
#[verifier::external_body]
pub(crate) fn checked_nanos(n: i128) -> (r: Result<i128, jiff::Error>)
    ensures
        r is Ok <==> nanos_in_range(n),
        r matches Ok(m) ==> m == n,
{
    let t = Timestamp::from_nanosecond(n)?;
    Ok(t.as_nanosecond())
}

/// Possible variants of a CQL2 _Instant_ and _Interval_ limit.
#[derive(Debug)]
pub enum Bound {
    /// Unbounded temporal value used as lower, upper, or both limit(s);
    /// represented by the string `'..'`.
    Unbounded,
    /// Instant with a 1-day granularity, in UTC time-zone.
    Date(i128),
    /// Instant with a 1-second or less granularity in UTC time-zone.
    Timestamp(i128),
}

impl Bound {
    /// The instant of a bounded value.
    pub open spec fn instant(self) -> Option<i128> {
        match self {
            Bound::Unbounded => None,
            Bound::Date(x) => Some(x),
            Bound::Timestamp(x) => Some(x),
        }
    }

    /// Equality of bounds: two unbounded values are equal; bounded ones are
    /// equal when their instants are, whatever their granularity.
    pub open spec fn same(self, other: Bound) -> bool {
        self.instant() == other.instant()
    }

    /// Strict order of bounds: the unbounded value comes before every
    /// bounded one; bounded ones are ordered by their instants.
    pub open spec fn before(self, other: Bound) -> bool {
        match (self.instant(), other.instant()) {
            (None, None) => false,
            (None, Some(_)) => true,
            (Some(_), None) => false,
            (Some(x), Some(y)) => x < y,
        }
    }

    /// Equality of two bounds.
    pub fn eq(&self, other: &Bound) -> (r: bool)
        ensures
            r == self.same(*other),
    {
        match (self, other) {
            (Bound::Unbounded, Bound::Unbounded) => true,
            (Bound::Unbounded, _) => false,
            (_, Bound::Unbounded) => false,
            (Bound::Date(x), Bound::Date(y)) => *x == *y,
            (Bound::Date(x), Bound::Timestamp(y)) => *x == *y,
            (Bound::Timestamp(x), Bound::Date(y)) => *x == *y,
            (Bound::Timestamp(x), Bound::Timestamp(y)) => *x == *y,
        }
    }

    /// Whether this bound comes strictly before `other`.
    pub fn lt(&self, other: &Bound) -> (r: bool)
        ensures
            r == self.before(*other),
    {
        match (self.as_zoned(), other.as_zoned()) {
            (None, None) => false,
            (None, Some(_)) => true,
            (Some(_), None) => false,
            (Some(x), Some(y)) => x < y,
        }
    }

    /// Whether this bound comes strictly after `other`.
    pub fn gt(&self, other: &Bound) -> (r: bool)
        ensures
            r == other.before(*self),
    {
        other.lt(self)
    }

    /// A copy of this bound.
    pub fn clone(&self) -> (r: Bound)
        ensures
            r == *self,
    {
        match self {
            Bound::Unbounded => Bound::Unbounded,
            Bound::Date(x) => Bound::Date(*x),
            Bound::Timestamp(x) => Bound::Timestamp(*x),
        }
    }

    /// Try creating a new `Bound::Date` variant from a well-formed RFC-3339
    /// date string.
    pub fn try_new_date(s: &str) -> (r: Result<Bound, MyError>)
        ensures
            r is Ok <==> parsed_date(s@) is Some,
            r matches Ok(b) ==> b == Bound::Date(parsed_date(s@).unwrap()),
            r matches Err(e) ==> e is Time,
    {
        match parse_date(s) {
            Ok(n) => Ok(Bound::Date(n)),
            Err(e) => Err(MyError::Time(e)),
        }
    }

    /// Try creating a new `Bound::Timestamp` variant from a well-formed
    /// RFC-3339 timestamp string.
    pub fn try_new_timestamp(s: &str) -> (r: Result<Bound, MyError>)
        ensures
            r is Ok <==> parsed_timestamp(s@) is Some,
            r matches Ok(b) ==> b == Bound::Timestamp(parsed_timestamp(s@).unwrap()),
            r matches Err(e) ==> e is Time,
    {
        match parse_timestamp(s) {
            Ok(n) => Ok(Bound::Timestamp(n)),
            Err(e) => Err(MyError::Time(e)),
        }
    }

    /// Return the instant if this is a bounded value; an error otherwise.
    pub fn to_zoned(&self) -> (r: Result<i128, MyError>)
        ensures
            self.instant() matches Some(x) ==> r == Ok::<i128, MyError>(x),
            self.instant() is None ==> (r matches Err(e) && e is Runtime),
    {
        match self {
            Bound::Date(z) => Ok(*z),
            Bound::Timestamp(z) => Ok(*z),
            Bound::Unbounded => Err(MyError::Runtime("bound is not a bounded instant".to_string())),
        }
    }

    /// Return the instant if this is a bounded value; `None` otherwise.
    pub fn as_zoned(&self) -> (r: Option<i128>)
        ensures
            r == self.instant(),
    {
        match self {
            Bound::Date(x) => Some(*x),
            Bound::Timestamp(x) => Some(*x),
            Bound::Unbounded => None,
        }
    }

    /// Return TRUE if this is the unbounded variant, FALSE otherwise.
    pub fn is_unbound(&self) -> (r: bool)
        ensures
            r == (*self is Unbounded),
    {
        match self {
            Bound::Unbounded => true,
            _ => false,
        }
    }
}

/// The order of bounds is a strict total order on their instants, with the
/// unbounded value below all others: irreflexive, transitive, and total up
/// to equality.
pub proof fn lemma_bound_order(a: Bound, b: Bound, c: Bound)
    ensures
        !a.before(a),
        a.before(b) && b.before(c) ==> a.before(c),
        a.before(b) || b.before(a) || a.same(b),
        a.same(b) ==> !a.before(b) && !b.before(a),
{
}

} // verus!
