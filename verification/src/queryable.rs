//! OGC CQL2 Queryable: a token that represents a property of a resource
//! that can be used in a filter expression, and its possible values.
//!
//! Two kinds of values are held here by what stands for them, since their
//! arithmetic and geometry live outside this library: a double precision
//! number by its place in the order of numbers ([`Num`]), and a geometry by
//! a token that is equal for equal geometries ([`Geom`]).

use crate::bound::{checked_nanos, nanos_in_range, parsed_date, parsed_timestamp, Bound};
use crate::error::MyError;
use crate::qstring::QString;
use crate::unicode::{trim, trimmed};
use std::cmp::Ordering;
use vstd::prelude::*;

verus! {

/// What stands for a double precision number: whether it is NaN, and
/// otherwise a key that orders like the number does (equal numbers, such as
/// `0.0` and `-0.0`, have equal keys).
#[derive(Debug, Clone, Copy)]
pub struct Num {
    /// The number is NaN, which compares as unequal and unordered to
    /// everything.
    pub nan: bool,
    /// The place of the number in the order of numbers.
    pub key: u64,
}

impl Num {
    /// Numeric equality: neither is NaN and both have the same place.
    pub open spec fn same(self, other: Num) -> bool {
        !self.nan && !other.nan && self.key == other.key
    }

    /// Numeric order: neither is NaN and this one comes first.
    pub open spec fn below(self, other: Num) -> bool {
        !self.nan && !other.nan && self.key < other.key
    }

    /// Numeric equality.
    pub fn eq(&self, other: &Num) -> (r: bool)
        ensures
            r == self.same(*other),
    {
        !self.nan && !other.nan && self.key == other.key
    }
}

/// What stands for a geometry: a token that is the same for two geometries
/// exactly when they are equal.
#[derive(Debug, Clone, Copy, PartialEq, Eq, Structural)]
pub struct Geom {
    /// The token.
    pub key: u64,
}

/// Queryable type variants.
#[derive(Debug, Clone, Copy, PartialEq, Eq, Structural)]
pub enum DataType {
    /// A Unicode UTF-8 string.
    Str,
    /// A numeric value including integers and floating points.
    Num,
    /// A boolean value.
    Bool,
    /// An _Instant_ with a granularity of a second or smaller.
    Timestamp,
    /// An _Instant_ with a granularity of a day.
    Date,
    /// A temporal range of 2 _Instants_ each either _fixed_ or _unbounded_.
    Interval,
    /// A spatial (geometry) value.
    Geom,
    /// A collection of homogeneous values.
    List,
}

/// A resource queryable property possible concrete value variants.
#[derive(Debug)]
pub enum Q {
    /// Unknown or undefined w/in the current context.
    Null,
    /// A known boolean value.
    Bool(bool),
    /// A known numeric literal.
    Num(Num),
    /// Either a known character string literal, or one that when used in
    /// comparisons, should be used ignoring its case and/or accent(s).
    Str(QString),
    /// A known geometry (spatial) instance.
    Geom(Geom),
    /// Either a known temporal instant or an unbounded value.
    Instant(Bound),
    /// A temporal interval.
    Interval(Bound, Bound),
    /// A list of other queryables.
    List(Vec<Q>),
}

/// The meaning of `==` on queryables: values of the same kind compare by
/// their own equality (strings honouring their flags, lists element by
/// element); values of different kinds are unequal, and `Null` equals
/// `Null`.
pub open spec fn q_same(a: Q, b: Q) -> bool
    decreases a, 1nat,
{
    match a {
        Q::Null => b is Null,
        Q::Bool(x) => b matches Q::Bool(y) && x == y,
        Q::Num(x) => b matches Q::Num(y) && x.same(y),
        Q::Str(x) => b matches Q::Str(y) && x.equals(y),
        Q::Geom(x) => b matches Q::Geom(y) && x == y,
        Q::Instant(x) => b matches Q::Instant(y) && x.same(y),
        Q::Interval(x0, x1) => b matches Q::Interval(y0, y1) && x0.same(y0) && x1.same(y1),
        Q::List(x) => b matches Q::List(y) && list_same(x@, y@),
    }
}

/// A non-empty list without its first element.
pub open spec fn tail(x: Seq<Q>) -> Seq<Q> {
    x.subrange(1, x.len() as int)
}

/// Element-wise equality of two lists of queryables.
pub open spec fn list_same(x: Seq<Q>, y: Seq<Q>) -> bool
    decreases x, 0nat,
{
    if x.len() != y.len() {
        false
    } else if x.len() == 0 {
        true
    } else {
        q_same(x[0], y[0]) && list_same(x.subrange(1, x.len() as int), y.subrange(1, y.len() as int))
    }
}

/// The order of two bounds as `Bound::partial_cmp` gives it: the unbounded
/// value first, bounded ones by their instants.
pub open spec fn bound_order(a: Bound, b: Bound) -> Ordering {
    if a.before(b) {
        Ordering::Less
    } else if b.before(a) {
        Ordering::Greater
    } else {
        Ordering::Equal
    }
}

/// The order of two strings: by raw characters, then flags.
pub open spec fn qstring_order(a: QString, b: QString) -> Ordering {
    if a.precedes(b) {
        Ordering::Less
    } else if b.precedes(a) {
        Ordering::Greater
    } else {
        Ordering::Equal
    }
}

/// The order of two intervals: by their starts; on equal starts, by their
/// ends, where an unbounded end comes after every bounded one.
pub open spec fn interval_order(a0: Bound, a1: Bound, b0: Bound, b1: Bound) -> Ordering {
    if bound_order(a0, b0) != Ordering::Equal {
        bound_order(a0, b0)
    } else if a1 is Unbounded && b1 is Unbounded {
        Ordering::Equal
    } else if a1 is Unbounded {
        Ordering::Greater
    } else if b1 is Unbounded {
        Ordering::Less
    } else {
        bound_order(a1, b1)
    }
}

/// The partial order of queryables: values of the same kind are ordered by
/// their own order (`false` before `true`, numbers unless NaN, strings,
/// instants, intervals, lists lexicographically); `Null` equals `Null`;
/// geometries and values of different kinds are not comparable.
pub open spec fn q_order(a: Q, b: Q) -> Option<Ordering>
    decreases a, 1nat,
{
    match (a, b) {
        (Q::Null, Q::Null) => Some(Ordering::Equal),
        (Q::Bool(x), Q::Bool(y)) => Some(
            if x == y {
                Ordering::Equal
            } else if !x {
                Ordering::Less
            } else {
                Ordering::Greater
            },
        ),
        (Q::Num(x), Q::Num(y)) => if x.nan || y.nan {
            None
        } else if x.key < y.key {
            Some(Ordering::Less)
        } else if x.key == y.key {
            Some(Ordering::Equal)
        } else {
            Some(Ordering::Greater)
        },
        (Q::Str(x), Q::Str(y)) => Some(qstring_order(x, y)),
        (Q::Instant(x), Q::Instant(y)) => Some(bound_order(x, y)),
        (Q::Interval(x0, x1), Q::Interval(y0, y1)) => Some(interval_order(x0, x1, y0, y1)),
        (Q::List(x), Q::List(y)) => list_order(x@, y@),
        _ => None,
    }
}

/// Lexicographic order of two lists of queryables: the first pair of
/// elements that is not equal decides (possibly as not comparable); when
/// one list is a prefix of the other, the shorter comes first.
pub open spec fn list_order(x: Seq<Q>, y: Seq<Q>) -> Option<Ordering>
    decreases x, 0nat,
{
    if x.len() == 0 || y.len() == 0 {
        Some(
            if x.len() == y.len() {
                Ordering::Equal
            } else if x.len() < y.len() {
                Ordering::Less
            } else {
                Ordering::Greater
            },
        )
    } else if q_order(x[0], y[0]) == Some(Ordering::Equal) {
        list_order(tail(x), tail(y))
    } else {
        q_order(x[0], y[0])
    }
}

/// Whether two queryables are values of the same kind.
pub open spec fn same_kind(a: Q, b: Q) -> bool {
    match (a, b) {
        (Q::Null, Q::Null) => true,
        (Q::Bool(_), Q::Bool(_)) => true,
        (Q::Num(_), Q::Num(_)) => true,
        (Q::Str(_), Q::Str(_)) => true,
        (Q::Geom(_), Q::Geom(_)) => true,
        (Q::Instant(_), Q::Instant(_)) => true,
        (Q::Interval(_, _), Q::Interval(_, _)) => true,
        (Q::List(_), Q::List(_)) => true,
        _ => false,
    }
}

/// The literal data type of a queryable, if it is a literal.
pub open spec fn literal_kind(a: Q) -> Option<DataType> {
    match a {
        Q::Bool(_) => Some(DataType::Bool),
        Q::Num(_) => Some(DataType::Num),
        Q::Str(_) => Some(DataType::Str),
        Q::Geom(_) => Some(DataType::Geom),
        Q::Instant(Bound::Date(_)) => Some(DataType::Date),
        Q::Instant(Bound::Timestamp(_)) => Some(DataType::Timestamp),
        _ => None,
    }
}

/// Whether `e` is a value that an `IN` list may hold next to the literal
/// `a`: a value of the same kind, and a bounded instant when `a` is an
/// instant.
pub open spec fn member_ok(a: Q, e: Q) -> bool {
    match a {
        Q::Bool(_) => e is Bool,
        Q::Num(_) => e is Num,
        Q::Str(_) => e is Str,
        Q::Geom(_) => e is Geom,
        Q::Instant(_) => e matches Q::Instant(b) && !(b is Unbounded),
        _ => true,
    }
}

/// Whether the literal `a` equals the list member `e` in the way `IN`
/// compares them (instants by their instants).
pub open spec fn member_eq(a: Q, e: Q) -> bool {
    match (a, e) {
        (Q::Instant(x), Q::Instant(y)) => x.instant() == y.instant(),
        _ => q_same(a, e),
    }
}

impl Q {
    /// Equality of two queryables.
    pub fn eq(&self, other: &Q) -> (r: bool)
        ensures
            r == q_same(*self, *other),
        decreases *self,
    {
        match (self, other) {
            (Q::Null, Q::Null) => true,
            (Q::Bool(x), Q::Bool(y)) => *x == *y,
            (Q::Num(x), Q::Num(y)) => x.eq(y),
            (Q::Str(x), Q::Str(y)) => x.eq(y),
            (Q::Geom(x), Q::Geom(y)) => x.key == y.key,
            (Q::Instant(x), Q::Instant(y)) => x.eq(y),
            (Q::Interval(x0, x1), Q::Interval(y0, y1)) => x0.eq(y0) && x1.eq(y1),
            (Q::List(x), Q::List(y)) => {
                if x.len() != y.len() {
                    return false;
                }
                let mut i: usize = 0;
                assert(x@.subrange(0, x.len() as int) == x@);
                assert(y@.subrange(0, y.len() as int) == y@);
                while i < x.len()
                    invariant
                        i <= x.len(),
                        x.len() == y.len(),
                        *self == Q::List(*x),
                        *other == Q::List(*y),
                        list_same(x@, y@) == list_same(x@.subrange(i as int, x.len() as int), y@.subrange(i as int, y.len() as int)),
                    decreases x.len() - i,
                {
                    proof {
                        assert(decreases_to!(*self => (*self)->List_0));
                        assert((*self)->List_0 == *x);
                        assert(decreases_to!(*x => x@));
                        assert(decreases_to!(x@ => x@[i as int]));
                        assert(decreases_to!(*self => x@[i as int]));
                        let xs = x@.subrange(i as int, x.len() as int);
                        let ys = y@.subrange(i as int, y.len() as int);
                        assert(xs[0] == x@[i as int]);
                        assert(ys[0] == y@[i as int]);
                        assert(xs.subrange(1, xs.len() as int) == x@.subrange(i + 1, x.len() as int));
                        assert(ys.subrange(1, ys.len() as int) == y@.subrange(i + 1, y.len() as int));
                    }
                    if !x[i].eq(&y[i]) {
                        return false;
                    }
                    i = i + 1;
                }
                true
            },
            _ => false,
        }
    }
}


/// The elements of a list from position `i` on.
pub open spec fn suffix(x: Seq<Q>, i: usize) -> Seq<Q> {
    x.subrange(i as int, x.len() as int)
}

/// The element of a list at position `i`.
pub open spec fn element(x: Seq<Q>, i: usize) -> Q {
    x[i as int]
}

pub proof fn lemma_suffix_start(x: Seq<Q>)
    ensures
        suffix(x, 0) == x,
{
    assert(x.subrange(0, x.len() as int) == x);
}

pub proof fn lemma_suffix_step(x: Seq<Q>, i: usize)
    requires
        i < x.len(),
        i < usize::MAX,
    ensures
        suffix(x, i).len() > 0,
        suffix(x, i)[0] == element(x, i),
        tail(suffix(x, i)) == suffix(x, (i + 1) as usize),
        element(x, i) == x[i as int],
{
    assert(tail(suffix(x, i)) =~= suffix(x, (i + 1) as usize));
}

proof fn lemma_list_element_smaller(q: Q, x: Vec<Q>, i: usize)
    requires
        q == Q::List(x),
        i < x.len(),
    ensures
        decreases_to!(q => x@[i as int]),
{
    assert(decreases_to!(q => q->List_0));
    assert(decreases_to!(x => x@));
    assert(decreases_to!(x@ => x@[i as int]));
}

/// The order of two bounds.
pub fn bound_cmp(a: &Bound, b: &Bound) -> (r: Ordering)
    ensures
        r == bound_order(*a, *b),
{
    if a.lt(b) {
        Ordering::Less
    } else if b.lt(a) {
        Ordering::Greater
    } else {
        Ordering::Equal
    }
}

/// The order of two strings.
pub fn qstring_cmp(a: &QString, b: &QString) -> (r: Ordering)
    ensures
        r == qstring_order(*a, *b),
{
    if a.lt(b) {
        Ordering::Less
    } else if b.lt(a) {
        Ordering::Greater
    } else {
        Ordering::Equal
    }
}

impl Q {
    /// The partial order of two queryables.
    pub fn partial_cmp(&self, other: &Q) -> (r: Option<Ordering>)
        ensures
            r == q_order(*self, *other),
        decreases *self,
    {
        match (self, other) {
            (Q::Null, Q::Null) => Some(Ordering::Equal),
            (Q::Bool(x), Q::Bool(y)) => Some(
                if *x == *y {
                    Ordering::Equal
                } else if !*x {
                    Ordering::Less
                } else {
                    Ordering::Greater
                },
            ),
            (Q::Num(x), Q::Num(y)) => {
                if x.nan || y.nan {
                    None
                } else if x.key < y.key {
                    Some(Ordering::Less)
                } else if x.key == y.key {
                    Some(Ordering::Equal)
                } else {
                    Some(Ordering::Greater)
                }
            },
            (Q::Str(x), Q::Str(y)) => Some(qstring_cmp(x, y)),
            (Q::Instant(x), Q::Instant(y)) => Some(bound_cmp(x, y)),
            (Q::Interval(x0, x1), Q::Interval(y0, y1)) => {
                let first = bound_cmp(x0, y0);
                match first {
                    Ordering::Equal => {
                        let r = match (x1, y1) {
                            (Bound::Unbounded, Bound::Unbounded) => Ordering::Equal,
                            (Bound::Unbounded, _) => Ordering::Greater,
                            (_, Bound::Unbounded) => Ordering::Less,
                            _ => bound_cmp(x1, y1),
                        };
                        Some(r)
                    },
                    _ => Some(first),
                }
            },
            (Q::List(x), Q::List(y)) => {
                let mut i: usize = 0;
                proof {
                    lemma_suffix_start(x@);
                    lemma_suffix_start(y@);
                }
                while i < x.len() && i < y.len()
                    invariant
                        i <= x.len(),
                        i <= y.len(),
                        *self == Q::List(*x),
                        *other == Q::List(*y),
                        list_order(x@, y@) == list_order(suffix(x@, i), suffix(y@, i)),
                    decreases x.len() - i,
                {
                    proof {
                        lemma_list_element_smaller(*self, *x, i);
                        lemma_suffix_step(x@, i);
                        lemma_suffix_step(y@, i);
                    }
                    let c = x[i].partial_cmp(&y[i]);
                    match c {
                        Some(Ordering::Equal) => {},
                        _ => {
                            return c;
                        },
                    }
                    i = i + 1;
                }
                Some(
                    if x.len() == y.len() {
                        Ordering::Equal
                    } else if x.len() < y.len() {
                        Ordering::Less
                    } else {
                        Ordering::Greater
                    },
                )
            },
            _ => None,
        }
    }

    /// Whether this queryable is strictly less than `other`.
    pub fn lt(&self, other: &Q) -> (r: bool)
        ensures
            r == (q_order(*self, *other) == Some(Ordering::Less)),
    {
        match self.partial_cmp(other) {
            Some(Ordering::Less) => true,
            _ => false,
        }
    }

    /// Whether this queryable is strictly greater than `other`.
    pub fn gt(&self, other: &Q) -> (r: bool)
        ensures
            r == (q_order(*self, *other) == Some(Ordering::Greater)),
    {
        match self.partial_cmp(other) {
            Some(Ordering::Greater) => true,
            _ => false,
        }
    }

    /// Whether this queryable is less than or equal to `other`.
    pub fn le(&self, other: &Q) -> (r: bool)
        ensures
            r == (q_order(*self, *other) == Some(Ordering::Less) || q_order(*self, *other) == Some(
                Ordering::Equal,
            )),
    {
        match self.partial_cmp(other) {
            Some(Ordering::Less) => true,
            Some(Ordering::Equal) => true,
            _ => false,
        }
    }

    /// Whether this queryable is greater than or equal to `other`.
    pub fn ge(&self, other: &Q) -> (r: bool)
        ensures
            r == (q_order(*self, *other) == Some(Ordering::Greater) || q_order(*self, *other)
                == Some(Ordering::Equal)),
    {
        match self.partial_cmp(other) {
            Some(Ordering::Greater) => true,
            Some(Ordering::Equal) => true,
            _ => false,
        }
    }
}

/// Whether every member of `list` may stand in an `IN` list next to `a`.
pub open spec fn all_members_ok(a: Q, list: Seq<Q>) -> bool {
    forall|k: int| 0 <= k < list.len() ==> member_ok(a, #[trigger] list[k])
}

/// Whether some member of `list` equals `a` in the way `IN` compares.
pub open spec fn some_member_eq(a: Q, list: Seq<Q>) -> bool {
    exists|k: int| 0 <= k < list.len() && member_eq(a, #[trigger] list[k])
}

/// A runtime error with the given message.
fn runtime(msg: &str) -> (r: MyError)
    ensures
        r is Runtime,
{
    MyError::Runtime(msg.to_string())
}

impl Q {
    /// Create a new instance as a plain literal string from given argument
    /// **after trimming it**.
    pub fn new_plain_str(value: &str) -> (r: Q)
        ensures
            r matches Q::Str(s) && s.text() == trimmed(value@) && s.flag_bits() == 0,
    {
        let t = trim(value);
        Q::Str(QString::plain(t.as_str()))
    }

    /// Try creating a new temporal timestamp instance from a string of the
    /// form _fullDate_ followed by "T", followed by _utcTime_.
    pub fn try_from_timestamp_str(value: &str) -> (r: Result<Q, MyError>)
        ensures
            r is Ok <==> parsed_timestamp(value@) is Some,
            r matches Ok(q) ==> q == Q::Instant(Bound::Timestamp(parsed_timestamp(value@).unwrap())),
            r matches Err(e) ==> e is Time,
    {
        let b = Bound::try_new_timestamp(value)?;
        Ok(Q::Instant(b))
    }

    /// Try creating a new temporal timestamp instance from a number of
    /// nanoseconds since the Unix epoch.
    pub fn try_from_timestamp_ns(value: i128) -> (r: Result<Q, MyError>)
        ensures
            r is Ok <==> nanos_in_range(value),
            r matches Ok(q) ==> q == Q::Instant(Bound::Timestamp(value)),
            r matches Err(e) ==> e is Time,
    {
        match checked_nanos(value) {
            Ok(n) => Ok(Q::Instant(Bound::Timestamp(n))),
            Err(e) => Err(MyError::Time(e)),
        }
    }

    /// Try creating a new temporal date instance from a _fullDate_ string.
    /// The date is taken as UTC midnight.
    pub fn try_from_date_str(value: &str) -> (r: Result<Q, MyError>)
        ensures
            r is Ok <==> parsed_date(value@) is Some,
            r matches Ok(q) ==> q == Q::Instant(Bound::Date(parsed_date(value@).unwrap())),
            r matches Err(e) ==> e is Time,
    {
        let b = Bound::try_new_date(value)?;
        Ok(Q::Instant(b))
    }

    /// Try creating a new temporal date instance from a number of
    /// nanoseconds since the Unix epoch.
    pub fn try_from_date_ns(value: i128) -> (r: Result<Q, MyError>)
        ensures
            r is Ok <==> nanos_in_range(value),
            r matches Ok(q) ==> q == Q::Instant(Bound::Date(value)),
            r matches Err(e) ==> e is Time,
    {
        match checked_nanos(value) {
            Ok(n) => Ok(Q::Instant(Bound::Date(n))),
            Err(e) => Err(MyError::Time(e)),
        }
    }

    /// Return TRUE if this is `Null`; FALSE otherwise.
    pub fn is_null(&self) -> (r: bool)
        ensures
            r == (*self is Null),
    {
        match self {
            Q::Null => true,
            _ => false,
        }
    }

    /// Return TRUE if this is a temporal instant; FALSE otherwise.
    pub fn is_instant(&self) -> (r: bool)
        ensures
            r == (*self is Instant),
    {
        match self {
            Q::Instant(_) => true,
            _ => false,
        }
    }

    /// Return the current value of this if it's a boolean value.
    pub fn to_bool(&self) -> (r: Result<bool, MyError>)
        ensures
            *self matches Q::Bool(b) ==> r == Ok::<bool, MyError>(b),
            !(*self is Bool) ==> (r matches Err(e) && e is Runtime),
    {
        match self {
            Q::Bool(x) => Ok(*x),
            _ => Err(runtime("not a boolean")),
        }
    }

    /// Return the current value of this if it's a string value.
    pub fn to_str(&self) -> (r: Result<QString, MyError>)
        ensures
            *self matches Q::Str(s) ==> (r matches Ok(t) && t.text() == s.text() && t.flag_bits()
                == s.flag_bits()),
            !(*self is Str) ==> (r matches Err(e) && e is Runtime),
    {
        match self {
            Q::Str(x) => Ok(x.clone()),
            _ => Err(runtime("not a string")),
        }
    }

    /// Return the current value of this if it's a number value.
    pub fn to_num(&self) -> (r: Result<Num, MyError>)
        ensures
            *self matches Q::Num(n) ==> r == Ok::<Num, MyError>(n),
            !(*self is Num) ==> (r matches Err(e) && e is Runtime),
    {
        match self {
            Q::Num(x) => Ok(Num { nan: x.nan, key: x.key }),
            _ => Err(runtime("not a number")),
        }
    }

    /// Return the current value of this if it's a geometry value.
    pub fn to_geom(&self) -> (r: Result<Geom, MyError>)
        ensures
            *self matches Q::Geom(g) ==> r == Ok::<Geom, MyError>(g),
            !(*self is Geom) ==> (r matches Err(e) && e is Runtime),
    {
        match self {
            Q::Geom(x) => Ok(Geom { key: x.key }),
            _ => Err(runtime("not a geometry")),
        }
    }

    /// Return the current value of this if it's a temporal instant.
    pub fn to_bound(&self) -> (r: Result<Bound, MyError>)
        ensures
            *self matches Q::Instant(b) ==> r == Ok::<Bound, MyError>(b),
            !(*self is Instant) ==> (r matches Err(e) && e is Runtime),
    {
        match self {
            Q::Instant(x) => Ok(x.clone()),
            _ => Err(runtime("not a bounded instant")),
        }
    }

    /// Return the current value of this if it's an _Interval_ value as a
    /// pair of bounds.
    pub fn to_interval(&self) -> (r: Result<(Bound, Bound), MyError>)
        ensures
            *self matches Q::Interval(a, b) ==> r == Ok::<(Bound, Bound), MyError>((a, b)),
            !(*self is Interval) ==> (r matches Err(e) && e is Runtime),
    {
        match self {
            Q::Interval(x, y) => Ok((x.clone(), y.clone())),
            _ => Err(runtime("not an interval")),
        }
    }

    /// Return the items of this if it's a collection.
    pub fn to_list(&self) -> (r: Result<&Vec<Q>, MyError>)
        ensures
            *self matches Q::List(v) ==> r == Ok::<&Vec<Q>, MyError>(&v),
            !(*self is List) ==> (r matches Err(e) && e is Runtime),
    {
        match self {
            Q::List(x) => Ok(x),
            _ => Err(runtime("not a list")),
        }
    }

    /// Return TRUE if both arguments are of the same type; FALSE otherwise.
    pub fn same_type(this: &Q, that: &Q) -> (r: bool)
        ensures
            r == same_kind(*this, *that),
    {
        match (this, that) {
            (Q::Null, Q::Null) => true,
            (Q::Bool(_), Q::Bool(_)) => true,
            (Q::Num(_), Q::Num(_)) => true,
            (Q::Str(_), Q::Str(_)) => true,
            (Q::Geom(_), Q::Geom(_)) => true,
            (Q::Instant(_), Q::Instant(_)) => true,
            (Q::Interval(_, _), Q::Interval(_, _)) => true,
            (Q::List(_), Q::List(_)) => true,
            _ => false,
        }
    }

    /// Return the optional literal data type of this.
    pub fn literal_type(&self) -> (r: Option<DataType>)
        ensures
            r == literal_kind(*self),
    {
        match self {
            Q::Bool(_) => Some(DataType::Bool),
            Q::Num(_) => Some(DataType::Num),
            Q::Str(_) => Some(DataType::Str),
            Q::Geom(_) => Some(DataType::Geom),
            Q::Instant(x) => match x {
                Bound::Unbounded => None,
                Bound::Date(_) => Some(DataType::Date),
                Bound::Timestamp(_) => Some(DataType::Timestamp),
            },
            _ => None,
        }
    }

    /// Whether `e` may stand in an `IN` list next to this literal.
    fn member_ok_exec(&self, e: &Q) -> (r: bool)
        ensures
            r == member_ok(*self, *e),
    {
        match self {
            Q::Bool(_) => matches!(e, Q::Bool(_)),
            Q::Num(_) => matches!(e, Q::Num(_)),
            Q::Str(_) => matches!(e, Q::Str(_)),
            Q::Geom(_) => matches!(e, Q::Geom(_)),
            Q::Instant(_) => match e {
                Q::Instant(b) => !b.is_unbound(),
                _ => false,
            },
            _ => true,
        }
    }

    /// Whether this literal equals the list member `e` the way `IN`
    /// compares.
    fn member_eq_exec(&self, e: &Q) -> (r: bool)
        ensures
            r == member_eq(*self, *e),
    {
        match (self, e) {
            (Q::Instant(x), Q::Instant(y)) => x.as_zoned() == y.as_zoned(),
            _ => self.eq(e),
        }
    }

    /// Whether this literal is a member of `list`. An empty list, or a value
    /// that is not a literal, is a member of nothing. Every member must be a
    /// value of the same kind as this one (a bounded instant when this is an
    /// instant); otherwise the result is an error.
    pub fn contained_by(&self, list: &Vec<Q>) -> (r: Result<bool, MyError>)
        ensures
            (list.len() == 0 || literal_kind(*self) is None) ==> r == Ok::<bool, MyError>(false),
            (list.len() > 0 && literal_kind(*self) is Some) ==> {
                &&& r is Ok <==> all_members_ok(*self, list@)
                &&& r matches Ok(b) ==> b == some_member_eq(*self, list@)
                &&& r matches Err(e) ==> e is Runtime
            },
    {
        if list.len() == 0 {
            return Ok(false);
        }
        if self.literal_type().is_none() {
            return Ok(false);
        }
        let mut i: usize = 0;
        while i < list.len()
            invariant
                i <= list.len(),
                list.len() > 0,
                literal_kind(*self) is Some,
                forall|k: int| 0 <= k < i ==> member_ok(*self, #[trigger] list@[k]),
            decreases list.len() - i,
        {
            if !self.member_ok_exec(&list[i]) {
                return Err(runtime("incompatible list member"));
            }
            i = i + 1;
        }
        let mut j: usize = 0;
        while j < list.len()
            invariant
                j <= list.len(),
                list.len() > 0,
                literal_kind(*self) is Some,
                all_members_ok(*self, list@),
                forall|k: int| 0 <= k < j ==> !member_eq(*self, #[trigger] list@[k]),
            decreases list.len() - j,
        {
            if self.member_eq_exec(&list[j]) {
                return Ok(true);
            }
            j = j + 1;
        }
        Ok(false)
    }
}

impl Q {
    /// A boolean queryable.
    pub fn from_bool(value: bool) -> (r: Q)
        ensures
            r == Q::Bool(value),
    {
        Q::Bool(value)
    }

    /// An instant (or unbounded) queryable.
    pub fn from_bound(value: Bound) -> (r: Q)
        ensures
            r == Q::Instant(value),
    {
        Q::Instant(value)
    }
}

} // verus!
