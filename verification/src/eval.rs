//! What each operator of a CQL2 filter expression yields once its operands
//! are evaluated: three-valued logic, comparisons, LIKE, BETWEEN and IN,
//! temporal relations between instants and intervals, and array relations.

use crate::bound::Bound;
use crate::error::MyError;
use crate::op::Op;
use crate::qstring::{like_spec, QString};
use crate::queryable::{
    all_members_ok, lemma_suffix_start, lemma_suffix_step, literal_kind, list_same, q_order,
    q_same, same_kind, some_member_eq, suffix, Num, Q,
};
use std::cmp::Ordering;
use vstd::prelude::*;

verus! {

/// The truth value a queryable holds in three-valued logic: `Some(b)` for a
/// boolean, `None` for `Null`.
pub open spec fn truth(q: Q) -> Option<bool> {
    match q {
        Q::Bool(b) => Some(b),
        _ => None,
    }
}

/// Whether a queryable is a valid operand of a logical operator: a boolean
/// or `Null`.
pub open spec fn is_logical(q: Q) -> bool {
    q is Bool || q is Null
}

/// The queryable that holds a truth value of three-valued logic.
pub open spec fn from_truth(t: Option<bool>) -> Q {
    match t {
        Some(b) => Q::Bool(b),
        None => Q::Null,
    }
}

/// Conjunction in three-valued logic: false when either side is false,
/// true when both are true, unknown otherwise.
pub open spec fn kleene_and(a: Option<bool>, b: Option<bool>) -> Option<bool> {
    if a == Some(false) || b == Some(false) {
        Some(false)
    } else if a == Some(true) && b == Some(true) {
        Some(true)
    } else {
        None
    }
}

/// Disjunction in three-valued logic: true when either side is true, false
/// when both are false, unknown otherwise.
pub open spec fn kleene_or(a: Option<bool>, b: Option<bool>) -> Option<bool> {
    if a == Some(true) || b == Some(true) {
        Some(true)
    } else if a == Some(false) && b == Some(false) {
        Some(false)
    } else {
        None
    }
}

/// Negation in three-valued logic: unknown stays unknown.
pub open spec fn kleene_not(a: Option<bool>) -> Option<bool> {
    match a {
        Some(b) => Some(!b),
        None => None,
    }
}

/// Conjunction and disjunction do not depend on the order of their
/// operands.
pub proof fn lemma_logic_commutative(a: Option<bool>, b: Option<bool>)
    ensures
        kleene_and(a, b) == kleene_and(b, a),
        kleene_or(a, b) == kleene_or(b, a),
{
}

/// Conjunction and disjunction may be grouped either way.
pub proof fn lemma_logic_associative(a: Option<bool>, b: Option<bool>, c: Option<bool>)
    ensures
        kleene_and(kleene_and(a, b), c) == kleene_and(a, kleene_and(b, c)),
        kleene_or(kleene_or(a, b), c) == kleene_or(a, kleene_or(b, c)),
{
}

/// De Morgan's laws hold in three-valued logic, and negating twice gives
/// back the operand.
pub proof fn lemma_logic_de_morgan(a: Option<bool>, b: Option<bool>)
    ensures
        kleene_not(kleene_and(a, b)) == kleene_or(kleene_not(a), kleene_not(b)),
        kleene_not(kleene_or(a, b)) == kleene_and(kleene_not(a), kleene_not(b)),
        kleene_not(kleene_not(a)) == a,
{
}

/// On known values, the logic is the ordinary one; an unknown operand next
/// to false (for AND) or true (for OR) does not matter.
pub proof fn lemma_logic_on_known(a: bool, b: bool)
    ensures
        kleene_and(Some(a), Some(b)) == Some(a && b),
        kleene_or(Some(a), Some(b)) == Some(a || b),
        kleene_and(None, Some(false)) == Some(false),
        kleene_or(None, Some(true)) == Some(true),
        kleene_and(None, Some(true)) == None::<bool>,
        kleene_or(None, Some(false)) == None::<bool>,
{
}

/// A runtime error with the given message.
fn runtime(msg: &str) -> (r: MyError)
    ensures
        r is Runtime,
{
    MyError::Runtime(msg.to_string())
}

/// The three-valued truth held by a boolean or `Null` queryable.
fn truth_of(q: &Q) -> (r: Option<bool>)
    requires
        is_logical(*q),
    ensures
        r == truth(*q),
{
    match q {
        Q::Bool(b) => Some(*b),
        _ => None,
    }
}

/// The queryable holding a three-valued truth.
fn q_of(t: Option<bool>) -> (r: Q)
    ensures
        r == from_truth(t),
{
    match t {
        Some(b) => Q::Bool(b),
        None => Q::Null,
    }
}

/// Evaluate `x AND y` on evaluated operands, following the truth table of
/// OGC CQL2. Operands other than booleans and `Null` are an error.
pub fn eval_and(zx: &Q, zy: &Q) -> (r: Result<Q, MyError>)
    ensures
        r is Ok <==> (is_logical(*zx) && is_logical(*zy)),
        r matches Ok(q) ==> q == from_truth(kleene_and(truth(*zx), truth(*zy))),
        r matches Err(e) ==> e is Runtime,
{
    if !(matches!(zx, Q::Bool(_)) || matches!(zx, Q::Null)) || !(matches!(zy, Q::Bool(_))
        || matches!(zy, Q::Null)) {
        return Err(runtime("Unexpected AND operands"));
    }
    let a = truth_of(zx);
    let b = truth_of(zy);
    let t = if a == Some(false) || b == Some(false) {
        Some(false)
    } else if a == Some(true) && b == Some(true) {
        Some(true)
    } else {
        None
    };
    Ok(q_of(t))
}

/// Evaluate `x OR y` on evaluated operands, following the truth table of
/// OGC CQL2. Operands other than booleans and `Null` are an error.
pub fn eval_or(zx: &Q, zy: &Q) -> (r: Result<Q, MyError>)
    ensures
        r is Ok <==> (is_logical(*zx) && is_logical(*zy)),
        r matches Ok(q) ==> q == from_truth(kleene_or(truth(*zx), truth(*zy))),
        r matches Err(e) ==> e is Runtime,
{
    if !(matches!(zx, Q::Bool(_)) || matches!(zx, Q::Null)) || !(matches!(zy, Q::Bool(_))
        || matches!(zy, Q::Null)) {
        return Err(runtime("Unexpected OR operands"));
    }
    let a = truth_of(zx);
    let b = truth_of(zy);
    let t = if a == Some(true) || b == Some(true) {
        Some(true)
    } else if a == Some(false) && b == Some(false) {
        Some(false)
    } else {
        None
    };
    Ok(q_of(t))
}

/// What a monadic operator other than numeric negation yields on its
/// evaluated operand; `None` stands for an error.
pub open spec fn monadic_spec(op: Op, zx: Q) -> Option<Q> {
    match op {
        Op::Neg => match zx {
            Q::Null => Some(Q::Null),
            Q::Bool(b) => Some(Q::Bool(!b)),
            _ => None,
        },
        Op::IsNull => Some(Q::Bool(zx is Null)),
        Op::IsNotNull => Some(Q::Bool(!(zx is Null))),
        _ => None,
    }
}

/// Evaluate a monadic operator on its evaluated operand: logical negation
/// (of a boolean or `Null`), the case- and accent-insensitive marks (of a
/// string) and the null tests. Numeric negation is not handled here.
pub fn eval_monadic(op: &Op, zx: Q) -> (r: Result<Q, MyError>)
    requires
        !(*op is Minus),
    ensures
        !(*op is CaseI) && !(*op is AccentI) ==> (r is Ok <==> monadic_spec(*op, zx) is Some),
        !(*op is CaseI) && !(*op is AccentI) ==> (r matches Ok(q) ==> Some(q) == monadic_spec(
            *op,
            zx,
        )),
        *op is CaseI ==> (r is Ok <==> zx is Str),
        *op is CaseI ==> (r matches Ok(q) ==> (q matches Q::Str(t) && zx matches Q::Str(s)
            && t == s.with_icase() && t.text() == s.text() && t.icase_spec() && t.iaccent_spec()
            == s.iaccent_spec())),
        *op is AccentI ==> (r is Ok <==> zx is Str),
        *op is AccentI ==> (r matches Ok(q) ==> (q matches Q::Str(t) && zx matches Q::Str(s)
            && t == s.with_iaccent() && t.text() == s.text() && t.iaccent_spec() && t.icase_spec()
            == s.icase_spec())),
        r matches Err(e) ==> e is Runtime,
{
    match op {
        Op::Neg => match zx {
            Q::Null => Ok(Q::Null),
            Q::Bool(x) => Ok(Q::Bool(!x)),
            _ => Err(runtime("Expected a boolean")),
        },
        Op::CaseI => match zx {
            Q::Str(s) => Ok(Q::Str(s.and_icase())),
            _ => Err(runtime("Expected a string")),
        },
        Op::AccentI => match zx {
            Q::Str(s) => Ok(Q::Str(s.and_iaccent())),
            _ => Err(runtime("Expected a string")),
        },
        Op::IsNull => match zx {
            Q::Null => Ok(Q::Bool(true)),
            _ => Ok(Q::Bool(false)),
        },
        Op::IsNotNull => match zx {
            Q::Null => Ok(Q::Bool(false)),
            _ => Ok(Q::Bool(true)),
        },
        _ => Err(runtime("Unexpected monadic operator")),
    }
}

/// Whether a queryable order is the one that a comparison operator asks
/// for.
pub open spec fn order_holds(op: Op, o: Option<Ordering>) -> bool {
    match op {
        Op::Lt => o == Some(Ordering::Less),
        Op::Gt => o == Some(Ordering::Greater),
        Op::Lte => o == Some(Ordering::Less) || o == Some(Ordering::Equal),
        Op::Gte => o == Some(Ordering::Greater) || o == Some(Ordering::Equal),
        _ => false,
    }
}

/// What a basic comparison yields on evaluated operands: `Null` when either
/// is `Null`; for operands of the same kind, the equality or the order that
/// the operator names; `None` (an error) for operands of different kinds
/// and for the null tests used as binary operators.
pub open spec fn comparison_spec(op: Op, zx: Q, zy: Q) -> Option<Q> {
    if zx is Null || zy is Null {
        Some(Q::Null)
    } else if !same_kind(zx, zy) {
        None
    } else {
        match op {
            Op::Eq => Some(Q::Bool(q_same(zx, zy))),
            Op::Neq => Some(Q::Bool(!q_same(zx, zy))),
            Op::Lt | Op::Gt | Op::Lte | Op::Gte => Some(Q::Bool(order_holds(op, q_order(zx, zy)))),
            _ => None,
        }
    }
}

/// Evaluate a basic comparison (`=`, `<>`, `<`, `>`, `<=`, `>=`) on
/// evaluated operands.
pub fn eval_comparison(op: &Op, zx: &Q, zy: &Q) -> (r: Result<Q, MyError>)
    requires
        op.is_comparison(),
    ensures
        r is Ok <==> comparison_spec(*op, *zx, *zy) is Some,
        r matches Ok(q) ==> Some(q) == comparison_spec(*op, *zx, *zy),
        r matches Err(e) ==> e is Runtime,
{
    if zx.is_null() || zy.is_null() {
        Ok(Q::Null)
    } else if Q::same_type(zx, zy) {
        match op {
            Op::Eq => Ok(Q::Bool(zx.eq(zy))),
            Op::Neq => Ok(Q::Bool(!zx.eq(zy))),
            Op::Lt => Ok(Q::Bool(zx.lt(zy))),
            Op::Gt => Ok(Q::Bool(zx.gt(zy))),
            Op::Lte => Ok(Q::Bool(zx.le(zy))),
            Op::Gte => Ok(Q::Bool(zx.ge(zy))),
            _ => Err(runtime("Unexpected comparison operator")),
        }
    } else {
        Err(runtime("Unexpected comparison between values of different types"))
    }
}

/// `a <= b` on numbers: false when either is NaN.
pub open spec fn num_le(a: Num, b: Num) -> bool {
    !a.nan && !b.nan && a.key <= b.key
}

/// Whether `a` lies in the closed range between `lo` and `hi`, taken in
/// whichever order makes it a range.
pub open spec fn in_range(a: Num, lo: Num, hi: Num) -> bool {
    if num_le(lo, hi) {
        num_le(lo, a) && num_le(a, hi)
    } else {
        num_le(hi, a) && num_le(a, lo)
    }
}

fn num_le_exec(a: &Num, b: &Num) -> (r: bool)
    ensures
        r == num_le(*a, *b),
{
    !a.nan && !b.nan && a.key <= b.key
}

/// What `[NOT] BETWEEN` yields: `Null` when a bound is `Null`; `None` (an
/// error) when the operand is not a number, the bounds not a list of at
/// least two members (the first two are the bounds), or a bound not a
/// number.
pub open spec fn between_spec(negated: bool, zx: Q, zy: Q) -> Option<Q> {
    match (zx, zy) {
        (Q::Num(a), Q::List(v)) => if v.len() < 2 {
            None
        } else {
            let b0 = v@[0];
            let b1 = v@[1];
            if b0 is Null || b1 is Null {
                Some(Q::Null)
            } else {
                match (b0, b1) {
                    (Q::Num(lo), Q::Num(hi)) => Some(Q::Bool(in_range(a, lo, hi) != negated)),
                    _ => None,
                }
            }
        },
        _ => None,
    }
}

/// What `[NOT] IN` yields: `None` (an error) when the operand is not a
/// literal, the list is not a list, a member is of another kind, or (for
/// instants) a member is unbounded.
pub open spec fn in_list_spec(negated: bool, zx: Q, zy: Q) -> Option<Q> {
    if literal_kind(zx) is None {
        None
    } else {
        match zy {
            Q::List(v) => if !(forall|k: int| 0 <= k < v.len() ==> #[trigger] same_kind(zx, v@[k])) {
                None
            } else if v.len() == 0 {
                Some(Q::Bool(negated))
            } else if !all_members_ok(zx, v@) {
                None
            } else {
                Some(Q::Bool(some_member_eq(zx, v@) != negated))
            },
            _ => None,
        }
    }
}

/// What an extended comparison yields on evaluated operands: `Null` when
/// either is `Null`; otherwise LIKE, BETWEEN or IN as their own rules say.
pub open spec fn xtd_spec(op: Op, zx: Q, zy: Q) -> Option<Q> {
    if zx is Null || zy is Null {
        Some(Q::Null)
    } else {
        match op {
            Op::IsLike | Op::IsNotLike => match (zx, zy) {
                (Q::Str(a), Q::Str(b)) => Some(Q::Bool(like_spec(a, b) != (op is IsNotLike))),
                _ => None,
            },
            Op::IsBetween => between_spec(false, zx, zy),
            Op::IsNotBetween => between_spec(true, zx, zy),
            Op::IsInList => in_list_spec(false, zx, zy),
            Op::IsNotInList => in_list_spec(true, zx, zy),
            _ => None,
        }
    }
}

/// Evaluate an extended comparison (`[NOT] LIKE`, `[NOT] BETWEEN`,
/// `[NOT] IN`) on evaluated operands.
pub fn eval_xtd_comparison(op: &Op, zx: &Q, zy: &Q) -> (r: Result<Q, MyError>)
    requires
        op.is_xtd_comparison(),
    ensures
        r is Ok <==> xtd_spec(*op, *zx, *zy) is Some,
        r matches Ok(q) ==> Some(q) == xtd_spec(*op, *zx, *zy),
        r matches Err(e) ==> e is Runtime,
{
    if zx.is_null() || zy.is_null() {
        return Ok(Q::Null);
    }
    match op {
        Op::IsLike | Op::IsNotLike => {
            let input = zx.to_str()?;
            let pattern = zy.to_str()?;
            let m = QString::like(&input, &pattern);
            if matches!(op, Op::IsLike) {
                Ok(Q::Bool(m))
            } else {
                Ok(Q::Bool(!m))
            }
        },
        Op::IsBetween | Op::IsNotBetween => {
            let a = zx.to_num()?;
            let bounds = zy.to_list()?;
            if bounds.len() < 2 {
                return Err(runtime("[NOT] BETWEEN needs two bounds"));
            }
            let b0 = &bounds[0];
            let b1 = &bounds[1];
            if b0.is_null() || b1.is_null() {
                Ok(Q::Null)
            } else {
                let lo = b0.to_num()?;
                let hi = b1.to_num()?;
                let inside = if num_le_exec(&lo, &hi) {
                    num_le_exec(&lo, &a) && num_le_exec(&a, &hi)
                } else {
                    num_le_exec(&hi, &a) && num_le_exec(&a, &lo)
                };
                if matches!(op, Op::IsBetween) {
                    Ok(Q::Bool(inside))
                } else {
                    Ok(Q::Bool(!inside))
                }
            }
        },
        Op::IsInList | Op::IsNotInList => {
            if zx.literal_type().is_none() {
                return Err(runtime("[NOT] IN LHS is not a literal value"));
            }
            let list = zy.to_list()?;
            let mut i: usize = 0;
            while i < list.len()
                invariant
                    i <= list.len(),
                    *zy == Q::List(*list),
                    !(*zx is Null),
                    *op is IsInList || *op is IsNotInList,
                    literal_kind(*zx) is Some,
                    forall|k: int| 0 <= k < i ==> #[trigger] same_kind(*zx, list@[k]),
                decreases list.len() - i,
            {
                if !Q::same_type(zx, &list[i]) {
                    return Err(runtime("Incompatible [NOT] IN predicate types"));
                }
                i = i + 1;
            }
            let found = zx.contained_by(list)?;
            if matches!(op, Op::IsInList) {
                Ok(Q::Bool(found))
            } else {
                Ok(Q::Bool(!found))
            }
        },
        _ => Err(runtime("Unexpected extended comparison")),
    }
}

/// The shape of a temporal operand: whether it is an instant, and its start
/// and end (an instant's end is unbounded). `None` for a value that is
/// neither an instant nor an interval.
pub open spec fn temporal_parts(q: Q) -> Option<(bool, Bound, Bound)> {
    match q {
        Q::Instant(b) => Some((true, b, Bound::Unbounded)),
        Q::Interval(a, b) => Some((false, a, b)),
        _ => None,
    }
}

/// Ensure the arguments are temporal operands: return flags telling whether
/// they are instants or intervals, and their start and end bounds.
pub fn unfold_queryables(a: &Q, b: &Q) -> (r: Result<(bool, bool, Bound, Bound, Bound, Bound), MyError>)
    ensures
        r is Ok <==> (temporal_parts(*a) is Some && temporal_parts(*b) is Some),
        r matches Ok(t) ==> {
            let (ia, a0, a1) = temporal_parts(*a).unwrap();
            let (ib, b0, b1) = temporal_parts(*b).unwrap();
            t == (ia, ib, a0, a1, b0, b1)
        },
        r matches Err(e) ==> e is Runtime,
{
    let a_is_instant = a.is_instant();
    let b_is_instant = b.is_instant();
    let (a0, a1) = if a_is_instant {
        (a.to_bound()?, Bound::Unbounded)
    } else {
        a.to_interval()?
    };
    let (b0, b1) = if b_is_instant {
        (b.to_bound()?, Bound::Unbounded)
    } else {
        b.to_interval()?
    };
    Ok((a_is_instant, b_is_instant, a0, a1, b0, b1))
}

/// The temporal relations that apply to instants as well as intervals,
/// given the shapes of both operands. `T_AFTER`: the start of the first
/// comes after the end of the second; `T_BEFORE`: the end of the first
/// comes before the start of the second; `T_DISJOINT`: either of these;
/// `T_EQUALS`: starts and ends coincide; `T_INTERSECTS`: not disjoint. An
/// instant's start and end are the instant itself.
pub open spec fn temporal_fn_spec(
    op: Op,
    i1: bool,
    i2: bool,
    b0: Bound,
    b1: Bound,
    b2: Bound,
    b3: Bound,
) -> Option<bool> {
    let e1 = if i1 { b0 } else { b1 };
    let e2 = if i2 { b2 } else { b3 };
    match op {
        Op::TAfter => Some(e2.before(b0)),
        Op::TBefore => Some(e1.before(b2)),
        Op::TDisjoint => if i1 && i2 {
            Some(!b0.same(b2))
        } else {
            Some(e1.before(b2) || e2.before(b0))
        },
        Op::TEquals => Some(b0.same(b2) && e1.same(e2)),
        Op::TIntersects => if i1 && i2 {
            Some(b0.same(b2))
        } else {
            Some(!(e1.before(b2) || e2.before(b0)))
        },
        _ => None,
    }
}

/// Evaluate a temporal relation applicable to instants or intervals on two
/// temporal operands.
pub fn eval_temporal_fn(op: &Op, t1: &Q, t2: &Q) -> (r: Result<bool, MyError>)
    ensures
        r is Ok <==> (temporal_parts(*t1) is Some && temporal_parts(*t2) is Some
            && op.is_instant_or_interval()),
        r matches Ok(b) ==> {
            let (i1, b0, b1) = temporal_parts(*t1).unwrap();
            let (i2, b2, b3) = temporal_parts(*t2).unwrap();
            Some(b) == temporal_fn_spec(*op, i1, i2, b0, b1, b2, b3)
        },
        r matches Err(e) ==> e is Runtime,
{
    let (t1_is_instant, t2_is_instant, b0, b1, b2, b3) = unfold_queryables(t1, t2)?;
    match op {
        Op::TAfter => match (t1_is_instant, t2_is_instant) {
            (true, true) => Ok(b0.gt(&b2)),
            (true, false) => Ok(b0.gt(&b3)),
            (false, true) => Ok(b0.gt(&b2)),
            (false, false) => Ok(b0.gt(&b3)),
        },
        Op::TBefore => match (t1_is_instant, t2_is_instant) {
            (true, true) => Ok(b0.lt(&b2)),
            (true, false) => Ok(b0.lt(&b2)),
            (false, true) => Ok(b1.lt(&b2)),
            (false, false) => Ok(b1.lt(&b2)),
        },
        Op::TDisjoint => match (t1_is_instant, t2_is_instant) {
            (true, true) => Ok(!b0.eq(&b2)),
            (true, false) => Ok(b0.lt(&b2) || b0.gt(&b3)),
            (false, true) => Ok(b1.lt(&b2) || b0.gt(&b2)),
            (false, false) => Ok(b1.lt(&b2) || b0.gt(&b3)),
        },
        Op::TEquals => match (t1_is_instant, t2_is_instant) {
            (true, true) => Ok(b0.eq(&b2)),
            (true, false) => Ok(b0.eq(&b2) && b0.eq(&b3)),
            (false, true) => Ok(b0.eq(&b2) && b1.eq(&b2)),
            (false, false) => Ok(b0.eq(&b2) && b1.eq(&b3)),
        },
        Op::TIntersects => match (t1_is_instant, t2_is_instant) {
            (true, true) => Ok(b0.eq(&b2)),
            (true, false) => Ok(!(b0.lt(&b2) || b0.gt(&b3))),
            (false, true) => Ok(!(b1.lt(&b2) || b0.gt(&b2))),
            (false, false) => Ok(!(b1.lt(&b2) || b0.gt(&b3))),
        },
        _ => Err(runtime("Unexpected temporal operator")),
    }
}

/// The temporal relations between two proper intervals `(s1, e1)` and
/// `(s2, e2)`, as Allen's interval algebra names them.
pub open spec fn interval_relation(op: Op, s1: Bound, e1: Bound, s2: Bound, e2: Bound) -> Option<bool> {
    match op {
        Op::TContains => Some(s1.before(s2) && e2.before(e1)),
        Op::TDuring => Some(s2.before(s1) && e1.before(e2)),
        Op::TFinishedBy => Some(s1.before(s2) && e1.same(e2)),
        Op::TFinishes => Some(s2.before(s1) && e1.same(e2)),
        Op::TMeets => Some(e1.same(s2)),
        Op::TMetBy => Some(s1.same(e2)),
        Op::TOverlappedBy => Some(s2.before(s1) && s1.before(e2) && e2.before(e1)),
        Op::TOverlaps => Some(s1.before(s2) && s2.before(e1) && e1.before(e2)),
        Op::TStartedBy => Some(s1.same(s2) && e2.before(e1)),
        Op::TStarts => Some(s1.same(s2) && e1.before(e2)),
        _ => None,
    }
}

/// What a temporal operator yields on evaluated operands: `Null` when
/// either is `Null`; the relation otherwise, `None` (an error) when an
/// operand has the wrong shape.
pub open spec fn temporal_spec(op: Op, zx: Q, zy: Q) -> Option<Q> {
    if zx is Null || zy is Null {
        Some(Q::Null)
    } else if op.is_instant_or_interval() {
        match (temporal_parts(zx), temporal_parts(zy)) {
            (Some((i1, b0, b1)), Some((i2, b2, b3))) => match temporal_fn_spec(op, i1, i2, b0, b1, b2, b3) {
                Some(b) => Some(Q::Bool(b)),
                None => None,
            },
            _ => None,
        }
    } else {
        match (zx, zy) {
            (Q::Interval(s1, e1), Q::Interval(s2, e2)) => match interval_relation(op, s1, e1, s2, e2) {
                Some(b) => Some(Q::Bool(b)),
                None => None,
            },
            _ => None,
        }
    }
}

/// Evaluate a temporal operator on evaluated operands.
pub fn eval_temporal(op: &Op, zx: &Q, zy: &Q) -> (r: Result<Q, MyError>)
    requires
        op.is_temporal(),
    ensures
        r is Ok <==> temporal_spec(*op, *zx, *zy) is Some,
        r matches Ok(q) ==> Some(q) == temporal_spec(*op, *zx, *zy),
        r matches Err(e) ==> e is Runtime,
{
    if zx.is_null() || zy.is_null() {
        Ok(Q::Null)
    } else if op.instant_or_interval() {
        let it = eval_temporal_fn(op, zx, zy)?;
        Ok(Q::Bool(it))
    } else {
        let t1 = zx.to_interval()?;
        let t2 = zy.to_interval()?;
        match op {
            Op::TContains => Ok(Q::Bool(t1.0.lt(&t2.0) && t1.1.gt(&t2.1))),
            Op::TDuring => Ok(Q::Bool(t1.0.gt(&t2.0) && t1.1.lt(&t2.1))),
            Op::TFinishedBy => Ok(Q::Bool(t1.0.lt(&t2.0) && t1.1.eq(&t2.1))),
            Op::TFinishes => Ok(Q::Bool(t1.0.gt(&t2.0) && t1.1.eq(&t2.1))),
            Op::TMeets => Ok(Q::Bool(t1.1.eq(&t2.0))),
            Op::TMetBy => Ok(Q::Bool(t1.0.eq(&t2.1))),
            Op::TOverlappedBy => Ok(Q::Bool(t1.0.gt(&t2.0) && t1.0.lt(&t2.1) && t1.1.gt(&t2.1))),
            Op::TOverlaps => Ok(Q::Bool(t1.0.lt(&t2.0) && t1.1.gt(&t2.0) && t1.1.lt(&t2.1))),
            Op::TStartedBy => Ok(Q::Bool(t1.0.eq(&t2.0) && t1.1.gt(&t2.1))),
            Op::TStarts => Ok(Q::Bool(t1.0.eq(&t2.0) && t1.1.lt(&t2.1))),
            _ => Err(runtime("Unexpected interval operator")),
        }
    }
}

/// Two temporal operands are disjoint exactly when they do not intersect.
pub proof fn lemma_disjoint_iff_not_intersects(
    i1: bool,
    i2: bool,
    b0: Bound,
    b1: Bound,
    b2: Bound,
    b3: Bound,
)
    ensures
        temporal_fn_spec(Op::TDisjoint, i1, i2, b0, b1, b2, b3) == kleene_not(
            temporal_fn_spec(Op::TIntersects, i1, i2, b0, b1, b2, b3),
        ),
{
}

/// `a T_AFTER b` holds exactly when `b T_BEFORE a` does; `T_EQUALS` and
/// `T_INTERSECTS` (hence `T_DISJOINT`) do not depend on the order of their
/// operands.
pub proof fn lemma_temporal_converse(
    i1: bool,
    i2: bool,
    b0: Bound,
    b1: Bound,
    b2: Bound,
    b3: Bound,
)
    ensures
        temporal_fn_spec(Op::TAfter, i1, i2, b0, b1, b2, b3) == temporal_fn_spec(
            Op::TBefore,
            i2,
            i1,
            b2,
            b3,
            b0,
            b1,
        ),
        temporal_fn_spec(Op::TEquals, i1, i2, b0, b1, b2, b3) == temporal_fn_spec(
            Op::TEquals,
            i2,
            i1,
            b2,
            b3,
            b0,
            b1,
        ),
        temporal_fn_spec(Op::TIntersects, i1, i2, b0, b1, b2, b3) == temporal_fn_spec(
            Op::TIntersects,
            i2,
            i1,
            b2,
            b3,
            b0,
            b1,
        ),
        temporal_fn_spec(Op::TDisjoint, i1, i2, b0, b1, b2, b3) == temporal_fn_spec(
            Op::TDisjoint,
            i2,
            i1,
            b2,
            b3,
            b0,
            b1,
        ),
{
}

/// The interval relations come in converse pairs: swapping the operands
/// turns `T_CONTAINS` into `T_DURING`, `T_FINISHEDBY` into `T_FINISHES`,
/// `T_MEETS` into `T_METBY`, `T_OVERLAPS` into `T_OVERLAPPEDBY` and
/// `T_STARTEDBY` into `T_STARTS`.
pub proof fn lemma_interval_converse(s1: Bound, e1: Bound, s2: Bound, e2: Bound)
    ensures
        interval_relation(Op::TContains, s1, e1, s2, e2) == interval_relation(Op::TDuring, s2, e2, s1, e1),
        interval_relation(Op::TFinishedBy, s1, e1, s2, e2) == interval_relation(Op::TFinishes, s2, e2, s1, e1),
        interval_relation(Op::TMeets, s1, e1, s2, e2) == interval_relation(Op::TMetBy, s2, e2, s1, e1),
        interval_relation(Op::TOverlaps, s1, e1, s2, e2) == interval_relation(Op::TOverlappedBy, s2, e2, s1, e1),
        interval_relation(Op::TStartedBy, s1, e1, s2, e2) == interval_relation(Op::TStarts, s2, e2, s1, e1),
{
}

/// What an array operator yields on two evaluated lists: `A_EQUALS`, the
/// lists are equal element by element; `A_CONTAINS`, every member of the
/// second equals some member of the first; `A_CONTAINEDBY`, the other way
/// round; `A_OVERLAPS`, the lists hold equal members at some same position.
/// `None` (an error) when an operand is not a list.
pub open spec fn array_spec(op: Op, zx: Q, zy: Q) -> Option<bool> {
    match (zx, zy) {
        (Q::List(a), Q::List(b)) => match op {
            Op::AEquals => Some(list_same(a@, b@)),
            Op::AContains => Some(holds_every(a@, b@)),
            Op::AContainedBy => Some(holds_every(b@, a@)),
            Op::AOverlaps => Some(overlap(a@, b@)),
            _ => None,
        },
        _ => None,
    }
}

/// Whether `x` holds a member equal to `p`, the way `Vec::contains` asks
/// (a member `m` with `m == p`).
pub open spec fn held(x: Seq<Q>, p: Q) -> bool {
    exists|k: int| 0 <= k < x.len() && #[trigger] q_same(x[k], p)
}

/// Whether two lists hold equal members at some same position.
pub open spec fn overlap(a: Seq<Q>, b: Seq<Q>) -> bool {
    exists|k: int| 0 <= k < a.len() && k < b.len() && #[trigger] q_same(a[k], b[k])
}

/// Whether every member of `y` is held by `x`.
pub open spec fn holds_every(x: Seq<Q>, y: Seq<Q>) -> bool {
    forall|j: int| 0 <= j < y.len() ==> held(x, #[trigger] y[j])
}

/// Whether `x` holds a member equal to `p`, the way `Vec::contains` asks.
fn holds(x: &Vec<Q>, p: &Q) -> (r: bool)
    ensures
        r == held(x@, *p),
{
    let mut k: usize = 0;
    while k < x.len()
        invariant
            k <= x.len(),
            forall|j: int| 0 <= j < k ==> !#[trigger] q_same(x@[j], *p),
        decreases x.len() - k,
    {
        if x[k].eq(p) {
            return true;
        }
        k = k + 1;
    }
    false
}

/// Whether every member of `y` is held by `x`.
fn holds_all(x: &Vec<Q>, y: &Vec<Q>) -> (r: bool)
    ensures
        r == holds_every(x@, y@),
{
    let mut j: usize = 0;
    while j < y.len()
        invariant
            j <= y.len(),
            forall|i: int| 0 <= i < j ==> held(x@, #[trigger] y@[i]),
        decreases y.len() - j,
    {
        if !holds(x, &y[j]) {
            return false;
        }
        j = j + 1;
    }
    true
}

/// Whether two lists are equal element by element.
fn lists_equal(a: &Vec<Q>, b: &Vec<Q>) -> (r: bool)
    ensures
        r == list_same(a@, b@),
{
    if a.len() != b.len() {
        return false;
    }
    let mut i: usize = 0;
    proof {
        lemma_suffix_start(a@);
        lemma_suffix_start(b@);
    }
    while i < a.len()
        invariant
            i <= a.len(),
            a.len() == b.len(),
            list_same(a@, b@) == list_same(suffix(a@, i), suffix(b@, i)),
        decreases a.len() - i,
    {
        proof {
            lemma_suffix_step(a@, i);
            lemma_suffix_step(b@, i);
        }
        if !a[i].eq(&b[i]) {
            return false;
        }
        i = i + 1;
    }
    proof {
        assert(suffix(a@, i).len() == 0);
    }
    true
}

/// Evaluate an array operator on two evaluated operands.
pub fn eval_array(op: &Op, zx: &Q, zy: &Q) -> (r: Result<Q, MyError>)
    requires
        op.is_array(),
    ensures
        r is Ok <==> array_spec(*op, *zx, *zy) is Some,
        r matches Ok(q) ==> Some(q) == (match array_spec(*op, *zx, *zy) {
            Some(b) => Some(Q::Bool(b)),
            None => None,
        }),
        r matches Err(e) ==> e is Runtime,
{
    let a = zx.to_list()?;
    let b = zy.to_list()?;
    match op {
        Op::AEquals => Ok(Q::Bool(lists_equal(a, b))),
        Op::AContains => Ok(Q::Bool(holds_all(a, b))),
        Op::AContainedBy => Ok(Q::Bool(holds_all(b, a))),
        Op::AOverlaps => {
            let mut k: usize = 0;
            while k < a.len() && k < b.len()
                invariant
                    k <= a.len(),
                    k <= b.len(),
                    *zx == Q::List(*a),
                    *zy == Q::List(*b),
                    *op is AOverlaps,
                    forall|j: int| 0 <= j < k ==> !#[trigger] q_same(a@[j], b@[j]),
                decreases a.len() - k,
            {
                if a[k].eq(&b[k]) {
                    assert(q_same(a@[k as int], b@[k as int]));
                    assert(overlap(a@, b@));
                    return Ok(Q::Bool(true));
                }
                k = k + 1;
            }
            Ok(Q::Bool(false))
        },
        _ => Err(runtime("Unexpected array operator")),
    }
}

/// The bound a queryable stands for when it limits an interval: the string
/// `'..'` (quotes included) is the unbounded value, an instant is itself;
/// anything else is not a bound.
pub open spec fn bound_of(q: Q) -> Option<Bound> {
    match q {
        Q::Str(s) => if s.text() == "'..'"@ {
            Some(Bound::Unbounded)
        } else {
            None
        },
        Q::Instant(b) => Some(b),
        _ => None,
    }
}

/// Whether a string is the text `'..'`.
fn is_open_text(s: &str) -> (r: bool)
    ensures
        r == (s@ == "'..'"@),
{
    let a = s.to_string();
    let b = "'..'".to_string();
    a == b
}

impl Bound {
    /// Try converting a queryable into an interval limit.
    pub fn try_from_q(value: &Q) -> (r: Result<Bound, MyError>)
        ensures
            r is Ok <==> bound_of(*value) is Some,
            r matches Ok(b) ==> Some(b) == bound_of(*value),
            r matches Err(e) ==> e is Runtime,
    {
        match value {
            Q::Str(x) => {
                if is_open_text(x.as_str()) {
                    Ok(Bound::Unbounded)
                } else {
                    Err(runtime("Only '..' string is allowed for interval bounds"))
                }
            },
            Q::Instant(x) => Ok(x.clone()),
            _ => Err(runtime("Expected a zoned timestamp | '..'")),
        }
    }
}

/// Evaluate an interval expression from its two evaluated limits: `Null`
/// when either limit is not a bound.
pub fn eval_interval(xx: &Q, yy: &Q) -> (r: Q)
    ensures
        r == (match (bound_of(*xx), bound_of(*yy)) {
            (Some(a), Some(b)) => Q::Interval(a, b),
            _ => Q::Null,
        }),
{
    let a = Bound::try_from_q(xx);
    let b = Bound::try_from_q(yy);
    match a {
        Ok(x) => match b {
            Ok(y) => Q::Interval(x, y),
            Err(_) => Q::Null,
        },
        Err(_) => Q::Null,
    }
}

} // verus!
