//! Laws of the operators on values, stated by what they mean: ranges of
//! numbers, membership in lists, and the relations between intervals on
//! the time line.

use crate::bound::Bound;
use crate::eval::{array_spec, interval_relation, temporal_fn_spec, xtd_spec};
use crate::op::Op;
use crate::queryable::{q_same, Num, Q};
use vstd::prelude::*;

verus! {

/// Whether a value is a single value that equals itself: not a list, and
/// not a number that is NaN.
pub open spec fn plain_value(q: Q) -> bool {
    !(q is List) && !(q matches Q::Num(n) && n.nan)
}

/// A plain value equals itself.
pub proof fn lemma_q_same_reflexive(q: Q)
    requires
        plain_value(q),
    ensures
        q_same(q, q),
{
    if let Q::Str(s) = q {
        crate::qstring::lemma_equals_reflexive(s);
    }
}

/// `a [NOT] BETWEEN lo AND hi` on numbers: TRUE exactly when `a` lies in
/// the closed range from the smaller bound to the larger one (numbers are
/// ordered by their keys); `NOT BETWEEN` is the opposite.
pub proof fn lemma_between_range(a: Num, lo: Num, hi: Num, v: Vec<Q>)
    requires
        !a.nan && !lo.nan && !hi.nan,
        v@ == seq![Q::Num(lo), Q::Num(hi)],
    ensures
        xtd_spec(Op::IsBetween, Q::Num(a), Q::List(v)) == Some(
            Q::Bool(
                (lo.key <= a.key && a.key <= hi.key) || (hi.key <= a.key && a.key <= lo.key),
            ),
        ),
        xtd_spec(Op::IsNotBetween, Q::Num(a), Q::List(v)) == Some(
            Q::Bool(
                !((lo.key <= a.key && a.key <= hi.key) || (hi.key <= a.key && a.key <= lo.key)),
            ),
        ),
        lo.key <= hi.key ==> (xtd_spec(Op::IsBetween, Q::Num(a), Q::List(v)) == Some(
            Q::Bool(lo.key <= a.key && a.key <= hi.key),
        )),
{
    assert(v@[0] == Q::Num(lo));
    assert(v@[1] == Q::Num(hi));
}

/// A list holds each of its plain members: `A_CONTAINS(x, [x[k]])` and
/// `A_CONTAINEDBY([x[k]], x)` are TRUE.
pub proof fn lemma_list_holds_its_members(x: Vec<Q>, w: Vec<Q>, k: int)
    requires
        0 <= k < x.len(),
        plain_value(x@[k]),
        w@ == seq![x@[k]],
    ensures
        array_spec(Op::AContains, Q::List(x), Q::List(w)) == Some(true),
        array_spec(Op::AContainedBy, Q::List(w), Q::List(x)) == Some(true),
{
    lemma_q_same_reflexive(x@[k]);
    assert(w@[0] == x@[k]);
    assert(crate::eval::held(x@, w@[0]));
}

/// A list of numbers holds no number whose key differs from those of all
/// its members: `A_CONTAINS(x, [p])` is FALSE.
pub proof fn lemma_list_lacks_others(x: Vec<Q>, w: Vec<Q>, p: Num)
    requires
        forall|k: int| 0 <= k < x.len() ==> (#[trigger] x@[k] matches Q::Num(n) && n.key != p.key),
        w@ == seq![Q::Num(p)],
    ensures
        array_spec(Op::AContains, Q::List(x), Q::List(w)) == Some(false),
{
    assert(w@[0] == Q::Num(p));
    if crate::eval::held(x@, w@[0]) {
        let k = choose|k: int| 0 <= k < x.len() && #[trigger] q_same(x@[k], w@[0]);
        assert(x@[k] matches Q::Num(n) && n.key != p.key);
    }
}

/// `A_CONTAINS` and `A_CONTAINEDBY` are converse: `A_CONTAINS(a, b)` is
/// `A_CONTAINEDBY(b, a)`.
pub proof fn lemma_contains_converse(a: Q, b: Q)
    ensures
        array_spec(Op::AContains, a, b) == array_spec(Op::AContainedBy, b, a),
{
}

/// A literal (not `NULL`, which makes `IN` itself `NULL`) is `IN` every
/// well-typed list that holds it, at any position; then `NOT IN` is FALSE.
pub proof fn lemma_in_list_member(x: Q, v: Vec<Q>, k: int)
    requires
        0 <= k < v.len(),
        v@[k] == x,
        plain_value(x),
        !(x is Null),
        xtd_spec(Op::IsInList, x, Q::List(v)) is Some,
    ensures
        xtd_spec(Op::IsInList, x, Q::List(v)) == Some(Q::Bool(true)),
        xtd_spec(Op::IsNotInList, x, Q::List(v)) == Some(Q::Bool(false)),
{
    lemma_q_same_reflexive(x);
    assert(crate::queryable::member_eq(x, v@[k]));
    assert(crate::queryable::some_member_eq(x, v@));
}

/// A number is not `IN` a list of numbers whose keys all differ from its
/// own; then `NOT IN` is TRUE.
pub proof fn lemma_in_list_absent(a: Num, v: Vec<Q>)
    requires
        forall|k: int| 0 <= k < v.len() ==> (#[trigger] v@[k] matches Q::Num(n) && n.key != a.key),
    ensures
        xtd_spec(Op::IsInList, Q::Num(a), Q::List(v)) == Some(Q::Bool(false)),
        xtd_spec(Op::IsNotInList, Q::Num(a), Q::List(v)) == Some(Q::Bool(true)),
{
    assert forall|k: int| 0 <= k < v.len() implies #[trigger] crate::queryable::same_kind(
        Q::Num(a),
        v@[k],
    ) by {
        assert(v@[k] matches Q::Num(_));
    }
    assert forall|k: int| 0 <= k < v.len() implies crate::queryable::member_ok(
        Q::Num(a),
        #[trigger] v@[k],
    ) by {
        assert(v@[k] matches Q::Num(_));
    }
    if crate::queryable::some_member_eq(Q::Num(a), v@) {
        let k = choose|k: int|
            0 <= k < v.len() && crate::queryable::member_eq(Q::Num(a), #[trigger] v@[k]);
        assert(v@[k] matches Q::Num(n) && n.key != a.key);
    }
}

/// Whether a relation between two intervals holds.
pub open spec fn rel_holds(op: Op, s1: i128, e1: i128, s2: i128, e2: i128) -> bool {
    let (b0, b1, b2, b3) = (
        Bound::Timestamp(s1),
        Bound::Timestamp(e1),
        Bound::Timestamp(s2),
        Bound::Timestamp(e2),
    );
    if op is TBefore || op is TAfter || op is TEquals {
        temporal_fn_spec(op, false, false, b0, b1, b2, b3) == Some(true)
    } else {
        interval_relation(op, b0, b1, b2, b3) == Some(true)
    }
}

/// How many of the thirteen relations between intervals hold.
pub open spec fn relations_holding(s1: i128, e1: i128, s2: i128, e2: i128) -> int {
    let ops = seq![
        Op::TBefore,
        Op::TAfter,
        Op::TMeets,
        Op::TMetBy,
        Op::TOverlaps,
        Op::TOverlappedBy,
        Op::TStarts,
        Op::TStartedBy,
        Op::TDuring,
        Op::TContains,
        Op::TFinishes,
        Op::TFinishedBy,
        Op::TEquals,
    ];
    (if rel_holds(ops[0], s1, e1, s2, e2) { 1int } else { 0int })
        + (if rel_holds(ops[1], s1, e1, s2, e2) { 1int } else { 0int })
        + (if rel_holds(ops[2], s1, e1, s2, e2) { 1int } else { 0int })
        + (if rel_holds(ops[3], s1, e1, s2, e2) { 1int } else { 0int })
        + (if rel_holds(ops[4], s1, e1, s2, e2) { 1int } else { 0int })
        + (if rel_holds(ops[5], s1, e1, s2, e2) { 1int } else { 0int })
        + (if rel_holds(ops[6], s1, e1, s2, e2) { 1int } else { 0int })
        + (if rel_holds(ops[7], s1, e1, s2, e2) { 1int } else { 0int })
        + (if rel_holds(ops[8], s1, e1, s2, e2) { 1int } else { 0int })
        + (if rel_holds(ops[9], s1, e1, s2, e2) { 1int } else { 0int })
        + (if rel_holds(ops[10], s1, e1, s2, e2) { 1int } else { 0int })
        + (if rel_holds(ops[11], s1, e1, s2, e2) { 1int } else { 0int })
        + (if rel_holds(ops[12], s1, e1, s2, e2) { 1int } else { 0int })
}

/// Two proper intervals (each starting before it ends) stand in exactly
/// one of the thirteen relations `T_BEFORE`, `T_AFTER`, `T_MEETS`,
/// `T_METBY`, `T_OVERLAPS`, `T_OVERLAPPEDBY`, `T_STARTS`, `T_STARTEDBY`,
/// `T_DURING`, `T_CONTAINS`, `T_FINISHES`, `T_FINISHEDBY` and `T_EQUALS`.
pub proof fn lemma_interval_relations_partition(s1: i128, e1: i128, s2: i128, e2: i128)
    requires
        s1 < e1,
        s2 < e2,
    ensures
        relations_holding(s1, e1, s2, e2) == 1,
{
}

/// `T_OVERLAPS` on proper intervals: the first starts before the second,
/// which starts before the first ends, which is before the second ends.
pub proof fn lemma_overlaps_meaning(s1: i128, e1: i128, s2: i128, e2: i128)
    ensures
        rel_holds(Op::TOverlaps, s1, e1, s2, e2) == (s1 < s2 && s2 < e1 && e1 < e2),
        rel_holds(Op::TOverlappedBy, s1, e1, s2, e2) == (s2 < s1 && s1 < e2 && e2 < e1),
        rel_holds(Op::TDuring, s1, e1, s2, e2) == (s2 < s1 && e1 < e2),
        rel_holds(Op::TContains, s1, e1, s2, e2) == (s1 < s2 && e2 < e1),
{
}


/// The temporal predicates on instants compare the instants: `T_AFTER` is
/// later, `T_BEFORE` earlier, `T_EQUALS` and `T_INTERSECTS` the same
/// instant, `T_DISJOINT` another one.
pub proof fn lemma_instant_relations(t1: i128, t2: i128)
    ensures
        ({
            let (a, b) = (Bound::Timestamp(t1), Bound::Timestamp(t2));
            &&& temporal_fn_spec(Op::TAfter, true, true, a, a, b, b) == Some(t1 > t2)
            &&& temporal_fn_spec(Op::TBefore, true, true, a, a, b, b) == Some(t1 < t2)
            &&& temporal_fn_spec(Op::TEquals, true, true, a, a, b, b) == Some(t1 == t2)
            &&& temporal_fn_spec(Op::TIntersects, true, true, a, a, b, b) == Some(t1 == t2)
            &&& temporal_fn_spec(Op::TDisjoint, true, true, a, a, b, b) == Some(t1 != t2)
        }),
{
}

/// An instant and an interval: the instant intersects the interval exactly
/// when it lies between its start and its end (both included), is after
/// it when it comes after its end, and before it when it comes before its
/// start.
pub proof fn lemma_instant_and_interval(t: i128, s: i128, e: i128)
    ensures
        ({
            let (a, b0, b1) = (Bound::Timestamp(t), Bound::Timestamp(s), Bound::Timestamp(e));
            &&& temporal_fn_spec(Op::TIntersects, true, false, a, a, b0, b1) == Some(s <= t && t <= e)
            &&& temporal_fn_spec(Op::TAfter, true, false, a, a, b0, b1) == Some(e < t)
            &&& temporal_fn_spec(Op::TBefore, true, false, a, a, b0, b1) == Some(t < s)
        }),
{
}


/// A list of plain values is `A_EQUALS` to itself.
pub proof fn lemma_list_same_reflexive(x: Seq<Q>)
    requires
        forall|k: int| 0 <= k < x.len() ==> plain_value(#[trigger] x[k]),
    ensures
        crate::queryable::list_same(x, x),
    decreases x.len(),
{
    if x.len() > 0 {
        lemma_q_same_reflexive(x[0]);
        let t = x.subrange(1, x.len() as int);
        assert forall|k: int| 0 <= k < t.len() implies plain_value(#[trigger] t[k]) by {
            assert(t[k] == x[k + 1]);
        }
        lemma_list_same_reflexive(t);
    }
}

/// `A_EQUALS(x, x)` is TRUE of a list of plain values, and two lists of
/// different lengths are never `A_EQUALS`.
pub proof fn lemma_aequals_laws(x: Vec<Q>, y: Vec<Q>)
    ensures
        (forall|k: int| 0 <= k < x.len() ==> plain_value(#[trigger] x@[k])) ==> array_spec(
            Op::AEquals,
            Q::List(x),
            Q::List(x),
        ) == Some(true),
        x.len() != y.len() ==> array_spec(Op::AEquals, Q::List(x), Q::List(y)) == Some(false),
{
    if forall|k: int| 0 <= k < x.len() ==> plain_value(#[trigger] x@[k]) {
        lemma_list_same_reflexive(x@);
    }
}

/// A non-empty list whose first member is plain `A_OVERLAPS` itself; an
/// empty list overlaps nothing.
pub proof fn lemma_aoverlaps_laws(x: Vec<Q>, y: Vec<Q>)
    ensures
        x.len() > 0 && plain_value(x@[0]) ==> array_spec(Op::AOverlaps, Q::List(x), Q::List(x))
            == Some(true),
        x.len() == 0 ==> array_spec(Op::AOverlaps, Q::List(x), Q::List(y)) == Some(false),
{
    if x.len() > 0 && plain_value(x@[0]) {
        lemma_q_same_reflexive(x@[0]);
        assert(q_same(x@[0], x@[0]));
    }
}


/// The comparisons of two numbers compare them in the order of their keys.
pub proof fn lemma_number_comparisons(a: Num, b: Num)
    requires
        !a.nan && !b.nan,
    ensures
        crate::eval::comparison_spec(Op::Eq, Q::Num(a), Q::Num(b)) == Some(Q::Bool(a.key == b.key)),
        crate::eval::comparison_spec(Op::Neq, Q::Num(a), Q::Num(b)) == Some(Q::Bool(a.key != b.key)),
        crate::eval::comparison_spec(Op::Lt, Q::Num(a), Q::Num(b)) == Some(Q::Bool(a.key < b.key)),
        crate::eval::comparison_spec(Op::Gt, Q::Num(a), Q::Num(b)) == Some(Q::Bool(a.key > b.key)),
        crate::eval::comparison_spec(Op::Lte, Q::Num(a), Q::Num(b)) == Some(Q::Bool(a.key <= b.key)),
        crate::eval::comparison_spec(Op::Gte, Q::Num(a), Q::Num(b)) == Some(Q::Bool(a.key >= b.key)),
{
}

} // verus!
