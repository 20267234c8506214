use ogc_cql2::bound::Bound;
use ogc_cql2::eval::{
    eval_and, eval_array, eval_comparison, eval_interval, eval_monadic, eval_or, eval_temporal,
    eval_temporal_fn, eval_xtd_comparison,
};
use ogc_cql2::op::Op;
use ogc_cql2::qstring::QString;
use ogc_cql2::queryable::{Num, Q};

fn t() -> Q {
    Q::Bool(true)
}
fn f() -> Q {
    Q::Bool(false)
}
fn n(key: u64) -> Q {
    Q::Num(Num { nan: false, key })
}
fn is_bool(q: &Q, b: bool) -> bool {
    matches!(q, Q::Bool(x) if *x == b)
}

#[test]
fn and_or_truth_table() {
    // (P1, P2, P1 AND P2, P1 OR P2), N standing for Null.
    let table: [(Q, Q, Option<bool>, Option<bool>); 9] = [
        (t(), t(), Some(true), Some(true)),
        (t(), f(), Some(false), Some(true)),
        (f(), t(), Some(false), Some(true)),
        (f(), f(), Some(false), Some(false)),
        (t(), Q::Null, None, Some(true)),
        (f(), Q::Null, Some(false), None),
        (Q::Null, t(), None, Some(true)),
        (Q::Null, f(), Some(false), None),
        (Q::Null, Q::Null, None, None),
    ];
    for (a, b, and, or) in table.iter() {
        let r = eval_and(a, b).unwrap();
        match and {
            Some(x) => assert!(is_bool(&r, *x)),
            None => assert!(r.is_null()),
        }
        let r = eval_or(a, b).unwrap();
        match or {
            Some(x) => assert!(is_bool(&r, *x)),
            None => assert!(r.is_null()),
        }
    }
    assert!(eval_and(&n(1), &t()).is_err());
    assert!(eval_or(&t(), &n(1)).is_err());
}

#[test]
fn monadic_operators() {
    assert!(is_bool(&eval_monadic(&Op::Neg, t()).unwrap(), false));
    assert!(eval_monadic(&Op::Neg, Q::Null).unwrap().is_null());
    assert!(eval_monadic(&Op::Neg, n(3)).is_err());
    assert!(is_bool(&eval_monadic(&Op::IsNull, Q::Null).unwrap(), true));
    assert!(is_bool(&eval_monadic(&Op::IsNotNull, n(3)).unwrap(), true));
    match eval_monadic(&Op::CaseI, Q::Str(QString::plain("Abc"))).unwrap() {
        Q::Str(s) => assert!(s.is_icase() && !s.is_iaccent() && s.as_str() == "Abc"),
        _ => panic!("not a string"),
    }
    assert!(eval_monadic(&Op::AccentI, n(1)).is_err());
}

#[test]
fn comparisons() {
    assert!(is_bool(&eval_comparison(&Op::Lt, &n(1), &n(2)).unwrap(), true));
    assert!(is_bool(&eval_comparison(&Op::Gte, &n(1), &n(2)).unwrap(), false));
    assert!(is_bool(&eval_comparison(&Op::Eq, &n(2), &n(2)).unwrap(), true));
    let nan = Q::Num(Num { nan: true, key: 0 });
    assert!(is_bool(&eval_comparison(&Op::Eq, &nan, &nan).unwrap(), false));
    assert!(eval_comparison(&Op::Eq, &Q::Null, &n(2)).unwrap().is_null());
    assert!(eval_comparison(&Op::Eq, &t(), &n(2)).is_err());
    let a = Q::Str(QString::icase("HELLO"));
    let b = Q::Str(QString::plain("hello"));
    assert!(is_bool(&eval_comparison(&Op::Eq, &a, &b).unwrap(), true));
    assert!(is_bool(&eval_comparison(&Op::Neq, &a, &b).unwrap(), false));
}

#[test]
fn extended_comparisons() {
    let list = Q::List(vec![n(1), n(5)]);
    assert!(is_bool(&eval_xtd_comparison(&Op::IsBetween, &n(3), &list).unwrap(), true));
    let reversed = Q::List(vec![n(5), n(1)]);
    assert!(is_bool(&eval_xtd_comparison(&Op::IsBetween, &n(3), &reversed).unwrap(), true));
    assert!(is_bool(&eval_xtd_comparison(&Op::IsNotBetween, &n(9), &list).unwrap(), true));
    assert!(is_bool(&eval_xtd_comparison(&Op::IsInList, &n(5), &list).unwrap(), true));
    assert!(is_bool(&eval_xtd_comparison(&Op::IsNotInList, &n(2), &list).unwrap(), true));
    assert!(eval_xtd_comparison(&Op::IsInList, &t(), &list).is_err());
    let s = Q::Str(QString::plain("hello"));
    let p = Q::Str(QString::plain("h%o"));
    assert!(is_bool(&eval_xtd_comparison(&Op::IsLike, &s, &p).unwrap(), true));
    assert!(is_bool(&eval_xtd_comparison(&Op::IsNotLike, &s, &p).unwrap(), false));
    assert!(eval_xtd_comparison(&Op::IsLike, &Q::Null, &p).unwrap().is_null());
}

fn day(d: i128) -> Bound {
    Bound::Date(d * 86_400_000_000_000)
}

#[test]
fn temporal_predicates() {
    let i1 = Q::Interval(day(1), day(5));
    let i2 = Q::Interval(day(2), day(3));
    let i3 = Q::Interval(day(5), day(9));
    assert!(is_bool(&eval_temporal(&Op::TContains, &i1, &i2).unwrap(), true));
    assert!(is_bool(&eval_temporal(&Op::TDuring, &i2, &i1).unwrap(), true));
    assert!(is_bool(&eval_temporal(&Op::TMeets, &i1, &i3).unwrap(), true));
    assert!(is_bool(&eval_temporal(&Op::TMetBy, &i3, &i1).unwrap(), true));
    assert!(is_bool(&eval_temporal(&Op::TOverlaps, &i1, &i3).unwrap(), false));
    let a = Q::Instant(day(7));
    assert!(eval_temporal_fn(&Op::TAfter, &a, &i1).unwrap());
    assert!(!eval_temporal_fn(&Op::TBefore, &a, &i1).unwrap());
    assert!(eval_temporal_fn(&Op::TIntersects, &a, &i3).unwrap());
    assert!(eval_temporal_fn(&Op::TDisjoint, &a, &i1).unwrap());
    assert!(eval_temporal(&Op::TAfter, &Q::Null, &i1).unwrap().is_null());
}

#[test]
fn array_predicates() {
    let a = Q::List(vec![n(1), n(2), n(3)]);
    let b = Q::List(vec![n(2), n(3)]);
    let c = Q::List(vec![n(7)]);
    assert!(is_bool(&eval_array(&Op::AContains, &a, &b).unwrap(), true));
    assert!(is_bool(&eval_array(&Op::AContainedBy, &b, &a).unwrap(), true));
    assert!(is_bool(&eval_array(&Op::AOverlaps, &a, &c).unwrap(), false));
    assert!(is_bool(&eval_array(&Op::AEquals, &a, &a).unwrap(), true));
    assert!(is_bool(&eval_array(&Op::AEquals, &a, &b).unwrap(), false));
}

#[test]
fn intervals() {
    match eval_interval(&Q::Instant(day(1)), &Q::Instant(Bound::Unbounded)) {
        Q::Interval(a, b) => assert!(a.eq(&day(1)) && b.is_unbound()),
        _ => panic!("not an interval"),
    }
}
