use ogc_cql2::bound::Bound;
use ogc_cql2::error::MyError;
use ogc_cql2::evaluator::{Evaluator, ExEvaluator};
use ogc_cql2::Outcome;
use ogc_cql2::expr::{Host, E};
use ogc_cql2::function::{ExtDataType, FnArg, FnInfo, FnResult};
use ogc_cql2::op::Op;
use ogc_cql2::qstring::QString;
use ogc_cql2::queryable::{Geom, Num, Q};

/// The order-keeping key of a double precision number, and back.
fn num(x: f64) -> Num {
    if x.is_nan() {
        return Num { nan: true, key: 0 };
    }
    let x = if x == 0.0 { 0.0 } else { x };
    let bits = x.to_bits();
    let key = if bits >> 63 == 1 { !bits } else { bits | (1 << 63) };
    Num { nan: false, key }
}

fn float(n: &Num) -> f64 {
    if n.nan {
        f64::NAN
    } else if n.key >> 63 == 1 {
        f64::from_bits(n.key & !(1 << 63))
    } else {
        f64::from_bits(!n.key)
    }
}

struct TestHost;

impl Host for TestHost {
    // The spec functions of the trait: each gives what its method gives.
    fn prop(&self, name: String) -> Option<Q> {
        self.property(&name)
    }
    fn coords(&self, g: Geom) -> Result<(), MyError> {
        self.check_coordinates(&g)
    }
    fn neg(&self, a: Num) -> Num {
        self.negate(&a)
    }
    fn arith(&self, op: Op, a: Num, b: Num) -> Num {
        self.arithmetic(op, &a, &b)
    }
    fn relation(&self, op: Op, a: Geom, b: Geom) -> Result<bool, MyError> {
        self.spatial(op, &a, &b)
    }
    fn info(&self, name: String) -> Option<FnInfo> {
        self.fn_info(&name)
    }
    // A registered function may answer anything (it may read the clock).
    fn answers(&self, _name: String, _args: Vec<FnArg>, _a: Option<FnResult>) -> bool {
        true
    }

    fn property(&self, name: &String) -> Option<Q> {
        match name.as_str() {
            "depth" => Some(Q::Num(num(120.0))),
            "name" => Some(Q::Str(QString::plain("Chișinău"))),
            "eo:cloud_cover" => Some(Q::Num(num(0.15))),
            "landsat:wrs_row" => Some(Q::Num(num(28.0))),
            "starts_at" => Some(Q::Instant(Bound::Date(day(1)))),
            "ends_at" => Some(Q::Instant(Bound::Date(day(9)))),
            _ => None,
        }
    }

    fn check_coordinates(&self, g: &Geom) -> Result<(), MyError> {
        if g.key < 100 {
            Ok(())
        } else {
            Err(MyError::Runtime("Point x (longitude) coordinate is out-of-bounds".to_string()))
        }
    }

    fn negate(&self, a: &Num) -> Num {
        num(-float(a))
    }

    fn arithmetic(&self, op: Op, a: &Num, b: &Num) -> Num {
        let (m, n) = (float(a), float(b));
        num(match op {
            Op::Plus => m + n,
            Op::Minus => m - n,
            Op::Mult => m * n,
            Op::Div => m / n,
            Op::IntDiv => m.rem_euclid(n),
            Op::Mod => m % n,
            _ => m.powf(n).round(),
        })
    }

    fn spatial(&self, op: Op, a: &Geom, b: &Geom) -> Result<bool, MyError> {
        match op {
            Op::SEquals => Ok(a.key == b.key),
            Op::SDisjoint => Ok(a.key != b.key),
            _ => Err(MyError::Runtime("unsupported".to_string())),
        }
    }

    fn fn_info(&self, name: &String) -> Option<FnInfo> {
        match name.as_str() {
            "sum" => Some(FnInfo::new(vec![ExtDataType::Num, ExtDataType::Num], ExtDataType::Num)),
            "concat" => Some(FnInfo::new(vec![ExtDataType::Str, ExtDataType::Str], ExtDataType::Str)),
            "liar" => Some(FnInfo::new(vec![], ExtDataType::Bool)),
            _ => None,
        }
    }

    fn call(&self, name: &String, args: Vec<FnArg>) -> Option<FnResult> {
        match (name.as_str(), args.as_slice()) {
            ("sum", [FnArg::Num(a), FnArg::Num(b)]) => Some(FnResult::Num(num(float(a) + float(b)))),
            ("concat", [FnArg::Str(a), FnArg::Str(b)]) => {
                Some(FnResult::Str(format!("{}{}", a.as_str(), b.as_str())))
            }
            ("liar", []) => Some(FnResult::Num(num(1.0))),
            _ => None,
        }
    }
}

fn day(d: i128) -> i128 {
    d * 86_400_000_000_000
}
fn n(x: f64) -> E {
    E::Num(num(x))
}
fn id(s: &str) -> E {
    E::Id(s.to_string())
}
fn dy(op: Op, a: E, b: E) -> E {
    E::Dyadic(op, Box::new(a), Box::new(b))
}
fn mo(op: Op, a: E) -> E {
    E::Monadic(op, Box::new(a))
}
fn as_bool(r: Result<Q, MyError>) -> bool {
    match r {
        Ok(Q::Bool(b)) => b,
        x => panic!("not a boolean: {x:?}"),
    }
}
fn as_num(r: Result<Q, MyError>) -> f64 {
    match r {
        Ok(Q::Num(x)) => float(&x),
        x => panic!("not a number: {x:?}"),
    }
}

#[test]
fn eval_literals_and_properties() {
    let h = TestHost;
    assert!(E::Null.eval(&h).unwrap().is_null());
    assert_eq!(as_num(n(2.5).eval(&h)), 2.5);
    assert!(matches!(E::Unbounded.eval(&h), Ok(Q::Instant(Bound::Unbounded))));
    assert_eq!(as_num(id("depth").eval(&h)), 120.0);
    assert_eq!(as_num(id("\"depth\"").eval(&h)), 120.0);
    assert!(id("nothing").eval(&h).unwrap().is_null());
    assert!(matches!(E::Spatial(Geom { key: 7 }).eval(&h), Ok(Q::Geom(Geom { key: 7 }))));
    assert!(E::Spatial(Geom { key: 700 }).eval(&h).is_err());
}

#[test]
fn eval_landsat_filter() {
    // eo:cloud_cover BETWEEN 0.1 AND 0.2 AND landsat:wrs_row=28 AND landsat:wrs_path=203
    let h = TestHost;
    let between = || dy(Op::IsBetween, id("eo:cloud_cover"), E::Array(vec![n(0.1), n(0.2)]));
    let row = || dy(Op::Eq, id("landsat:wrs_row"), n(28.0));
    let path = dy(Op::Eq, id("landsat:wrs_path"), n(203.0));
    assert!(as_bool(dy(Op::And, between(), row()).eval(&h)));
    // the path is unset: NULL = 203 is NULL, and TRUE AND NULL is NULL.
    let all = dy(Op::And, dy(Op::And, between(), row()), path);
    assert!(all.eval(&h).unwrap().is_null());
}

#[test]
fn eval_operators() {
    let h = TestHost;
    assert_eq!(as_num(dy(Op::Plus, n(1.0), n(2.0)).eval(&h)), 3.0);
    assert_eq!(as_num(mo(Op::Minus, n(4.0)).eval(&h)), -4.0);
    assert!(dy(Op::Plus, n(1.0), E::Null).eval(&h).unwrap().is_null());
    assert!(dy(Op::Plus, n(1.0), E::Bool(true)).eval(&h).is_err());
    assert!(!as_bool(mo(Op::Neg, E::Bool(true)).eval(&h)));
    assert!(as_bool(mo(Op::IsNull, id("nothing")).eval(&h)));
    let like = dy(Op::IsLike, mo(Op::AccentI, id("name")), E::Str(QString::plain("Chis%")));
    assert!(as_bool(like.eval(&h)));
    assert!(as_bool(dy(Op::SEquals, E::Spatial(Geom { key: 3 }), E::Spatial(Geom { key: 3 })).eval(&h)));
    assert!(dy(Op::SWithin, E::Spatial(Geom { key: 3 }), E::Spatial(Geom { key: 3 })).eval(&h).is_err());
    assert!(dy(Op::Eq, n(1.0), E::Str(QString::plain("1"))).eval(&h).is_err());
    assert!(mo(Op::Plus, n(1.0)).eval(&h).is_err());
    assert!(dy(Op::Neg, n(1.0), n(1.0)).eval(&h).is_err());
}

#[test]
fn eval_temporal_and_arrays() {
    let h = TestHost;
    // T_DURING(INTERVAL(starts_at, ends_at), INTERVAL('2005-01-10', '2010-02-10')) in days.
    let i1 = E::Interval(Box::new(id("starts_at")), Box::new(id("ends_at")));
    let i2 = E::Interval(Box::new(E::Date(day(0))), Box::new(E::Date(day(10))));
    assert!(as_bool(dy(Op::TDuring, i1, i2).eval(&h)));
    let open = E::Interval(Box::new(E::Date(day(0))), Box::new(E::Str(QString::plain("'..'"))));
    match open.eval(&h) {
        Ok(Q::Interval(a, b)) => assert!(a.eq(&Bound::Date(0)) && b.is_unbound()),
        x => panic!("Unexpected {x:?}"),
    }
    let bad = E::Interval(Box::new(n(1.0)), Box::new(E::Date(day(1))));
    assert!(bad.eval(&h).unwrap().is_null());
    let a = E::Array(vec![n(1.0), n(2.0)]);
    let b = E::Array(vec![n(2.0)]);
    assert!(as_bool(dy(Op::AContains, a, b).eval(&h)));
    assert!(dy(Op::AContains, n(1.0), E::Array(vec![])).eval(&h).is_err());
    match E::Array(vec![n(1.0), E::Spatial(Geom { key: 1000 }), n(2.0)]).eval(&h) {
        Err(MyError::Runtime(m)) => assert!(m.contains("out-of-bounds")),
        x => panic!("Unexpected {x:?}"),
    }
}

#[test]
fn eval_function_calls() {
    let h = TestHost;
    let call = E::Function("sum".to_string(), vec![n(1.0), id("depth")]);
    assert_eq!(as_num(call.eval(&h)), 121.0);
    let wrong_count = E::Function("sum".to_string(), vec![n(1.0)]);
    match wrong_count.eval(&h) {
        Err(MyError::Runtime(m)) => {
            assert_eq!(m, "Function 'sum()' has wrong (1) arguments count; expected 2")
        }
        x => panic!("Unexpected {x:?}"),
    }
    let wrong_type = E::Function("sum".to_string(), vec![n(1.0), E::Bool(true)]);
    assert!(wrong_type.eval(&h).is_err());
    let unknown = E::Function("nope".to_string(), vec![]);
    assert!(unknown.eval(&h).unwrap().is_null());
    let concat = E::Function(
        "concat".to_string(),
        vec![E::Str(QString::plain("foo")), E::Str(QString::plain("bar"))],
    );
    match concat.eval(&h) {
        Ok(Q::Str(s)) => assert_eq!(s.as_str(), "foobar"),
        x => panic!("Unexpected {x:?}"),
    }
    let liar = E::Function("liar".to_string(), vec![]);
    assert!(liar.eval(&h).is_err());
}

#[test]
fn reduce_folds_literals() {
    let h = TestHost;
    // 1038290-2*2^0 becomes 1038288.
    let e = dy(Op::Minus, n(1038290.0), dy(Op::Mult, n(2.0), dy(Op::Exp, n(2.0), n(0.0))));
    match e.reduce(&h) {
        Ok(E::Num(x)) => assert_eq!(float(&x), 1038288.0),
        x => panic!("Unexpected {x:?}"),
    }
    // a property stays; what is known around it folds.
    let e = dy(Op::And, dy(Op::Lt, n(1.0), n(2.0)), dy(Op::Eq, id("depth"), n(5.0)));
    match e.reduce(&h) {
        Ok(E::Dyadic(Op::And, a, b)) => {
            assert!(matches!(*a, E::Bool(true)));
            assert!(matches!(*b, E::Dyadic(Op::Eq, _, _)));
        }
        x => panic!("Unexpected {x:?}"),
    }
    assert!(matches!(dy(Op::Or, E::Null, E::Bool(true)).reduce(&h), Ok(E::Bool(true))));
    assert!(matches!(dy(Op::And, E::Null, E::Bool(true)).reduce(&h), Ok(E::Null)));
    assert!(matches!(dy(Op::Gt, E::Null, n(1.0)).reduce(&h), Ok(E::Null)));
    assert!(matches!(mo(Op::IsNull, E::Null).reduce(&h), Ok(E::Bool(true))));
    assert!(matches!(mo(Op::IsNull, n(1.0)).reduce(&h), Ok(E::Monadic(Op::IsNull, _))));
    match mo(Op::CaseI, mo(Op::CaseI, id("name"))).reduce(&h) {
        Ok(E::Monadic(Op::CaseI, x)) => assert!(matches!(*x, E::Id(_))),
        x => panic!("Unexpected {x:?}"),
    }
    match mo(Op::CaseI, E::Str(QString::plain("A"))).reduce(&h) {
        Ok(E::Str(s)) => assert!(s.is_icase()),
        x => panic!("Unexpected {x:?}"),
    }
    let like = dy(Op::IsLike, E::Str(QString::plain("hello")), E::Str(QString::plain("h%o")));
    assert!(matches!(like.reduce(&h), Ok(E::Bool(true))));
    assert!(dy(Op::IsLike, n(1.0), n(2.0)).reduce(&h).is_err());
    let t = dy(Op::TAfter, E::Date(day(2)), E::Date(day(1)));
    assert!(matches!(t.reduce(&h), Ok(E::Bool(true))));
    let f = E::Function("sum".to_string(), vec![dy(Op::Plus, n(1.0), n(1.0)), id("depth")]);
    match f.reduce(&h) {
        Ok(E::Function(name, ps)) => {
            assert_eq!(name, "sum");
            assert!(matches!(&ps[0], E::Num(x) if float(x) == 2.0));
            assert!(matches!(&ps[1], E::Id(_)));
        }
        x => panic!("Unexpected {x:?}"),
    }
}

struct TestRender;

impl ogc_cql2::expr::Render for TestRender {
    // The spec functions of the trait: each gives what its method gives.
    fn num_string(&self, n: Num) -> String {
        self.num_text(&n)
    }
    fn geom_string(&self, g: Geom) -> String {
        self.geom_text(&g)
    }

    fn num_text(&self, n: &Num) -> String {
        format!("{}", float(n))
    }
    fn geom_text(&self, g: &Geom) -> String {
        format!("POINT ({} 0)", g.key)
    }
}

#[test]
fn expressions_as_text() {
    let r = TestRender;
    let between = dy(Op::IsBetween, id("depth"), E::Array(vec![n(100.0), n(150.0)]));
    assert_eq!(between.to_text(&r), "depth BETWEEN 100 AND 150");
    assert_eq!(mo(Op::IsNull, id("a")).to_text(&r), "a IS NULL");
    assert_eq!(mo(Op::CaseI, E::Str(QString::plain("x"))).to_text(&r), "CASEI('/x/_')");
    assert_eq!(dy(Op::Plus, n(1.0), dy(Op::Mult, n(2.0), n(3.0))).to_text(&r), "1 + (2 * 3)");
    assert_eq!(dy(Op::Lt, id("a"), n(3.0)).to_text(&r), "a < 3");
    let t = dy(Op::TAfter, E::Date(day(3)), E::Interval(Box::new(E::Unbounded), Box::new(E::Timestamp(7))));
    assert_eq!(t.to_text(&r), "T_AFTER(1970-01-04, [.. .. 1970-01-01T00:00:00.000000007])");
    let f = E::Function("sum".to_string(), vec![id("a"), E::Null, E::Bool(true)]);
    assert_eq!(f.to_text(&r), "sum(a, NULL, TRUE)");
    assert_eq!(E::Array(vec![]).to_text(&r), "[]");
    assert_eq!(E::Array(vec![E::Spatial(Geom { key: 1 })]).to_text(&r), "[POINT (1 0)]");
}

#[test]
fn expression_shapes() {
    assert!(E::Array(vec![n(1.0), E::Str(QString::plain("a"))]).is_literal());
    assert!(!E::Array(vec![n(1.0), E::Null]).is_literal());
    assert!(!E::Null.is_literal());
    assert!(id("a").is_literal_or_id() && id("a").is_id());
    assert_eq!(id("a").as_id(), Some("a"));
    let i = E::Interval(Box::new(E::Date(0)), Box::new(E::Unbounded));
    assert!(i.is_interval());
    let (a, b) = i.as_interval().unwrap();
    assert!(matches!(a, E::Date(0)) && matches!(b, E::Unbounded));
    assert!(n(1.0).as_interval().is_none());
}

#[test]
fn evaluator_outcomes() {
    let h = TestHost;
    let mut ev = ExEvaluator::new();
    assert_eq!(ev.evaluate(&h).unwrap(), Outcome::N);
    ev.setup(dy(Op::Gt, id("depth"), dy(Op::Plus, n(100.0), n(1.0))), &h).unwrap();
    assert_eq!(ev.evaluate(&h).unwrap(), Outcome::T);
    ev.setup(dy(Op::Lt, id("depth"), n(3.0)), &h).unwrap();
    assert_eq!(ev.evaluate(&h).unwrap(), Outcome::F);
    ev.setup(id("depth"), &h).unwrap();
    assert_eq!(ev.evaluate(&h).unwrap(), Outcome::N);
    // a failed setup keeps the expression set up before.
    assert!(ev.setup(dy(Op::IsLike, n(1.0), n(2.0)), &h).is_err());
    assert_eq!(ev.evaluate(&h).unwrap(), Outcome::N);
    ev.setup(dy(Op::Eq, id("depth"), E::Bool(true)), &h).unwrap();
    assert!(ev.evaluate(&h).is_err());
}

#[test]
fn expression_checks() {
    let between = dy(Op::IsBetween, id("depth"), E::Array(vec![n(100.0), n(150.0)]));
    assert!(between.is_wf() && between.has_dyadic_ops() && between.is_renderable());
    let short = dy(Op::IsBetween, id("depth"), E::Array(vec![n(100.0)]));
    assert!(short.is_wf() && !short.is_renderable());
    assert!(matches!(short.eval(&TestHost), Err(MyError::Runtime(_))));
    let three = dy(Op::IsBetween, id("depth"), E::Array(vec![n(100.0), n(150.0), n(3.0)]));
    assert!(three.is_wf() && three.is_renderable());
    assert!(as_bool(three.eval(&TestHost)));
    let swapped = dy(Op::IsBetween, id("depth"), E::Array(vec![n(150.0), n(100.0)]));
    assert!(as_bool(swapped.eval(&TestHost)));
    let not_list = dy(Op::IsBetween, id("depth"), id("name"));
    assert!(not_list.is_wf());
    assert!(matches!(not_list.eval(&TestHost), Err(MyError::Runtime(_))));
    assert!(!E::Array(vec![n(1.0), id("\"")]).is_wf());
    assert!(!mo(Op::Neg, dy(Op::Neg, n(1.0), n(2.0))).has_dyadic_ops());
}

#[test]
fn quoted_property_names() {
    let h = TestHost;
    assert_eq!(as_num(id("\"depth\"").eval(&h)), 120.0);
    assert!(matches!(id("\"nothing\"").eval(&h), Ok(Q::Null)));
}

#[test]
fn converse_temporal_operators_on_expressions() {
    let h = TestHost;
    let inner = E::Interval(Box::new(E::Date(day(3))), Box::new(E::Date(day(5))));
    let outer = E::Interval(Box::new(id("starts_at")), Box::new(id("ends_at")));
    let a = dy(Op::TContains, outer, inner);
    let inner = E::Interval(Box::new(E::Date(day(3))), Box::new(E::Date(day(5))));
    let outer = E::Interval(Box::new(id("starts_at")), Box::new(id("ends_at")));
    let b = dy(Op::TDuring, inner, outer);
    assert!(as_bool(a.eval(&h)));
    assert!(as_bool(b.eval(&h)));
    let x = dy(Op::And, E::Null, E::Bool(false));
    let y = dy(Op::And, E::Bool(false), E::Null);
    assert!(!as_bool(x.eval(&h)) && !as_bool(y.eval(&h)));
}

fn sample() -> E {
    dy(
        Op::And,
        dy(Op::Lt, dy(Op::Plus, n(1.0), n(2.0)), id("depth")),
        dy(Op::IsLike, mo(Op::CaseI, mo(Op::CaseI, id("name"))), mo(Op::CaseI, E::Str(QString::plain("chi%")))),
    )
}

#[test]
fn reduction_keeps_values_and_is_idempotent() {
    let h = TestHost;
    let before = sample().eval(&h);
    let reduced = sample().reduce(&h).unwrap();
    let text = reduced.to_text(&TestRender);
    assert_eq!(before.is_ok(), reduced.eval(&h).is_ok());
    assert_eq!(as_bool(before), as_bool(reduced.eval(&h)));
    let again = sample().reduce(&h).unwrap().reduce(&h).unwrap();
    assert_eq!(again.to_text(&TestRender), text);
}
