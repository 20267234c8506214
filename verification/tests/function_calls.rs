use ogc_cql2::error::MyError;
use ogc_cql2::evaluator::{Evaluator, ExEvaluator};
use ogc_cql2::expr::{Host, E};
use ogc_cql2::function::{ExtDataType, FnArg, FnInfo, FnResult};
use ogc_cql2::op::Op;
use ogc_cql2::qstring::QString;
use ogc_cql2::queryable::{Geom, Num, Q};
use ogc_cql2::Outcome;

fn num(x: f64) -> Num {
    let x = if x == 0.0 { 0.0 } else { x };
    let bits = x.to_bits();
    let key = if bits >> 63 == 1 { !bits } else { bits | (1 << 63) };
    Num { nan: x.is_nan(), key: if x.is_nan() { 0 } else { key } }
}

fn float(n: &Num) -> f64 {
    if n.key >> 63 == 1 {
        f64::from_bits(n.key & !(1 << 63))
    } else {
        f64::from_bits(!n.key)
    }
}

/// A context: the resource at hand, and the functions registered.
struct Ctx {
    feature: Vec<(&'static str, Q)>,
    functions: Vec<&'static str>,
}

fn copy(q: &Q) -> Q {
    match q {
        Q::Num(n) => Q::Num(*n),
        Q::Str(s) => Q::Str(s.clone()),
        Q::Bool(b) => Q::Bool(*b),
        _ => Q::Null,
    }
}

impl Host for Ctx {
    // The spec functions of the trait: each gives what its method gives.
    fn prop(&self, name: String) -> Option<Q> {
        self.property(&name)
    }
    fn coords(&self, g: Geom) -> Result<(), MyError> {
        self.check_coordinates(&g)
    }
    fn neg(&self, a: Num) -> Num {
        self.negate(&a)
    }
    fn arith(&self, op: Op, a: Num, b: Num) -> Num {
        self.arithmetic(op, &a, &b)
    }
    fn relation(&self, op: Op, a: Geom, b: Geom) -> Result<bool, MyError> {
        self.spatial(op, &a, &b)
    }
    fn info(&self, name: String) -> Option<FnInfo> {
        self.fn_info(&name)
    }
    // A registered function may answer anything (it may read the clock).
    fn answers(&self, _name: String, _args: Vec<FnArg>, _a: Option<FnResult>) -> bool {
        true
    }

    fn property(&self, name: &String) -> Option<Q> {
        self.feature.iter().find(|(n, _)| *n == name.as_str()).map(|(_, q)| copy(q))
    }
    fn check_coordinates(&self, _g: &Geom) -> Result<(), MyError> {
        Ok(())
    }
    fn negate(&self, a: &Num) -> Num {
        num(-float(a))
    }
    fn arithmetic(&self, op: Op, a: &Num, b: &Num) -> Num {
        let (m, n) = (float(a), float(b));
        num(match op {
            Op::Plus => m + n,
            Op::Minus => m - n,
            Op::Mult => m * n,
            _ => m / n,
        })
    }
    fn spatial(&self, _op: Op, _a: &Geom, _b: &Geom) -> Result<bool, MyError> {
        Ok(false)
    }
    fn fn_info(&self, name: &String) -> Option<FnInfo> {
        if !self.functions.contains(&name.as_str()) {
            return None;
        }
        match name.as_str() {
            "sum" | "min" | "max" | "avg" => {
                Some(FnInfo::new(vec![ExtDataType::Num, ExtDataType::Num], ExtDataType::Num))
            }
            "concat" => Some(FnInfo::new(vec![ExtDataType::Str, ExtDataType::Str], ExtDataType::Str)),
            "starts_with" => {
                Some(FnInfo::new(vec![ExtDataType::Str, ExtDataType::Str], ExtDataType::Bool))
            }
            _ => None,
        }
    }
    fn call(&self, name: &String, args: Vec<FnArg>) -> Option<FnResult> {
        match (name.as_str(), args.as_slice()) {
            ("sum", [FnArg::Num(a), FnArg::Num(b)]) => Some(FnResult::Num(num(float(a) + float(b)))),
            ("min", [FnArg::Num(a), FnArg::Num(b)]) => Some(FnResult::Num(num(float(a).min(float(b))))),
            ("max", [FnArg::Num(a), FnArg::Num(b)]) => Some(FnResult::Num(num(float(a).max(float(b))))),
            ("avg", [FnArg::Num(a), FnArg::Num(b)]) => {
                Some(FnResult::Num(num(float(a).midpoint(float(b)))))
            }
            ("concat", [FnArg::Str(a), FnArg::Str(b)]) => {
                Some(FnResult::Str(format!("{}{}", a.as_str(), b.as_str())))
            }
            ("starts_with", [FnArg::Str(a), FnArg::Str(b)]) => {
                Some(FnResult::Bool(a.as_str().starts_with(b.as_str())))
            }
            _ => None,
        }
    }
}

fn n(x: f64) -> E {
    E::Num(num(x))
}
fn id(s: &str) -> E {
    E::Id(s.to_string())
}
fn call(name: &str, params: Vec<E>) -> E {
    E::Function(name.to_string(), params)
}
fn dy(op: Op, a: E, b: E) -> E {
    E::Dyadic(op, Box::new(a), Box::new(b))
}

#[test]
fn test_unregistered() {
    let ctx = Ctx { feature: vec![], functions: vec![] };
    // sum(a, b)
    let mut eval = ExEvaluator::new();
    eval.setup(call("sum", vec![id("a"), id("b")]), &ctx).unwrap();
    let res = eval.evaluate(&ctx).unwrap();
    assert!(matches!(res, Outcome::N));
}

#[test]
fn test_literals() {
    let ctx = Ctx { feature: vec![], functions: vec!["sum"] };
    // 3 = sum(1, 2)
    let mut eval = ExEvaluator::new();
    eval.setup(dy(Op::Eq, n(3.0), call("sum", vec![n(1.0), n(2.0)])), &ctx).unwrap();
    let res = eval.evaluate(&ctx).unwrap();
    assert!(matches!(res, Outcome::T));
}

#[test]
fn test_queryables() {
    let ctx = Ctx {
        feature: vec![("fid", Q::Num(num(1.0))), ("a", Q::Num(num(10.0))), ("b", Q::Num(num(20.0)))],
        functions: vec!["sum"],
    };
    // 30 = sum(a, b)
    let mut eval = ExEvaluator::new();
    eval.setup(dy(Op::Eq, n(30.0), call("sum", vec![id("a"), id("b")])), &ctx).unwrap();
    let res = eval.evaluate(&ctx).unwrap();
    assert!(matches!(res, Outcome::T));
}

#[test]
fn test_wrong_data_type() {
    let ctx = Ctx {
        feature: vec![
            ("fid", Q::Num(num(1.0))),
            ("a", Q::Num(num(10.0))),
            ("b", Q::new_plain_str("20.0")),
        ],
        functions: vec!["sum"],
    };
    // 30 = sum(a, b)
    let mut eval = ExEvaluator::new();
    eval.setup(dy(Op::Eq, n(30.0), call("sum", vec![id("a"), id("b")])), &ctx).unwrap();
    let res = eval.evaluate(&ctx);
    assert!(res.is_err());
}

#[test]
fn test_num_builtins() {
    let ctx = Ctx {
        feature: vec![("fid", Q::Num(num(1.0))), ("a", Q::Num(num(10.0))), ("b", Q::Num(num(20.0)))],
        functions: vec!["min", "max", "avg"],
    };
    // min(a, b) + max(a, b) = 2 * avg(a, b)
    let lhs = dy(
        Op::Plus,
        call("min", vec![id("a"), id("b")]),
        call("max", vec![id("a"), id("b")]),
    );
    let rhs = dy(Op::Mult, n(2.0), call("avg", vec![id("a"), id("b")]));
    let mut eval = ExEvaluator::new();
    eval.setup(dy(Op::Eq, lhs, rhs), &ctx).unwrap();
    let res = eval.evaluate(&ctx).unwrap();
    assert!(matches!(res, Outcome::T));
}

#[test]
fn test_str_builtins() {
    let ctx = Ctx { feature: vec![], functions: vec!["concat", "starts_with"] };
    // starts_with(concat('foo', 'bar'), 'fo')
    let e = call(
        "starts_with",
        vec![
            call("concat", vec![E::Str(QString::plain("foo")), E::Str(QString::plain("bar"))]),
            E::Str(QString::plain("fo")),
        ],
    );
    let mut eval = ExEvaluator::new();
    eval.setup(e, &ctx).unwrap();
    let res = eval.evaluate(&ctx).unwrap();
    assert!(matches!(res, Outcome::T));
}
