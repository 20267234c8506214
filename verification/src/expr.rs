//! CQL2 expressions and their evaluation against a resource.
//!
//! Evaluating an expression walks its tree: every node is decided here,
//! with the rules of the operators in [crate::eval]. What this library
//! cannot compute itself is asked of a [Host]: the properties of the
//! resource at hand, arithmetic on numbers (floating point), spatial
//! relations and coordinate checks (GEOS and PROJ), and the functions
//! registered by users. The host may answer anything: what is stated of
//! evaluation holds of every answer.

use crate::bound::Bound;
use crate::error::MyError;
use crate::eval::{
    eval_and, eval_array, eval_comparison, eval_interval, eval_monadic, eval_or, eval_temporal,
    eval_xtd_comparison, array_spec, bound_of, comparison_spec, from_truth, is_logical,
    kleene_and, kleene_or, monadic_spec, order_holds, temporal_spec, truth, xtd_spec,
};
use crate::qstring::{flags_text, like_spec};
use crate::function::{check_arity, fn_args, fn_result, result_fits, FnArg, FnInfo, FnResult};
use crate::op::Op;
use crate::qstring::QString;
use crate::queryable::{q_order, q_same, Geom, Num, Q};
use vstd::prelude::*;

verus! {

/// A CQL2 expression.
#[derive(Debug)]
pub enum E {
    /// The `NULL` literal.
    Null,
    /// The unbounded instant `..`.
    Unbounded,
    /// A boolean literal.
    Bool(bool),
    /// A numeric literal.
    Num(Num),
    /// A string literal, possibly case- and/or accent-insensitive.
    Str(QString),
    /// A date literal, in nanoseconds since the Unix epoch.
    Date(i128),
    /// A timestamp literal, in nanoseconds since the Unix epoch.
    Timestamp(i128),
    /// A geometry literal.
    Spatial(Geom),
    /// A property name.
    Id(String),
    /// An operator applied to one operand.
    Monadic(Op, Box<E>),
    /// An operator applied to two operands.
    Dyadic(Op, Box<E>, Box<E>),
    /// A call of a registered function, by name, with its parameters.
    Function(String, Vec<E>),
    /// An array of expressions.
    Array(Vec<E>),
    /// An interval between two limits.
    Interval(Box<E>, Box<E>),
}

/// What evaluation asks of the world outside this library. Each answer but
/// that of a function call is a function of the question, named by a spec
/// function of the host; a registered function may answer differently from
/// one call to the next (it may read the clock), so nothing is assumed of
/// its answer. The spec functions take and give the same values as the
/// methods they describe, so that an implementation can define each of them
/// by the code of its method.
pub trait Host {
    /// The value of the named property of the resource at hand.
    spec fn prop(&self, name: String) -> Option<Q>;

    /// Whether a geometry lies within the area of use of the coordinate
    /// reference system in force, or the error that says why not.
    spec fn coords(&self, g: Geom) -> Result<(), MyError>;

    /// The opposite of a number.
    spec fn neg(&self, a: Num) -> Num;

    /// An arithmetic operator applied to two numbers.
    spec fn arith(&self, op: Op, a: Num, b: Num) -> Num;

    /// A spatial relation between two geometries, or the error raised in
    /// deciding it.
    spec fn relation(&self, op: Op, a: Geom, b: Geom) -> Result<bool, MyError>;

    /// The registered function of the given name, if there is one.
    spec fn info(&self, name: String) -> Option<FnInfo>;

    /// Whether `a` is an answer that the named registered function may give
    /// for the arguments `args`.
    spec fn answers(&self, name: String, args: Vec<FnArg>, a: Option<FnResult>) -> bool;

    /// The value of the named property of the resource, if it has one.
    fn property(&self, name: &String) -> (r: Option<Q>)
        ensures
            r == self.prop(*name),
    ;

    /// Check that a geometry's coordinates lie within the area of use of the
    /// coordinate reference system in force.
    fn check_coordinates(&self, g: &Geom) -> (r: Result<(), MyError>)
        ensures
            r == self.coords(*g),
    ;

    /// The opposite of a number.
    fn negate(&self, a: &Num) -> (r: Num)
        ensures
            r == self.neg(*a),
    ;

    /// An arithmetic operator (`+`, `-`, `*`, `/`, `div`, `%`, `^`) applied
    /// to two numbers.
    fn arithmetic(&self, op: Op, a: &Num, b: &Num) -> (r: Num)
        ensures
            r == self.arith(op, *a, *b),
    ;

    /// A spatial relation between two geometries.
    fn spatial(&self, op: Op, a: &Geom, b: &Geom) -> (r: Result<bool, MyError>)
        ensures
            r == self.relation(op, *a, *b),
    ;

    /// The argument and result types of a registered function, if one has
    /// that name.
    fn fn_info(&self, name: &String) -> (r: Option<FnInfo>)
        ensures
            r == self.info(*name),
    ;

    /// Call a registered function, with as many arguments as it declares,
    /// each of its declared type; `None` when it yields nothing.
    fn call(&self, name: &String, args: Vec<FnArg>) -> (r: Option<FnResult>)
        requires
            self.info(*name) matches Some(i) && crate::function::args_fit(args@, i.args_spec()),
        ensures
            self.answers(*name, args, r),
    ;
}

/// Whether an expression can be evaluated: no property is named by a lone
/// double quote.
pub open spec fn wf(e: E) -> bool
    decreases e, 1nat,
{
    match e {
        E::Id(x) => x@ != "\""@,
        E::Monadic(_, x) => wf(*x),
        E::Dyadic(_, x, y) => wf(*x) && wf(*y),
        E::Function(_, v) => wf_all(v@),
        E::Array(v) => wf_all(v@),
        E::Interval(x, y) => wf(*x) && wf(*y),
        _ => true,
    }
}

/// Whether every expression of a sequence is [wf].
pub open spec fn wf_all(xs: Seq<E>) -> bool
    decreases xs, 0nat,
{
    if xs.len() == 0 {
        true
    } else {
        wf_all(xs.subrange(0, xs.len() - 1)) && wf(xs[xs.len() - 1])
    }
}

/// Each expression of a [wf_all] sequence is [wf].
pub proof fn lemma_wf_all(xs: Seq<E>, i: int)
    requires
        wf_all(xs),
        0 <= i < xs.len(),
    ensures
        wf(xs[i]),
    decreases xs.len(),
{
    if i < xs.len() - 1 {
        lemma_wf_all(xs.subrange(0, xs.len() - 1), i);
    }
}

/// A possible outcome of evaluating some expression (this only names the
/// outcomes that evaluation is stated to reach).
pub open spec fn outcome(r: Result<Q, MyError>) -> bool {
    true
}

/// A possible outcome of evaluating a sequence of expressions.
pub open spec fn outcomes(r: Result<Seq<Q>, MyError>) -> bool {
    true
}

/// A runtime error.
pub open spec fn runtime_err(r: Result<Q, MyError>) -> bool {
    r matches Err(e) && e is Runtime
}

/// A result that is the given value, or a runtime error for `None`.
pub open spec fn as_result(o: Option<Q>, r: Result<Q, MyError>) -> bool {
    match o {
        Some(q) => r == Ok::<Q, MyError>(q),
        None => runtime_err(r),
    }
}

/// What a monadic operator yields on its evaluated operand.
pub open spec fn monadic_ok<H: Host>(host: &H, op: Op, zx: Q, r: Result<Q, MyError>) -> bool {
    match op {
        Op::Minus => match zx {
            Q::Null => r == Ok::<Q, MyError>(Q::Null),
            Q::Num(n) => r == Ok::<Q, MyError>(Q::Num(host.neg(n))),
            _ => runtime_err(r),
        },
        Op::CaseI => match zx {
            Q::Str(s) => r == Ok::<Q, MyError>(Q::Str(s.with_icase())),
            _ => runtime_err(r),
        },
        Op::AccentI => match zx {
            Q::Str(s) => r == Ok::<Q, MyError>(Q::Str(s.with_iaccent())),
            _ => runtime_err(r),
        },
        _ => as_result(monadic_spec(op, zx), r),
    }
}

/// Whether an operator is one of those that take two operands.
pub open spec fn is_dyadic(op: Op) -> bool {
    op is And || op is Or || op.is_comparison() || op.is_xtd_comparison() || op.is_arithmetic()
        || op.is_spatial() || op.is_temporal() || op.is_array()
}

/// What a dyadic operator yields on its evaluated operands. Arithmetic and
/// spatial relations are the host's.
pub open spec fn dyadic_ok<H: Host>(host: &H, op: Op, zx: Q, zy: Q, r: Result<Q, MyError>) -> bool {
    if op is And {
        if is_logical(zx) && is_logical(zy) {
            r == Ok::<Q, MyError>(from_truth(kleene_and(truth(zx), truth(zy))))
        } else {
            runtime_err(r)
        }
    } else if op is Or {
        if is_logical(zx) && is_logical(zy) {
            r == Ok::<Q, MyError>(from_truth(kleene_or(truth(zx), truth(zy))))
        } else {
            runtime_err(r)
        }
    } else if op.is_comparison() {
        as_result(comparison_spec(op, zx, zy), r)
    } else if op.is_xtd_comparison() {
        as_result(xtd_spec(op, zx, zy), r)
    } else if op.is_arithmetic() {
        if zx is Null || zy is Null {
            r == Ok::<Q, MyError>(Q::Null)
        } else if zx is Num && zy is Num {
            r == Ok::<Q, MyError>(Q::Num(host.arith(op, zx->Num_0, zy->Num_0)))
        } else {
            runtime_err(r)
        }
    } else if op.is_spatial() {
        if zx is Null || zy is Null {
            r == Ok::<Q, MyError>(Q::Null)
        } else if zx is Geom && zy is Geom {
            r == match host.relation(op, zx->Geom_0, zy->Geom_0) {
                Ok(x) => Ok::<Q, MyError>(Q::Bool(x)),
                Err(e) => Err::<Q, MyError>(e),
            }
        } else {
            runtime_err(r)
        }
    } else if op.is_temporal() {
        as_result(temporal_spec(op, zx, zy), r)
    } else {
        as_result(
            match array_spec(op, zx, zy) {
                Some(b) => Some(Q::Bool(b)),
                None => None,
            },
            r,
        )
    }
}

/// Whether every value fits the declared type at its position.
pub open spec fn fits_all(qs: Seq<Q>, types: Seq<crate::function::ExtDataType>) -> bool {
    qs.len() == types.len() && forall|k: int|
        0 <= k < qs.len() ==> crate::function::arg_fits(#[trigger] qs[k], types[k])
}

/// The text of the error raised when a function hands back a value of
/// another type than its declared result type.
pub open spec fn result_type_message() -> Seq<char> {
    "Function result is not of its declared type"@
}

/// Whether `q` is the queryable that the value `x`, of the declared result
/// type, becomes (see [fn_result]).
pub open spec fn result_value(x: FnResult, t: crate::function::ExtDataType, q: Q) -> bool {
    match x {
        FnResult::Str(s) => q matches Q::Str(u) && u.text() == s@ && u.flag_bits() == 0,
        FnResult::Num(n) => q == Q::Num(n),
        FnResult::Bool(b) => q == Q::Bool(b),
        FnResult::Zoned(z) => q == Q::Instant(
            if t is Timestamp {
                Bound::Timestamp(z)
            } else {
                Bound::Date(z)
            },
        ),
        FnResult::Geom(g) => q == Q::Geom(g),
    }
}

/// What a call yields for what the function handed back: nothing is
/// `NULL`; a value of the declared result type is that value as a
/// queryable; a value of another type is a runtime error.
pub open spec fn call_outcome(answer: Option<FnResult>, info: FnInfo, r: Result<Q, MyError>) -> bool {
    match answer {
        None => r == Ok::<Q, MyError>(Q::Null),
        Some(x) => if result_fits(x, info.result_spec()) {
            r matches Ok(q) && result_value(x, info.result_spec(), q)
        } else {
            r matches Err(MyError::Runtime(m)) && m@ == result_type_message()
        },
    }
}

/// What applying the function `name` to evaluated parameters yields: when
/// a parameter does not fit its declared type, a runtime error (that of the
/// first that does not); otherwise what the call yields for an answer the
/// function gives to the arguments the parameters become (see
/// [crate::function::fn_args]).
pub open spec fn applies<H: Host>(host: &H, name: String, info: FnInfo, qs: Seq<Q>, r: Result<
    Q,
    MyError,
>) -> bool {
    if fits_all(qs, info.args_spec()) {
        exists|args: Vec<FnArg>, answer: Option<FnResult>|
            #[trigger] host.answers(name, args, answer) && crate::function::args_of(args@, qs)
                && call_outcome(answer, info, r)
    } else {
        r matches Err(e) && e is Runtime
    }
}

/// Whether `q` is the value a property name reads: the property of that
/// name; else, for a name in double quotes, the property named without
/// them; else `NULL`.
pub open spec fn id_value<H: Host>(host: &H, x: String, q: Q) -> bool {
    match host.prop(x) {
        Some(v) => q == v,
        None => if x@.len() >= 2 && x@[0] == '"' && x@.last() == '"' {
            exists|u: String|
                u@ == x@.subrange(1, x@.len() - 1) && q == match #[trigger] host.prop(u) {
                    Some(v) => v,
                    None => Q::Null,
                }
        } else {
            q == Q::Null
        },
    }
}

/// Whether `r` is an outcome of evaluating `e` with the given host:
/// literals are themselves; a geometry is checked by the host; a property
/// reads [id_value]; a node evaluates its operands from left to right,
/// stops at the first error, and applies its operator's rules; a call of a
/// function the host does not know is `NULL`, one with the wrong number of
/// parameters an error, and otherwise its parameters are evaluated and
/// handed over (see [applies]). Only a function call may have more than one
/// outcome.
pub open spec fn evals<H: Host>(host: &H, e: E, r: Result<Q, MyError>) -> bool
    decreases e, 1nat,
{
    match e {
        E::Null => r == Ok::<Q, MyError>(Q::Null),
        E::Unbounded => r == Ok::<Q, MyError>(Q::Instant(Bound::Unbounded)),
        E::Bool(b) => r == Ok::<Q, MyError>(Q::Bool(b)),
        E::Num(n) => r == Ok::<Q, MyError>(Q::Num(n)),
        E::Str(s) => r == Ok::<Q, MyError>(Q::Str(s)),
        E::Date(z) => r == Ok::<Q, MyError>(Q::Instant(Bound::Date(z))),
        E::Timestamp(z) => r == Ok::<Q, MyError>(Q::Instant(Bound::Timestamp(z))),
        E::Spatial(g) => r == match host.coords(g) {
            Ok(_) => Ok::<Q, MyError>(Q::Geom(g)),
            Err(e) => Err::<Q, MyError>(e),
        },
        E::Id(x) => r matches Ok(q) && id_value(host, x, q),
        E::Monadic(op, x) => exists|rx: Result<Q, MyError>|
            #[trigger] outcome(rx) && evals(host, *x, rx) && match rx {
                Err(e) => r == Err::<Q, MyError>(e),
                Ok(zx) => monadic_ok(host, op, zx, r),
            },
        E::Dyadic(op, x, y) => if !is_dyadic(op) {
            runtime_err(r)
        } else {
            exists|rx: Result<Q, MyError>|
                #[trigger] outcome(rx) && evals(host, *x, rx) && match rx {
                    Err(e) => r == Err::<Q, MyError>(e),
                    Ok(zx) => if op.is_array() && !(zx is List) {
                        runtime_err(r)
                    } else {
                        exists|ry: Result<Q, MyError>|
                            #[trigger] outcome(ry) && evals(host, *y, ry) && match ry {
                                Err(e) => r == Err::<Q, MyError>(e),
                                Ok(zy) => dyadic_ok(host, op, zx, zy, r),
                            }
                    },
                }
        },
        E::Function(name, v) => match host.info(name) {
            None => r == Ok::<Q, MyError>(Q::Null),
            Some(i) => if v.len() != i.args_spec().len() {
                r matches Err(MyError::Runtime(m)) && m@ == crate::function::arity_message(
                    name@,
                    v.len() as nat,
                    i.args_spec().len(),
                )
            } else {
                exists|rl: Result<Seq<Q>, MyError>|
                    #[trigger] outcomes(rl) && evals_all(host, v@, rl) && match rl {
                        Err(e) => r == Err::<Q, MyError>(e),
                        Ok(qs) => applies(host, name, i, qs, r),
                    }
            },
        },
        E::Array(v) => exists|rl: Result<Seq<Q>, MyError>|
            #[trigger] outcomes(rl) && evals_all(host, v@, rl) && match rl {
                Err(e) => r == Err::<Q, MyError>(e),
                Ok(qs) => r matches Ok(Q::List(w)) && w@ == qs,
            },
        E::Interval(x, y) => exists|rx: Result<Q, MyError>|
            #[trigger] outcome(rx) && evals(host, *x, rx) && match rx {
                Err(e) => r == Err::<Q, MyError>(e),
                Ok(xx) => exists|ry: Result<Q, MyError>|
                    #[trigger] outcome(ry) && evals(host, *y, ry) && match ry {
                        Err(e) => r == Err::<Q, MyError>(e),
                        Ok(yy) => r == Ok::<Q, MyError>(
                            match (bound_of(xx), bound_of(yy)) {
                                (Some(a), Some(b)) => Q::Interval(a, b),
                                _ => Q::Null,
                            },
                        ),
                    },
            },
    }
}

/// Whether `r` is an outcome of evaluating a sequence of expressions in
/// order: their values, or the error of the first that fails.
pub open spec fn evals_all<H: Host>(host: &H, xs: Seq<E>, r: Result<Seq<Q>, MyError>) -> bool
    decreases xs, 0nat,
{
    if xs.len() == 0 {
        r == Ok::<Seq<Q>, MyError>(Seq::empty())
    } else {
        exists|rp: Result<Seq<Q>, MyError>|
            #[trigger] outcomes(rp) && evals_all(host, xs.subrange(0, xs.len() - 1), rp) && match rp {
                Err(e) => r == Err::<Seq<Q>, MyError>(e),
                Ok(qs) => exists|rx: Result<Q, MyError>|
                    #[trigger] outcome(rx) && evals(host, xs[xs.len() - 1], rx) && match rx {
                        Err(e) => r == Err::<Seq<Q>, MyError>(e),
                        Ok(q) => r == Ok::<Seq<Q>, MyError>(qs.push(q)),
                    },
            }
    }
}

/// An error in evaluating a prefix of a sequence is the outcome of the
/// whole sequence.
proof fn lemma_error_extends<H: Host>(host: &H, xs: Seq<E>, k: int, e: MyError)
    requires
        0 <= k <= xs.len(),
        evals_all(host, xs.subrange(0, k), Err::<Seq<Q>, MyError>(e)),
    ensures
        evals_all(host, xs, Err::<Seq<Q>, MyError>(e)),
    decreases xs.len() - k,
{
    if k == xs.len() {
        assert(xs.subrange(0, k) == xs);
    } else {
        lemma_error_extends_step(host, xs, k, e);
        lemma_error_extends(host, xs, k + 1, e);
    }
}

proof fn lemma_error_extends_step<H: Host>(host: &H, xs: Seq<E>, k: int, e: MyError)
    requires
        0 <= k < xs.len(),
        evals_all(host, xs.subrange(0, k), Err::<Seq<Q>, MyError>(e)),
    ensures
        evals_all(host, xs.subrange(0, k + 1), Err::<Seq<Q>, MyError>(e)),
{
    let ys = xs.subrange(0, k + 1);
    assert(ys.subrange(0, ys.len() - 1) == xs.subrange(0, k));
    assert(outcomes(Err::<Seq<Q>, MyError>(e)));
}

pub(crate) proof fn lemma_element_smaller(e: E, v: Vec<E>, i: int)
    requires
        (e is Array && e->Array_0 == v) || (e is Function && e->Function_1 == v),
        0 <= i < v.len(),
    ensures
        decreases_to!(e => v@[i]),
{
    assert(decreases_to!(v => v@));
    assert(decreases_to!(v@ => v@[i]));
    if e is Array {
        assert(decreases_to!(e => e->Array_0));
    } else {
        assert(decreases_to!(e => e->Function_1));
    }
}

fn runtime(msg: &str) -> (r: MyError)
    ensures
        r is Runtime,
{
    MyError::Runtime(msg.to_string())
}

/// The property a name reads when the resource has no property of that
/// name: a quoted name is also looked up without its quotes.
pub fn unquoted(x: &str) -> (r: Option<String>)
    requires
        x@ != "\""@,
    ensures
        x@.len() >= 2 && x@[0] == '"' && x@.last() == '"' ==> (r matches Some(s) && s@
            == x@.subrange(1, x@.len() - 1)),
        !(x@.len() >= 2 && x@[0] == '"' && x@.last() == '"') ==> r is None,
{
    let v = crate::unicode::chars_of(x);
    proof {
        reveal_strlit("\"");
    }
    if v.len() >= 2 && v[0] == '"' && v[v.len() - 1] == '"' {
        let mut w: Vec<char> = Vec::new();
        let mut i: usize = 1;
        while i < v.len() - 1
            invariant
                1 <= i <= v.len() - 1,
                v.len() >= 2,
                w@ == v@.subrange(1, i as int),
            decreases v.len() - 1 - i,
        {
            w.push(v[i]);
            i = i + 1;
        }
        Some(crate::unicode::string_of(&w))
    } else {
        if v.len() == 1 && v[0] == '"' {
            assert(v@ =~= "\""@);
        }
        None
    }
}

/// What a call yields for what the function handed back: `NULL` for
/// nothing, the value as a queryable when it is of the declared result
/// type, and otherwise a runtime error.
pub fn call_result(answer: Option<FnResult>, info: &FnInfo) -> (r: Result<Q, MyError>)
    ensures
        call_outcome(answer, *info, r),
{
    match answer {
        None => Ok(Q::Null),
        Some(x) => {
            if fits(&x, info) {
                Ok(fn_result(Some(x), info))
            } else {
                Err(MyError::Runtime("Function result is not of its declared type".to_string()))
            }
        },
    }
}

/// Apply a registered function to the evaluated parameters of a call, which
/// are as many as its declared arguments: each must fit its declared type
/// (else the error of the first that does not); then the function is called
/// once, and what it hands back is made a queryable by [call_result].
pub fn apply_fn<H: Host>(host: &H, name: &String, info: &FnInfo, params: Vec<Q>) -> (r: Result<
    Q,
    MyError,
>)
    requires
        params.len() == info.args_spec().len(),
        host.info(*name) == Some(*info),
    ensures
        applies(host, *name, *info, params@, r),
{
    let args = match fn_args(&params, info) {
        Ok(a) => a,
        Err(e) => return Err(e),
    };
    let ghost given_args = args;
    let answer = host.call(name, args);
    let ghost given = answer;
    let r = call_result(answer, info);
    proof {
        assert(host.answers(*name, given_args, given));
        assert(call_outcome(given, *info, r));
    }
    r
}

fn fits(x: &FnResult, info: &FnInfo) -> (r: bool)
    ensures
        r == result_fits(*x, info.result_spec()),
{
    let t = info.result_type();
    match t {
        crate::function::ExtDataType::Str => matches!(x, FnResult::Str(_)),
        crate::function::ExtDataType::Num => matches!(x, FnResult::Num(_)),
        crate::function::ExtDataType::Bool => matches!(x, FnResult::Bool(_)),
        crate::function::ExtDataType::Timestamp | crate::function::ExtDataType::Date => matches!(x, FnResult::Zoned(_)),
        crate::function::ExtDataType::Geom => matches!(x, FnResult::Geom(_)),
    }
}


/// Evaluate a dyadic operator on its evaluated operands.
fn eval_dyadic<H: Host>(op: &Op, zx: &Q, zy: &Q, host: &H) -> (r: Result<Q, MyError>)
    requires
        is_dyadic(*op),
    ensures
        dyadic_ok(host, *op, *zx, *zy, r),
{
    match op {
        Op::And => eval_and(zx, zy),
        Op::Or => eval_or(zx, zy),
        _ => {
            if op.comparison() {
                eval_comparison(op, zx, zy)
            } else if op.xtd_comparison() {
                eval_xtd_comparison(op, zx, zy)
            } else if op.arithmetic() {
                if zx.is_null() || zy.is_null() {
                    Ok(Q::Null)
                } else {
                    match (zx, zy) {
                        (Q::Num(a), Q::Num(b)) => Ok(Q::Num(host.arithmetic(*op, a, b))),
                        _ => Err(runtime("Expected numbers")),
                    }
                }
            } else if op.spatial() {
                if zx.is_null() || zy.is_null() {
                    Ok(Q::Null)
                } else {
                    match (zx, zy) {
                        (Q::Geom(a), Q::Geom(b)) => match host.spatial(*op, a, b) {
                            Ok(x) => Ok(Q::Bool(x)),
                            Err(e) => Err(e),
                        },
                        _ => Err(runtime("Expected geometries")),
                    }
                }
            } else if op.temporal() {
                eval_temporal(op, zx, zy)
            } else {
                eval_array(op, zx, zy)
            }
        },
    }
}

fn dyadic(op: &Op) -> (r: bool)
    ensures
        r == is_dyadic(*op),
{
    matches!(op, Op::And) || matches!(op, Op::Or) || op.comparison() || op.xtd_comparison()
        || op.arithmetic() || op.spatial() || op.temporal() || op.array()
}

impl E {
    /// Evaluate this expression, asking the host what only it can answer.
    pub fn eval<H: Host>(&self, host: &H) -> (r: Result<Q, MyError>)
        requires
            wf(*self),
        ensures
            evals(host, *self, r),
        decreases self, 1nat,
    {
        match self {
            E::Null => Ok(Q::Null),
            E::Unbounded => Ok(Q::Instant(Bound::Unbounded)),
            E::Bool(b) => Ok(Q::Bool(*b)),
            E::Num(n) => Ok(Q::Num(*n)),
            E::Str(s) => Ok(Q::Str(s.clone())),
            E::Date(z) => Ok(Q::Instant(Bound::Date(*z))),
            E::Timestamp(z) => Ok(Q::Instant(Bound::Timestamp(*z))),
            E::Spatial(g) => match host.check_coordinates(g) {
                Ok(()) => Ok(Q::Geom(*g)),
                Err(e) => Err(e),
            },
            E::Id(x) => match host.property(x) {
                Some(q) => Ok(q),
                None => match unquoted(x.as_str()) {
                    Some(u) => {
                        let a = host.property(&u);
                        proof {
                            assert(host.prop(u) == a);
                        }
                        match a {
                            Some(q) => Ok(q),
                            None => Ok(Q::Null),
                        }
                    },
                    None => Ok(Q::Null),
                },
            },
            E::Monadic(op, x) => {
                let rx = x.eval(host);
                proof {
                    assert(outcome(rx));
                }
                let zx = match rx {
                    Err(e) => return Err(e),
                    Ok(z) => z,
                };
                match op {
                    Op::Minus => match zx {
                        Q::Null => Ok(Q::Null),
                        Q::Num(n) => Ok(Q::Num(host.negate(&n))),
                        _ => Err(runtime("Expected a number")),
                    },
                    _ => eval_monadic(op, zx),
                }
            },
            E::Dyadic(op, x, y) => {
                if !dyadic(op) {
                    return Err(runtime("Unexpected dyadic operator"));
                }
                let rx = x.eval(host);
                proof {
                    assert(outcome(rx));
                }
                let zx = match rx {
                    Err(e) => return Err(e),
                    Ok(z) => z,
                };
                if op.array() && !matches!(zx, Q::List(_)) {
                    return Err(runtime("Expected a list"));
                }
                let ry = y.eval(host);
                proof {
                    assert(outcome(ry));
                }
                let zy = match ry {
                    Err(e) => return Err(e),
                    Ok(z) => z,
                };
                eval_dyadic(op, &zx, &zy, host)
            },
            E::Function(name, params) => {
                let answer = host.fn_info(name);
                let ghost asked_info = answer;
                let info = match answer {
                    None => return Ok(Q::Null),
                    Some(i) => i,
                };
                if let Err(e) = check_arity(name.as_str(), params.len(), &info) {
                    return Err(e);
                }
                let mut values: Vec<Q> = Vec::new();
                let mut i: usize = 0;
                assert(params@.subrange(0, 0) == Seq::<E>::empty());
                while i < params.len()
                    invariant
                        i <= params.len(),
                        params.len() == info.args_spec().len(),
                        *self == E::Function(*name, *params),
                        asked_info == Some(info),
                        asked_info == host.info(*name),
                        wf_all(params@),
                        evals_all(host, params@.subrange(0, i as int), Ok::<Seq<Q>, MyError>(values@)),
                    decreases params.len() - i,
                {
                    proof {
                        lemma_element_smaller(*self, *params, i as int);
                        lemma_wf_all(params@, i as int);
                    }
                    let rx = params[i].eval(host);
                    let ghost prefix = params@.subrange(0, i + 1);
                    proof {
                        assert(outcome(rx));
                        assert(outcomes(Ok::<Seq<Q>, MyError>(values@)));
                        assert(prefix.subrange(0, prefix.len() - 1) == params@.subrange(0, i as int));
                        assert(prefix[prefix.len() - 1] == params@[i as int]);
                    }
                    match rx {
                        Ok(q) => values.push(q),
                        Err(e) => {
                            proof {
                                lemma_error_extends(host, params@, i + 1, e);
                                assert(outcomes(Err::<Seq<Q>, MyError>(e)));
                            }
                            return Err(e);
                        },
                    }
                    i = i + 1;
                }
                proof {
                    assert(params@.subrange(0, params.len() as int) == params@);
                    assert(outcomes(Ok::<Seq<Q>, MyError>(values@)));
                    lemma_all_len(host, params@, values@);
                }
                apply_fn(host, name, &info, values)
            },
            E::Array(v) => {
                let mut out: Vec<Q> = Vec::new();
                let mut i: usize = 0;
                assert(v@.subrange(0, 0) == Seq::<E>::empty());
                while i < v.len()
                    invariant
                        i <= v.len(),
                        *self == E::Array(*v),
                        wf_all(v@),
                        evals_all(host, v@.subrange(0, i as int), Ok::<Seq<Q>, MyError>(out@)),
                    decreases v.len() - i,
                {
                    proof {
                        lemma_element_smaller(*self, *v, i as int);
                        lemma_wf_all(v@, i as int);
                    }
                    let rx = v[i].eval(host);
                    let ghost prefix = v@.subrange(0, i + 1);
                    proof {
                        assert(outcome(rx));
                        assert(outcomes(Ok::<Seq<Q>, MyError>(out@)));
                        assert(prefix.subrange(0, prefix.len() - 1) == v@.subrange(0, i as int));
                        assert(prefix[prefix.len() - 1] == v@[i as int]);
                    }
                    match rx {
                        Ok(q) => out.push(q),
                        Err(e) => {
                            proof {
                                lemma_error_extends(host, v@, i + 1, e);
                                assert(outcomes(Err::<Seq<Q>, MyError>(e)));
                            }
                            return Err(e);
                        },
                    }
                    i = i + 1;
                }
                proof {
                    assert(v@.subrange(0, v.len() as int) == v@);
                    assert(outcomes(Ok::<Seq<Q>, MyError>(out@)));
                }
                Ok(Q::List(out))
            },
            E::Interval(x, y) => {
                let rx = x.eval(host);
                proof {
                    assert(outcome(rx));
                }
                let xx = match rx {
                    Err(e) => return Err(e),
                    Ok(z) => z,
                };
                let ry = y.eval(host);
                proof {
                    assert(outcome(ry));
                }
                let yy = match ry {
                    Err(e) => return Err(e),
                    Ok(z) => z,
                };
                Ok(eval_interval(&xx, &yy))
            },
        }
    }
}

/// The values of a sequence of expressions are as many as the expressions.
proof fn lemma_all_len<H: Host>(host: &H, xs: Seq<E>, qs: Seq<Q>)
    requires
        evals_all(host, xs, Ok::<Seq<Q>, MyError>(qs)),
    ensures
        qs.len() == xs.len(),
    decreases xs.len(),
{
    if xs.len() > 0 {
        let prefix = xs.subrange(0, xs.len() - 1);
        let rp = choose|rp: Result<Seq<Q>, MyError>|
            #[trigger] outcomes(rp) && evals_all(host, prefix, rp) && match rp {
                Err(e) => Ok::<Seq<Q>, MyError>(qs) == Err::<Seq<Q>, MyError>(e),
                Ok(ps) => exists|rx: Result<Q, MyError>|
                    #[trigger] outcome(rx) && evals(host, xs[xs.len() - 1], rx) && match rx {
                        Err(e) => Ok::<Seq<Q>, MyError>(qs) == Err::<Seq<Q>, MyError>(e),
                        Ok(q) => Ok::<Seq<Q>, MyError>(qs) == Ok::<Seq<Q>, MyError>(ps.push(q)),
                    },
            };
        match rp {
            Ok(ps) => {
                lemma_all_len(host, prefix, ps);
            },
            Err(_) => {},
        }
    }
}



/// The queryable a literal expression stands for; `None` for expressions
/// that are not literals (properties, operators, calls, arrays and
/// intervals).
pub open spec fn literal(e: E) -> Option<Q> {
    match e {
        E::Null => Some(Q::Null),
        E::Unbounded => Some(Q::Instant(Bound::Unbounded)),
        E::Bool(b) => Some(Q::Bool(b)),
        E::Num(n) => Some(Q::Num(n)),
        E::Str(s) => Some(Q::Str(s)),
        E::Date(z) => Some(Q::Instant(Bound::Date(z))),
        E::Timestamp(z) => Some(Q::Instant(Bound::Timestamp(z))),
        E::Spatial(g) => Some(Q::Geom(g)),
        _ => None,
    }
}

/// Whether every operator applied to two operands in an expression is one
/// that takes two operands (reduction assumes so).
pub open spec fn dyadic_ops(e: E) -> bool
    decreases e, 1nat,
{
    match e {
        E::Monadic(_, x) => dyadic_ops(*x),
        E::Dyadic(op, x, y) => is_dyadic(op) && dyadic_ops(*x) && dyadic_ops(*y),
        E::Function(_, v) => dyadic_ops_all(v@),
        E::Array(v) => dyadic_ops_all(v@),
        E::Interval(x, y) => dyadic_ops(*x) && dyadic_ops(*y),
        _ => true,
    }
}

/// Whether every expression of a sequence is [dyadic_ops].
pub open spec fn dyadic_ops_all(xs: Seq<E>) -> bool
    decreases xs, 0nat,
{
    if xs.len() == 0 {
        true
    } else {
        dyadic_ops_all(xs.subrange(0, xs.len() - 1)) && dyadic_ops(xs[xs.len() - 1])
    }
}

proof fn lemma_dyadic_ops_all(xs: Seq<E>, i: int)
    requires
        dyadic_ops_all(xs),
        0 <= i < xs.len(),
    ensures
        dyadic_ops(xs[i]),
    decreases xs.len(),
{
    if i < xs.len() - 1 {
        lemma_dyadic_ops_all(xs.subrange(0, xs.len() - 1), i);
    }
}

/// A possible outcome of reducing some expression.
pub open spec fn reduced(r: Result<E, MyError>) -> bool {
    true
}

/// A possible outcome of reducing a sequence of expressions.
pub open spec fn reduced_all(r: Result<Seq<E>, MyError>) -> bool {
    true
}

/// The expression of a three-valued truth: a boolean, or `NULL`.
pub open spec fn truth_expr(t: Option<bool>) -> E {
    match t {
        Some(b) => E::Bool(b),
        None => E::Null,
    }
}

/// The truth of a `NULL` or boolean literal.
pub open spec fn truth_of_expr(e: E) -> Option<Option<bool>> {
    match e {
        E::Null => Some(None),
        E::Bool(b) => Some(Some(b)),
        _ => None,
    }
}

/// What a comparison of two literals folds to, for the six comparison
/// operators.
pub open spec fn compare_fold(op: Op, a: Q, b: Q) -> Option<bool> {
    match op {
        Op::Eq => Some(q_same(a, b)),
        Op::Neq => Some(!q_same(a, b)),
        Op::Lt | Op::Gt | Op::Lte | Op::Gte => Some(order_holds(op, q_order(a, b))),
        _ => None,
    }
}

/// What a monadic operator makes of its reduced operand.
pub open spec fn monadic_fold<H: Host>(host: &H, op: Op, v: E, r: Result<E, MyError>) -> bool {
    let keep = Ok::<E, MyError>(E::Monadic(op, Box::new(v)));
    match op {
        Op::Minus => match v {
            E::Null => r == Ok::<E, MyError>(E::Null),
            E::Num(n) => r == Ok::<E, MyError>(E::Num(host.neg(n))),
            _ => r == keep,
        },
        Op::Neg => match v {
            E::Null => r == Ok::<E, MyError>(E::Null),
            E::Bool(b) => r == Ok::<E, MyError>(E::Bool(!b)),
            _ => r == keep,
        },
        Op::IsNull => match v {
            E::Null => r == Ok::<E, MyError>(E::Bool(true)),
            _ => r == keep,
        },
        Op::IsNotNull => match v {
            E::Null => r == Ok::<E, MyError>(E::Bool(false)),
            _ => r == keep,
        },
        Op::CaseI => match v {
            E::Str(s) => r == Ok::<E, MyError>(E::Str(s.with_icase())),
            E::Monadic(Op::CaseI, _) => r == Ok::<E, MyError>(v),
            _ => r == keep,
        },
        Op::AccentI => match v {
            E::Str(s) => r == Ok::<E, MyError>(E::Str(s.with_iaccent())),
            E::Monadic(Op::AccentI, _) => r == Ok::<E, MyError>(v),
            _ => r == keep,
        },
        _ => r == keep,
    }
}

/// A runtime error, as the outcome of a reduction.
pub open spec fn runtime_err_e(r: Result<E, MyError>) -> bool {
    r matches Err(e) && e is Runtime
}

/// What a dyadic operator makes of its reduced operands: `AND` and `OR`
/// fold booleans and `NULL` by their truth tables; other operators yield
/// `NULL` when an operand is `NULL`, and fold two literals by their rules
/// (arithmetic and spatial relations by the host); anything else stays as
/// it is.
pub open spec fn dyadic_fold<H: Host>(host: &H, op: Op, lhs: E, rhs: E, r: Result<E, MyError>) -> bool {
    let keep = Ok::<E, MyError>(E::Dyadic(op, Box::new(lhs), Box::new(rhs)));
    if op is And || op is Or {
        match (truth_of_expr(lhs), truth_of_expr(rhs)) {
            (Some(a), Some(b)) => r == Ok::<E, MyError>(
                truth_expr(if op is And { kleene_and(a, b) } else { kleene_or(a, b) }),
            ),
            _ => r == keep,
        }
    } else if lhs is Null || rhs is Null {
        r == Ok::<E, MyError>(E::Null)
    } else {
        match (literal(lhs), literal(rhs)) {
            (Some(a), Some(b)) => if op.is_comparison() {
                match compare_fold(op, a, b) {
                    Some(x) => r == Ok::<E, MyError>(E::Bool(x)),
                    None => r == keep,
                }
            } else if op.is_xtd_comparison() {
                match (op, a, b) {
                    (Op::IsLike, Q::Str(x), Q::Str(y)) => r == Ok::<E, MyError>(E::Bool(like_spec(x, y))),
                    (Op::IsNotLike, Q::Str(x), Q::Str(y)) => r == Ok::<E, MyError>(E::Bool(!like_spec(x, y))),
                    _ => runtime_err_e(r),
                }
            } else if op.is_arithmetic() {
                if a is Num && b is Num {
                    r == Ok::<E, MyError>(E::Num(host.arith(op, a->Num_0, b->Num_0)))
                } else {
                    runtime_err_e(r)
                }
            } else if op.is_spatial() {
                if a is Geom && b is Geom {
                    r == match host.relation(op, a->Geom_0, b->Geom_0) {
                        Ok(x) => Ok::<E, MyError>(E::Bool(x)),
                        Err(e) => Err::<E, MyError>(e),
                    }
                } else {
                    runtime_err_e(r)
                }
            } else if op.is_temporal() {
                match temporal_spec(op, a, b) {
                    Some(Q::Bool(x)) => r == Ok::<E, MyError>(E::Bool(x)),
                    _ => runtime_err_e(r),
                }
            } else {
                match array_spec(op, a, b) {
                    Some(x) => r == Ok::<E, MyError>(E::Bool(x)),
                    None => runtime_err_e(r),
                }
            },
            _ => r == keep,
        }
    }
}

/// Whether `r` is a possible outcome of reducing `e`, whatever the host
/// answers: literals and properties stay; an operator, a call, an array or
/// an interval first reduces its operands from left to right, stopping at
/// the first error, then folds what it can.
pub open spec fn reduces<H: Host>(host: &H, e: E, r: Result<E, MyError>) -> bool
    decreases e, 1nat,
{
    match e {
        E::Monadic(op, x) => exists|rx: Result<E, MyError>|
            #[trigger] reduced(rx) && reduces(host, *x, rx) && match rx {
                Err(er) => r == Err::<E, MyError>(er),
                Ok(v) => monadic_fold(host, op, v, r),
            },
        E::Dyadic(op, x, y) => exists|rx: Result<E, MyError>|
            #[trigger] reduced(rx) && reduces(host, *x, rx) && match rx {
                Err(er) => r == Err::<E, MyError>(er),
                Ok(lhs) => exists|ry: Result<E, MyError>|
                    #[trigger] reduced(ry) && reduces(host, *y, ry) && match ry {
                        Err(er) => r == Err::<E, MyError>(er),
                        Ok(rhs) => dyadic_fold(host, op, lhs, rhs, r),
                    },
            },
        E::Function(name, v) => exists|rl: Result<Seq<E>, MyError>|
            #[trigger] reduced_all(rl) && reduces_all(host, v@, rl) && match rl {
                Err(er) => r == Err::<E, MyError>(er),
                Ok(es) => r matches Ok(E::Function(n, w)) && n == name && w@ == es,
            },
        E::Array(v) => exists|rl: Result<Seq<E>, MyError>|
            #[trigger] reduced_all(rl) && reduces_all(host, v@, rl) && match rl {
                Err(er) => r == Err::<E, MyError>(er),
                Ok(es) => r matches Ok(E::Array(w)) && w@ == es,
            },
        E::Interval(x, y) => exists|rx: Result<E, MyError>|
            #[trigger] reduced(rx) && reduces(host, *x, rx) && match rx {
                Err(er) => r == Err::<E, MyError>(er),
                Ok(u) => exists|ry: Result<E, MyError>|
                    #[trigger] reduced(ry) && reduces(host, *y, ry) && match ry {
                        Err(er) => r == Err::<E, MyError>(er),
                        Ok(w) => r == Ok::<E, MyError>(E::Interval(Box::new(u), Box::new(w))),
                    },
            },
        _ => r == Ok::<E, MyError>(e),
    }
}

/// Whether `r` is a possible outcome of reducing a sequence of expressions
/// in order.
pub open spec fn reduces_all<H: Host>(host: &H, xs: Seq<E>, r: Result<Seq<E>, MyError>) -> bool
    decreases xs, 0nat,
{
    if xs.len() == 0 {
        r == Ok::<Seq<E>, MyError>(Seq::empty())
    } else {
        exists|rp: Result<Seq<E>, MyError>|
            #[trigger] reduced_all(rp) && reduces_all(host, xs.subrange(0, xs.len() - 1), rp) && match rp {
                Err(er) => r == Err::<Seq<E>, MyError>(er),
                Ok(es) => exists|rx: Result<E, MyError>|
                    #[trigger] reduced(rx) && reduces(host, xs[xs.len() - 1], rx) && match rx {
                        Err(er) => r == Err::<Seq<E>, MyError>(er),
                        Ok(x) => r == Ok::<Seq<E>, MyError>(es.push(x)),
                    },
            }
    }
}

proof fn lemma_reduce_error_extends<H: Host>(host: &H, xs: Seq<E>, k: int, e: MyError)
    requires
        0 <= k <= xs.len(),
        reduces_all(host, xs.subrange(0, k), Err::<Seq<E>, MyError>(e)),
    ensures
        reduces_all(host, xs, Err::<Seq<E>, MyError>(e)),
    decreases xs.len() - k,
{
    if k == xs.len() {
        assert(xs.subrange(0, k) == xs);
    } else {
        let ys = xs.subrange(0, k + 1);
        assert(ys.subrange(0, ys.len() - 1) == xs.subrange(0, k));
        assert(reduced_all(Err::<Seq<E>, MyError>(e)));
        lemma_reduce_error_extends(host, xs, k + 1, e);
    }
}

/// The queryable of a literal expression; `None` for other expressions.
pub fn as_literal(e: &E) -> (r: Option<Q>)
    ensures
        r == literal(*e),
{
    match e {
        E::Null => Some(Q::Null),
        E::Unbounded => Some(Q::Instant(Bound::Unbounded)),
        E::Bool(b) => Some(Q::Bool(*b)),
        E::Num(n) => Some(Q::Num(*n)),
        E::Str(s) => Some(Q::Str(s.clone())),
        E::Date(z) => Some(Q::Instant(Bound::Date(*z))),
        E::Timestamp(z) => Some(Q::Instant(Bound::Timestamp(*z))),
        E::Spatial(g) => Some(Q::Geom(*g)),
        _ => None,
    }
}

fn truth_expr_exec(t: Option<bool>) -> (r: E)
    ensures
        r == truth_expr(t),
{
    match t {
        Some(b) => E::Bool(b),
        None => E::Null,
    }
}

fn truth_of(e: &E) -> (r: Option<Option<bool>>)
    ensures
        r == truth_of_expr(*e),
{
    match e {
        E::Null => Some(None),
        E::Bool(b) => Some(Some(*b)),
        _ => None,
    }
}

/// Fold a dyadic operator over its reduced operands.
fn fold_dyadic<H: Host>(op: Op, lhs: E, rhs: E, host: &H) -> (r: Result<E, MyError>)
    requires
        is_dyadic(op),
    ensures
        dyadic_fold(host, op, lhs, rhs, r),
        wf(lhs) && wf(rhs) ==> (r matches Ok(e2) ==> wf(e2)),
{
    if matches!(op, Op::And) || matches!(op, Op::Or) {
        return match (truth_of(&lhs), truth_of(&rhs)) {
            (Some(a), Some(b)) => {
                let t = if matches!(op, Op::And) {
                    if a == Some(false) || b == Some(false) {
                        Some(false)
                    } else if a == Some(true) && b == Some(true) {
                        Some(true)
                    } else {
                        None
                    }
                } else {
                    if a == Some(true) || b == Some(true) {
                        Some(true)
                    } else if a == Some(false) && b == Some(false) {
                        Some(false)
                    } else {
                        None
                    }
                };
                Ok(truth_expr_exec(t))
            },
            _ => Ok(E::Dyadic(op, Box::new(lhs), Box::new(rhs))),
        };
    }
    if matches!(lhs, E::Null) || matches!(rhs, E::Null) {
        return Ok(E::Null);
    }
    let (a, b) = match (as_literal(&lhs), as_literal(&rhs)) {
        (Some(a), Some(b)) => (a, b),
        _ => return Ok(E::Dyadic(op, Box::new(lhs), Box::new(rhs))),
    };
    if op.comparison() {
        match op {
            Op::Eq => Ok(E::Bool(a.eq(&b))),
            Op::Neq => Ok(E::Bool(!a.eq(&b))),
            Op::Lt => Ok(E::Bool(a.lt(&b))),
            Op::Gt => Ok(E::Bool(a.gt(&b))),
            Op::Lte => Ok(E::Bool(a.le(&b))),
            Op::Gte => Ok(E::Bool(a.ge(&b))),
            _ => Ok(E::Dyadic(op, Box::new(lhs), Box::new(rhs))),
        }
    } else if op.xtd_comparison() {
        match (op, a, b) {
            (Op::IsLike, Q::Str(x), Q::Str(y)) => Ok(E::Bool(QString::like(&x, &y))),
            (Op::IsNotLike, Q::Str(x), Q::Str(y)) => Ok(E::Bool(!QString::like(&x, &y))),
            _ => Err(runtime("Unexpected extended comparison operands")),
        }
    } else if op.arithmetic() {
        match (a, b) {
            (Q::Num(m), Q::Num(n)) => Ok(E::Num(host.arithmetic(op, &m, &n))),
            _ => Err(runtime("Expected numbers")),
        }
    } else if op.spatial() {
        match (a, b) {
            (Q::Geom(m), Q::Geom(n)) => match host.spatial(op, &m, &n) {
                Ok(x) => Ok(E::Bool(x)),
                Err(e) => Err(e),
            },
            _ => Err(runtime("Expected geometries")),
        }
    } else if op.temporal() {
        match eval_temporal(&op, &a, &b) {
            Ok(Q::Bool(x)) => Ok(E::Bool(x)),
            Ok(_) => Err(runtime("Unexpected temporal operands")),
            Err(e) => Err(e),
        }
    } else {
        match eval_array(&op, &a, &b) {
            Ok(Q::Bool(x)) => Ok(E::Bool(x)),
            Ok(_) => Err(runtime("Unexpected array operands")),
            Err(e) => Err(e),
        }
    }
}

/// Fold a monadic operator over its reduced operand.
fn fold_monadic<H: Host>(op: Op, v: E, host: &H) -> (r: Result<E, MyError>)
    ensures
        monadic_fold(host, op, v, r),
        wf(v) ==> (r matches Ok(e2) ==> wf(e2)),
{
    match op {
        Op::Minus => match v {
            E::Null => Ok(E::Null),
            E::Num(n) => Ok(E::Num(host.negate(&n))),
            _ => Ok(E::Monadic(op, Box::new(v))),
        },
        Op::Neg => match v {
            E::Null => Ok(E::Null),
            E::Bool(b) => Ok(E::Bool(!b)),
            _ => Ok(E::Monadic(op, Box::new(v))),
        },
        Op::IsNull => match v {
            E::Null => Ok(E::Bool(true)),
            _ => Ok(E::Monadic(op, Box::new(v))),
        },
        Op::IsNotNull => match v {
            E::Null => Ok(E::Bool(false)),
            _ => Ok(E::Monadic(op, Box::new(v))),
        },
        Op::CaseI => match v {
            E::Str(s) => Ok(E::Str(s.and_icase())),
            E::Monadic(Op::CaseI, z) => Ok(E::Monadic(Op::CaseI, z)),
            _ => Ok(E::Monadic(op, Box::new(v))),
        },
        Op::AccentI => match v {
            E::Str(s) => Ok(E::Str(s.and_iaccent())),
            E::Monadic(Op::AccentI, z) => Ok(E::Monadic(Op::AccentI, z)),
            _ => Ok(E::Monadic(op, Box::new(v))),
        },
        _ => Ok(E::Monadic(op, Box::new(v))),
    }
}

impl E {
    /// Partially evaluate this expression: fold the operators whose operands
    /// are literals (for example `1038290-2*2^0` becomes the single number
    /// `1038288`), asking the host for arithmetic and spatial relations.
    pub fn reduce<H: Host>(self, host: &H) -> (r: Result<E, MyError>)
        requires
            dyadic_ops(self),
        ensures
            reduces(host, self, r),
            wf(self) ==> (r matches Ok(e2) ==> wf(e2)),
            self is Array ==> (r matches Ok(e2) ==> (e2 is Array && e2->Array_0.len()
                == self->Array_0.len())),
        decreases self, 1nat,
    {
        let ghost e = self;
        match self {
            E::Monadic(op, x) => {
                let rx = (*x).reduce(host);
                proof {
                    assert(reduced(rx));
                }
                let v = match rx {
                    Err(er) => return Err(er),
                    Ok(v) => v,
                };
                fold_monadic(op, v, host)
            },
            E::Dyadic(op, x, y) => {
                let rx = (*x).reduce(host);
                proof {
                    assert(reduced(rx));
                }
                let lhs = match rx {
                    Err(er) => return Err(er),
                    Ok(v) => v,
                };
                let ry = (*y).reduce(host);
                proof {
                    assert(reduced(ry));
                }
                let rhs = match ry {
                    Err(er) => return Err(er),
                    Ok(v) => v,
                };
                fold_dyadic(op, lhs, rhs, host)
            },
            E::Function(name, params) => {
                let ghost v = params;
                match reduce_all(params, host) {
                    Ok(w) => Ok(E::Function(name, w)),
                    Err(er) => Err(er),
                }
            },
            E::Array(params) => {
                match reduce_all(params, host) {
                    Ok(w) => Ok(E::Array(w)),
                    Err(er) => Err(er),
                }
            },
            E::Interval(x, y) => {
                let rx = (*x).reduce(host);
                proof {
                    assert(reduced(rx));
                }
                let u = match rx {
                    Err(er) => return Err(er),
                    Ok(v) => v,
                };
                let ry = (*y).reduce(host);
                proof {
                    assert(reduced(ry));
                }
                let w = match ry {
                    Err(er) => return Err(er),
                    Ok(v) => v,
                };
                Ok(E::Interval(Box::new(u), Box::new(w)))
            },
            other => Ok(other),
        }
    }
}

/// Reduce a sequence of expressions in order, stopping at the first error.
fn reduce_all<H: Host>(xs: Vec<E>, host: &H) -> (r: Result<Vec<E>, MyError>)
    requires
        dyadic_ops_all(xs@),
    ensures
        exists|rl: Result<Seq<E>, MyError>|
            #[trigger] reduced_all(rl) && reduces_all(host, xs@, rl) && match rl {
                Err(er) => r == Err::<Vec<E>, MyError>(er),
                Ok(es) => r matches Ok(w) && w@ == es,
            },
        r matches Ok(w) ==> w.len() == xs.len(),
        wf_all(xs@) ==> (r matches Ok(w) ==> wf_all(w@)),
    decreases xs, 0nat,
{
    let ghost orig = xs;
    let ghost all = xs@;
    let mut out: Vec<E> = Vec::new();
    let mut rest = xs;
    let mut i: usize = 0;
    let mut err: Option<MyError> = None;
    assert(all.subrange(0, 0) == Seq::<E>::empty());
    assert(all.subrange(0, all.len() as int) == all);
    while rest.len() > 0 && err.is_none()
        invariant
            i + rest.len() == all.len(),
            rest@ == all.subrange(i as int, all.len() as int),
            all == orig@,
            orig == xs,
            all.len() == orig.len(),
            dyadic_ops_all(all),
            err is None ==> reduces_all(host, all.subrange(0, i as int), Ok::<Seq<E>, MyError>(out@)),
            err is None ==> out.len() == i,
            err is None ==> (wf_all(all) ==> wf_all(out@)),
            err matches Some(e) ==> reduces_all(host, all, Err::<Seq<E>, MyError>(e)),
        decreases rest.len(),
    {
        let x = rest.remove(0);
        proof {
            lemma_dyadic_ops_all(all, i as int);
            if wf_all(all) {
                lemma_wf_all(all, i as int);
            }
            assert(rest@ == all.subrange(i + 1, all.len() as int));
            assert(x == orig@[i as int]);
            assert(decreases_to!(orig => orig@));
            assert(decreases_to!(orig@ => orig@[i as int]));
        }
        let rx = x.reduce(host);
        let ghost prefix = all.subrange(0, i + 1);
        proof {
            assert(reduced(rx));
            assert(reduced_all(Ok::<Seq<E>, MyError>(out@)));
            assert(prefix.subrange(0, prefix.len() - 1) == all.subrange(0, i as int));
            assert(prefix[prefix.len() - 1] == all[i as int]);
        }
        match rx {
            Ok(v) => {
                let ghost before = out@;
                out.push(v);
                proof {
                    assert(out@.subrange(0, out@.len() - 1) == before);
                }
            },
            Err(er) => {
                proof {
                    lemma_reduce_error_extends(host, all, i + 1, er);
                }
                err = Some(er);
            },
        }
        i = i + 1;
    }
    match err {
        Some(er) => {
            proof {
                assert(reduced_all(Err::<Seq<E>, MyError>(er)));
            }
            Err(er)
        },
        None => {
            proof {
                assert(all.subrange(0, all.len() as int) == all);
                assert(reduced_all(Ok::<Seq<E>, MyError>(out@)));
            }
            Ok(out)
        },
    }
}


/// Whether an expression is a literal value: a boolean, number, string,
/// instant or geometry, or an array of literals (`NULL` and `..` are not).
pub open spec fn is_literal_spec(e: E) -> bool
    decreases e, 1nat,
{
    match e {
        E::Bool(_) | E::Num(_) | E::Str(_) | E::Date(_) | E::Timestamp(_) | E::Spatial(_) => true,
        E::Array(v) => all_literal(v@),
        _ => false,
    }
}

/// Whether every expression of a sequence is a literal value.
pub open spec fn all_literal(xs: Seq<E>) -> bool
    decreases xs, 0nat,
{
    if xs.len() == 0 {
        true
    } else {
        all_literal(xs.subrange(0, xs.len() - 1)) && is_literal_spec(xs[xs.len() - 1])
    }
}

impl E {
    /// Return TRUE if this is a literal value; FALSE otherwise.
    pub fn is_literal(&self) -> (r: bool)
        ensures
            r == is_literal_spec(*self),
        decreases self, 1nat,
    {
        match self {
            E::Bool(_) | E::Num(_) | E::Str(_) | E::Date(_) | E::Timestamp(_) | E::Spatial(_) => true,
            E::Array(v) => {
                let mut i: usize = 0;
                assert(v@.subrange(0, 0) == Seq::<E>::empty());
                while i < v.len()
                    invariant
                        i <= v.len(),
                        *self == E::Array(*v),
                        all_literal(v@.subrange(0, i as int)),
                    decreases v.len() - i,
                {
                    proof {
                        lemma_element_smaller(*self, *v, i as int);
                        let p = v@.subrange(0, i + 1);
                        assert(p.subrange(0, p.len() - 1) == v@.subrange(0, i as int));
                    }
                    if !v[i].is_literal() {
                        proof {
                            lemma_not_all_literal(v@, i as int);
                        }
                        return false;
                    }
                    i = i + 1;
                }
                assert(v@.subrange(0, v.len() as int) == v@);
                true
            },
            _ => false,
        }
    }

    /// Return TRUE if this is a property name; FALSE otherwise.
    pub fn is_id(&self) -> (r: bool)
        ensures
            r == (*self is Id),
    {
        matches!(self, E::Id(_))
    }

    /// Return TRUE if this is a literal value or a property name.
    pub fn is_literal_or_id(&self) -> (r: bool)
        ensures
            r == (is_literal_spec(*self) || *self is Id),
    {
        self.is_literal() || self.is_id()
    }

    /// Return TRUE if this is an interval; FALSE otherwise.
    pub fn is_interval(&self) -> (r: bool)
        ensures
            r == (*self is Interval),
    {
        matches!(self, E::Interval(_, _))
    }

    /// The property name of this, if it is one.
    pub fn as_id(&self) -> (r: Option<&str>)
        ensures
            *self matches E::Id(x) ==> (r matches Some(s) && s@ == x@),
            !(*self is Id) ==> r is None,
    {
        match self {
            E::Id(x) => Some(x.as_str()),
            _ => None,
        }
    }

    /// The two limits of this, if it is an interval.
    pub fn as_interval(&self) -> (r: Option<(&E, &E)>)
        ensures
            *self matches E::Interval(x, y) ==> r == Some((&*x, &*y)),
            !(*self is Interval) ==> r is None,
    {
        match self {
            E::Interval(x, y) => Some((&**x, &**y)),
            _ => None,
        }
    }
}

/// A sequence that holds a non-literal is not all literal, nor is any
/// sequence that starts with it.
proof fn lemma_not_all_literal(xs: Seq<E>, i: int)
    requires
        0 <= i < xs.len(),
        !is_literal_spec(xs[i]),
    ensures
        !all_literal(xs),
    decreases xs.len(),
{
    if i < xs.len() - 1 {
        lemma_not_all_literal(xs.subrange(0, xs.len() - 1), i);
    }
}


/// How the literals that this library holds by a stand-in are written: the
/// numbers and the geometries (as WKT), which the caller renders. Each text
/// is a function of the value, named by a spec function of the renderer
/// that gives what its method gives.
pub trait Render {
    /// The text of a number.
    spec fn num_string(&self, n: Num) -> String;

    /// The text of a geometry.
    spec fn geom_string(&self, g: Geom) -> String;

    /// The text of a number.
    fn num_text(&self, n: &Num) -> (r: String)
        ensures
            r@ == self.num_string(*n)@,
    ;

    /// The text of a geometry.
    fn geom_text(&self, g: &Geom) -> (r: String)
        ensures
            r@ == self.geom_string(*g)@,
    ;
}

/// Whether an expression can be written: the bounds of `[NOT] BETWEEN` are
/// an array of at least two expressions.
pub open spec fn renderable(e: E) -> bool
    decreases e, 1nat,
{
    match e {
        E::Monadic(_, x) => renderable(*x),
        E::Dyadic(op, x, y) => renderable(*x) && renderable(*y) && ((op is IsBetween
            || op is IsNotBetween) ==> (*y matches E::Array(v) && v.len() >= 2)),
        E::Function(_, v) => renderable_all(v@),
        E::Array(v) => renderable_all(v@),
        E::Interval(x, y) => renderable(*x) && renderable(*y),
        _ => true,
    }
}

/// Whether every expression of a sequence is [renderable].
pub open spec fn renderable_all(xs: Seq<E>) -> bool
    decreases xs, 0nat,
{
    if xs.len() == 0 {
        true
    } else {
        renderable_all(xs.subrange(0, xs.len() - 1)) && renderable(xs[xs.len() - 1])
    }
}

proof fn lemma_renderable_all(xs: Seq<E>, i: int)
    requires
        renderable_all(xs),
        0 <= i < xs.len(),
    ensures
        renderable(xs[i]),
    decreases xs.len(),
{
    if i < xs.len() - 1 {
        lemma_renderable_all(xs.subrange(0, xs.len() - 1), i);
    }
}

/// A possible text of some expression.
pub open spec fn written(t: Seq<char>) -> bool {
    true
}

/// A possible list of texts of some expressions.
pub open spec fn written_all(t: Seq<Seq<char>>) -> bool {
    true
}

/// Texts joined by `", "`.
pub open spec fn joined(ts: Seq<Seq<char>>) -> Seq<char>
    decreases ts.len(),
{
    if ts.len() == 0 {
        Seq::empty()
    } else if ts.len() == 1 {
        ts[0]
    } else {
        joined(ts.subrange(0, ts.len() - 1)) + ", "@ + ts[ts.len() - 1]
    }
}

/// Whether `t` is the text of `e`, numbers and geometries as the renderer
/// writes them, instants as their civil date, or date and time, in UTC: keywords and names are written as
/// they are, strings between single quotes, operators by their text (`x IS
/// NULL`, `CASEI(x)`, `a BETWEEN lo AND hi`, `T_AFTER(a, b)`, `a + b`, with
/// the right operand in parentheses unless it is a literal), calls and
/// arrays with their members separated by commas, and intervals as
/// `[a .. b]`.
pub open spec fn writes<R: Render>(render: &R, e: E, t: Seq<char>) -> bool
    decreases e, 1nat,
{
    match e {
        E::Null => t == "NULL"@,
        E::Unbounded => t == ".."@,
        E::Bool(b) => t == (if b { "TRUE"@ } else { "FALSE"@ }),
        E::Num(n) => t == render.num_string(n)@,
        E::Spatial(g) => t == render.geom_string(g)@,
        E::Date(z) => t == crate::bound::date_chars(z),
        E::Timestamp(z) => t == crate::bound::timestamp_chars(z),
        E::Str(x) => t == "'/"@ + x.text() + flags_text(x.flag_bits()) + "'"@,
        E::Id(x) => t == x@,
        E::Monadic(op, x) => exists|tx: Seq<char>|
            #[trigger] written(tx) && writes(render, *x, tx) && t == (if op.is_nullable() {
                tx + " "@ + op.text_spec()@
            } else {
                op.text_spec()@ + "("@ + tx + ")"@
            }),
        E::Dyadic(op, a, b) => exists|ta: Seq<char>|
            #[trigger] written(ta) && writes(render, *a, ta) && if op is IsBetween || op is IsNotBetween {
                match *b {
                    E::Array(v) => exists|ts: Seq<Seq<char>>|
                        #[trigger] written_all(ts) && writes_all(render, v@, ts) && t == ta + " "@
                            + op.text_spec()@ + " "@ + ts[0] + " AND "@ + ts[1],
                    _ => false,
                }
            } else {
                exists|tb: Seq<char>|
                    #[trigger] written(tb) && writes(render, *b, tb) && t == (if op.is_array() || op.is_spatial()
                        || op.is_temporal() {
                        op.text_spec()@ + "("@ + ta + ", "@ + tb + ")"@
                    } else if is_literal_spec(*b) {
                        ta + " "@ + op.text_spec()@ + " "@ + tb
                    } else {
                        ta + " "@ + op.text_spec()@ + " ("@ + tb + ")"@
                    })
            },
        E::Function(name, v) => exists|ts: Seq<Seq<char>>|
            #[trigger] written_all(ts) && writes_all(render, v@, ts) && t == name@ + "("@ + joined(ts)
                + ")"@,
        E::Array(v) => exists|ts: Seq<Seq<char>>|
            #[trigger] written_all(ts) && writes_all(render, v@, ts) && t == "["@ + joined(ts) + "]"@,
        E::Interval(x, y) => exists|tx: Seq<char>, ty: Seq<char>|
            #[trigger] written(tx) && #[trigger] written(ty) && writes(render, *x, tx) && writes(render, *y, ty) && t
                == "["@ + tx + " .. "@ + ty + "]"@,
    }
}

/// Whether `ts` are possible texts of the expressions `xs`, in order.
pub open spec fn writes_all<R: Render>(render: &R, xs: Seq<E>, ts: Seq<Seq<char>>) -> bool
    decreases xs, 0nat,
{
    if xs.len() == 0 {
        ts.len() == 0
    } else {
        ts.len() == xs.len() && writes_all(render, xs.subrange(0, xs.len() - 1), ts.subrange(0, ts.len() - 1))
            && writes(render, xs[xs.len() - 1], ts[ts.len() - 1])
    }
}

pub(crate) fn cat_all(parts: &Vec<String>) -> (r: String)
    ensures
        r@ == joined(parts@.map_values(|p: String| p@)),
{
    let mut r = String::new();
    let mut i: usize = 0;
    let ghost views = parts@.map_values(|p: String| p@);
    while i < parts.len()
        invariant
            i <= parts.len(),
            views == parts@.map_values(|p: String| p@),
            r@ == joined(views.subrange(0, i as int)),
        decreases parts.len() - i,
    {
        proof {
            let w = views.subrange(0, i + 1);
            assert(w.subrange(0, w.len() - 1) == views.subrange(0, i as int));
        }
        if i > 0 {
            r.append(", ");
        } else {
            proof {
                assert(views.subrange(0, 0).len() == 0);
            }
        }
        r.append(parts[i].as_str());
        i = i + 1;
    }
    assert(views.subrange(0, parts.len() as int) == views);
    r
}

impl E {
    /// Write this expression as text, with the renderer's text for numbers,
    /// geometries and instants.
    pub fn to_text<R: Render>(&self, render: &R) -> (t: String)
        requires
            renderable(*self),
        ensures
            writes(render, *self, t@),
        decreases self, 1nat,
    {
        match self {
            E::Null => "NULL".to_string(),
            E::Unbounded => "..".to_string(),
            E::Bool(b) => if *b {
                "TRUE".to_string()
            } else {
                "FALSE".to_string()
            },
            E::Num(n) => render.num_text(n),
            E::Str(x) => {
                let mut t = "'".to_string();
                let inner = x.to_string();
                t.append(inner.as_str());
                t.append("'");
                proof {
                    reveal_strlit("'");
                    reveal_strlit("'/");
                    assert(t@ == "'/"@ + x.text() + flags_text(x.flag_bits()) + "'"@);
                }
                t
            },
            E::Date(z) => crate::bound::date_text(*z),
            E::Timestamp(z) => crate::bound::timestamp_text(*z),
            E::Spatial(g) => render.geom_text(g),
            E::Id(x) => x.clone(),
            E::Monadic(op, x) => {
                let tx = x.to_text(render);
                proof {
                    assert(written(tx@));
                }
                if op.nullable() {
                    let mut t = tx;
                    t.append(" ");
                    t.append(op.text());
                    t
                } else {
                    let mut t = op.text().to_string();
                    t.append("(");
                    t.append(tx.as_str());
                    t.append(")");
                    t
                }
            },
            E::Dyadic(op, a, b) => {
                let ta = a.to_text(render);
                proof {
                    assert(written(ta@));
                }
                if matches!(op, Op::IsBetween) || matches!(op, Op::IsNotBetween) {
                    proof {
                        assert(renderable(**b));
                    }
                    match &**b {
                        E::Array(v) => {
                            proof {
                                assert(decreases_to!(*self => **b));
                            }
                            let parts = texts(&**b, v, render);
                            proof {
                                lemma_writes_all_len(render, v@, parts@.map_values(|p: String| p@));
                                assert(written_all(parts@.map_values(|p: String| p@)));
                            }
                            let mut t = ta;
                            t.append(" ");
                            t.append(op.text());
                            t.append(" ");
                            t.append(parts[0].as_str());
                            t.append(" AND ");
                            t.append(parts[1].as_str());
                            t
                        },
                        _ => {
                            proof {
                                assert(false);
                            }
                            String::new()
                        },
                    }
                } else {
                    let tb = b.to_text(render);
                    proof {
                        assert(written(tb@));
                    }
                    if op.array() || op.spatial() || op.temporal() {
                        let mut t = op.text().to_string();
                        t.append("(");
                        t.append(ta.as_str());
                        t.append(", ");
                        t.append(tb.as_str());
                        t.append(")");
                        t
                    } else if b.is_literal() {
                        let mut t = ta;
                        t.append(" ");
                        t.append(op.text());
                        t.append(" ");
                        t.append(tb.as_str());
                        t
                    } else {
                        let mut t = ta;
                        t.append(" ");
                        t.append(op.text());
                        t.append(" (");
                        t.append(tb.as_str());
                        t.append(")");
                        t
                    }
                }
            },
            E::Function(name, v) => {
                let parts = texts(self, v, render);
                let mut t = name.clone();
                t.append("(");
                let j = cat_all(&parts);
                t.append(j.as_str());
                t.append(")");
                proof {
                    assert(written_all(parts@.map_values(|p: String| p@)));
                }
                t
            },
            E::Array(v) => {
                let parts = texts(self, v, render);
                let mut t = "[".to_string();
                let j = cat_all(&parts);
                t.append(j.as_str());
                t.append("]");
                proof {
                    assert(written_all(parts@.map_values(|p: String| p@)));
                }
                t
            },
            E::Interval(x, y) => {
                let tx = x.to_text(render);
                let ty = y.to_text(render);
                proof {
                    assert(written(tx@));
                    assert(written(ty@));
                }
                let mut t = "[".to_string();
                t.append(tx.as_str());
                t.append(" .. ");
                t.append(ty.as_str());
                t.append("]");
                t
            },
        }
    }
}

/// Texts of a sequence are as many as its expressions.
proof fn lemma_writes_all_len<R: Render>(render: &R, xs: Seq<E>, ts: Seq<Seq<char>>)
    requires
        writes_all(render, xs, ts),
    ensures
        ts.len() == xs.len(),
{
}

/// The texts of the members of a call or an array.
fn texts<R: Render>(e: &E, v: &Vec<E>, render: &R) -> (r: Vec<String>)
    requires
        (*e is Array && e->Array_0 == *v) || (*e is Function && e->Function_1 == *v),
        renderable_all(v@),
    ensures
        writes_all(render, v@, r@.map_values(|p: String| p@)),
    decreases e, 0nat,
{
    let mut r: Vec<String> = Vec::new();
    let mut i: usize = 0;
    while i < v.len()
        invariant
            i <= v.len(),
            r.len() == i,
            (*e is Array && e->Array_0 == *v) || (*e is Function && e->Function_1 == *v),
            renderable_all(v@),
            writes_all(render, v@.subrange(0, i as int), r@.map_values(|p: String| p@)),
        decreases v.len() - i,
    {
        proof {
            lemma_element_smaller(*e, *v, i as int);
            lemma_renderable_all(v@, i as int);
        }
        let t = v[i].to_text(render);
        let ghost before = r@.map_values(|p: String| p@);
        r.push(t);
        proof {
            let p = v@.subrange(0, i + 1);
            let ts = r@.map_values(|q: String| q@);
            assert(p.subrange(0, p.len() - 1) == v@.subrange(0, i as int));
            assert(ts.subrange(0, ts.len() - 1) == before);
            assert(ts[ts.len() - 1] == t@);
        }
        i = i + 1;
    }
    assert(v@.subrange(0, v.len() as int) == v@);
    r
}


/// A predicate or operation with a `NULL` operand evaluates to `NULL`
/// (OGC CQL2, requirement 3C for comparisons, and likewise for the extended
/// comparisons, arithmetic, spatial and temporal operators); `AND` and `OR`
/// follow their truth tables instead, and array operators need lists.
pub proof fn lemma_null_operand<H: Host>(host: &H, op: Op, z: Q, r: Result<Q, MyError>)
    requires
        op.is_comparison() || op.is_xtd_comparison() || op.is_arithmetic() || op.is_spatial()
            || op.is_temporal(),
        dyadic_ok(host, op, Q::Null, z, r) || dyadic_ok(host, op, z, Q::Null, r),
    ensures
        r == Ok::<Q, MyError>(Q::Null),
{
}

/// Reducing `NULL` or a literal leaves it as it is.
pub proof fn lemma_reduce_literal<H: Host>(host: &H, e: E, r: Result<E, MyError>)
    requires
        literal(e) is Some,
        reduces(host, e, r),
    ensures
        r == Ok::<E, MyError>(e),
{
}

proof fn lemma_not_wf_all(xs: Seq<E>, i: int)
    requires
        0 <= i < xs.len(),
        !wf(xs[i]),
    ensures
        !wf_all(xs),
    decreases xs.len(),
{
    if i < xs.len() - 1 {
        lemma_not_wf_all(xs.subrange(0, xs.len() - 1), i);
    }
}

proof fn lemma_not_dyadic_ops_all(xs: Seq<E>, i: int)
    requires
        0 <= i < xs.len(),
        !dyadic_ops(xs[i]),
    ensures
        !dyadic_ops_all(xs),
    decreases xs.len(),
{
    if i < xs.len() - 1 {
        lemma_not_dyadic_ops_all(xs.subrange(0, xs.len() - 1), i);
    }
}

proof fn lemma_not_renderable_all(xs: Seq<E>, i: int)
    requires
        0 <= i < xs.len(),
        !renderable(xs[i]),
    ensures
        !renderable_all(xs),
    decreases xs.len(),
{
    if i < xs.len() - 1 {
        lemma_not_renderable_all(xs.subrange(0, xs.len() - 1), i);
    }
}

/// Whether every member of a call or an array passes the check `which`
/// (0: [wf], 1: [dyadic_ops], 2: [renderable]).
fn members_pass(e: &E, v: &Vec<E>, which: u8) -> (r: bool)
    requires
        (*e is Array && e->Array_0 == *v) || (*e is Function && e->Function_1 == *v),
        which < 3,
    ensures
        which == 0 ==> r == wf_all(v@),
        which == 1 ==> r == dyadic_ops_all(v@),
        which == 2 ==> r == renderable_all(v@),
    decreases e, 0nat,
{
    let mut i: usize = 0;
    assert(v@.subrange(0, 0) == Seq::<E>::empty());
    while i < v.len()
        invariant
            i <= v.len(),
            which < 3,
            (*e is Array && e->Array_0 == *v) || (*e is Function && e->Function_1 == *v),
            which == 0 ==> wf_all(v@.subrange(0, i as int)),
            which == 1 ==> dyadic_ops_all(v@.subrange(0, i as int)),
            which == 2 ==> renderable_all(v@.subrange(0, i as int)),
        decreases v.len() - i,
    {
        proof {
            lemma_element_smaller(*e, *v, i as int);
            let p = v@.subrange(0, i + 1);
            assert(p.subrange(0, p.len() - 1) == v@.subrange(0, i as int));
        }
        let ok = if which == 0 {
            v[i].is_wf()
        } else if which == 1 {
            v[i].has_dyadic_ops()
        } else {
            v[i].is_renderable()
        };
        if !ok {
            proof {
                if which == 0 {
                    lemma_not_wf_all(v@, i as int);
                } else if which == 1 {
                    lemma_not_dyadic_ops_all(v@, i as int);
                } else {
                    lemma_not_renderable_all(v@, i as int);
                }
            }
            return false;
        }
        i = i + 1;
    }
    assert(v@.subrange(0, v.len() as int) == v@);
    true
}

impl E {
    /// Whether this expression can be evaluated (see [wf]).
    pub fn is_wf(&self) -> (r: bool)
        ensures
            r == wf(*self),
        decreases self, 1nat,
    {
        match self {
            E::Id(x) => {
                let v = crate::unicode::chars_of(x.as_str());
                proof {
                    reveal_strlit("\"");
                }
                if v.len() == 1 && v[0] == '"' {
                    assert(x@ =~= "\""@);
                    false
                } else {
                    assert(x@ != "\""@);
                    true
                }
            },
            E::Monadic(_, x) => x.is_wf(),
            E::Dyadic(_, x, y) => x.is_wf() && y.is_wf(),
            E::Function(_, v) => members_pass(self, v, 0),
            E::Array(v) => members_pass(self, v, 0),
            E::Interval(x, y) => x.is_wf() && y.is_wf(),
            _ => true,
        }
    }

    /// Whether every operator applied to two operands is one that takes two
    /// operands (see [dyadic_ops]).
    pub fn has_dyadic_ops(&self) -> (r: bool)
        ensures
            r == dyadic_ops(*self),
        decreases self, 1nat,
    {
        match self {
            E::Monadic(_, x) => x.has_dyadic_ops(),
            E::Dyadic(op, x, y) => dyadic(op) && x.has_dyadic_ops() && y.has_dyadic_ops(),
            E::Function(_, v) => members_pass(self, v, 1),
            E::Array(v) => members_pass(self, v, 1),
            E::Interval(x, y) => x.has_dyadic_ops() && y.has_dyadic_ops(),
            _ => true,
        }
    }

    /// Whether this expression can be written as text (see [renderable]).
    pub fn is_renderable(&self) -> (r: bool)
        ensures
            r == renderable(*self),
        decreases self, 1nat,
    {
        match self {
            E::Monadic(_, x) => x.is_renderable(),
            E::Dyadic(op, x, y) => {
                if !x.is_renderable() || !y.is_renderable() {
                    return false;
                }
                if matches!(op, Op::IsBetween) || matches!(op, Op::IsNotBetween) {
                    match &**y {
                        E::Array(v) => v.len() >= 2,
                        _ => false,
                    }
                } else {
                    true
                }
            },
            E::Function(_, v) => members_pass(self, v, 2),
            E::Array(v) => members_pass(self, v, 2),
            E::Interval(x, y) => x.is_renderable() && y.is_renderable(),
            _ => true,
        }
    }
}

} // verus!
