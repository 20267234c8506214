//! Laws of evaluation over whole expressions: what the value of an
//! operator node is, given values of its operands, and which rewritings of
//! an expression keep its value.
//!
//! Evaluation is stated as a relation ([evals]), since a registered
//! function may answer differently from one call to the next; each law
//! below holds of every outcome.

use crate::error::MyError;
use crate::eval::{
    comparison_spec, from_truth, is_logical, kleene_and, kleene_or,
    lemma_interval_converse, lemma_logic_commutative, lemma_temporal_converse, temporal_spec,
    truth,
};
use crate::expr::{
    dyadic_fold, dyadic_ok, evals, evals_all, is_dyadic, literal, monadic_fold, monadic_ok,
    outcome, outcomes, reduced, reduced_all, reduces, reduces_all, runtime_err, Host, E,
};
use crate::op::Op;
use crate::queryable::Q;
use vstd::prelude::*;

verus! {

/// The converse of a temporal operator: the one that holds of the operands
/// swapped. `T_EQUALS`, `T_INTERSECTS` and `T_DISJOINT` are their own.
pub open spec fn converse(op: Op) -> Op {
    match op {
        Op::TAfter => Op::TBefore,
        Op::TBefore => Op::TAfter,
        Op::TContains => Op::TDuring,
        Op::TDuring => Op::TContains,
        Op::TFinishedBy => Op::TFinishes,
        Op::TFinishes => Op::TFinishedBy,
        Op::TMeets => Op::TMetBy,
        Op::TMetBy => Op::TMeets,
        Op::TOverlaps => Op::TOverlappedBy,
        Op::TOverlappedBy => Op::TOverlaps,
        Op::TStartedBy => Op::TStarts,
        Op::TStarts => Op::TStartedBy,
        _ => op,
    }
}

/// A dyadic node whose operands have the values `a` and `b` has every
/// outcome its operator's rules give on them.
proof fn lemma_dyadic_from<H: Host>(
    host: &H,
    op: Op,
    x: E,
    y: E,
    a: Q,
    b: Q,
    r: Result<Q, MyError>,
)
    requires
        is_dyadic(op),
        !op.is_array(),
        evals(host, x, Ok::<Q, MyError>(a)),
        evals(host, y, Ok::<Q, MyError>(b)),
        dyadic_ok(host, op, a, b, r),
    ensures
        evals(host, E::Dyadic(op, Box::new(x), Box::new(y)), r),
{
    assert(outcome(Ok::<Q, MyError>(a)));
    assert(outcome(Ok::<Q, MyError>(b)));
}

/// The operand values behind a value of a dyadic node.
proof fn lemma_dyadic_parts<H: Host>(host: &H, op: Op, x: E, y: E, q: Q) -> (ab: (Q, Q))
    requires
        evals(host, E::Dyadic(op, Box::new(x), Box::new(y)), Ok::<Q, MyError>(q)),
        is_dyadic(op),
        !op.is_array(),
    ensures
        evals(host, x, Ok::<Q, MyError>(ab.0)),
        evals(host, y, Ok::<Q, MyError>(ab.1)),
        dyadic_ok(host, op, ab.0, ab.1, Ok::<Q, MyError>(q)),
{
    let r = Ok::<Q, MyError>(q);
    let rx = choose|rx: Result<Q, MyError>|
        #[trigger] outcome(rx) && evals(host, x, rx) && match rx {
            Err(e) => r == Err::<Q, MyError>(e),
            Ok(zx) => if op.is_array() && !(zx is List) {
                runtime_err(r)
            } else {
                exists|ry: Result<Q, MyError>|
                    #[trigger] outcome(ry) && evals(host, y, ry) && match ry {
                        Err(e) => r == Err::<Q, MyError>(e),
                        Ok(zy) => dyadic_ok(host, op, zx, zy, r),
                    }
            },
        };
    let a = rx->Ok_0;
    let ry = choose|ry: Result<Q, MyError>|
        #[trigger] outcome(ry) && evals(host, y, ry) && match ry {
            Err(e) => r == Err::<Q, MyError>(e),
            Ok(zy) => dyadic_ok(host, op, a, zy, r),
        };
    (a, ry->Ok_0)
}

/// `x AND y` and `x OR y` have the value that the truth tables give on the
/// values of `x` and `y`, when both are booleans or `NULL`.
pub proof fn lemma_logic_expr<H: Host>(host: &H, op: Op, x: E, y: E, a: Q, b: Q)
    requires
        op is And || op is Or,
        evals(host, x, Ok::<Q, MyError>(a)),
        evals(host, y, Ok::<Q, MyError>(b)),
        is_logical(a),
        is_logical(b),
    ensures
        evals(
            host,
            E::Dyadic(op, Box::new(x), Box::new(y)),
            Ok::<Q, MyError>(
                from_truth(
                    if op is And {
                        kleene_and(truth(a), truth(b))
                    } else {
                        kleene_or(truth(a), truth(b))
                    },
                ),
            ),
        ),
{
    let q = from_truth(
        if op is And {
            kleene_and(truth(a), truth(b))
        } else {
            kleene_or(truth(a), truth(b))
        },
    );
    lemma_dyadic_from(host, op, x, y, a, b, Ok::<Q, MyError>(q));
}

/// `AND` and `OR` are commutative over expressions: every value of `x op y`
/// is a value of `y op x`.
pub proof fn lemma_logic_commutes_expr<H: Host>(host: &H, op: Op, x: E, y: E, q: Q)
    requires
        op is And || op is Or,
        evals(host, E::Dyadic(op, Box::new(x), Box::new(y)), Ok::<Q, MyError>(q)),
    ensures
        evals(host, E::Dyadic(op, Box::new(y), Box::new(x)), Ok::<Q, MyError>(q)),
{
    let (a, b) = lemma_dyadic_parts(host, op, x, y, q);
    lemma_logic_commutative(truth(a), truth(b));
    lemma_dyadic_from(host, op, y, x, b, a, Ok::<Q, MyError>(q));
}

/// A comparison has the value its rules give on the values of its operands
/// (`NULL` when one of them is `NULL`).
pub proof fn lemma_comparison_expr<H: Host>(host: &H, op: Op, x: E, y: E, a: Q, b: Q, q: Q)
    requires
        op.is_comparison(),
        evals(host, x, Ok::<Q, MyError>(a)),
        evals(host, y, Ok::<Q, MyError>(b)),
        comparison_spec(op, a, b) == Some(q),
    ensures
        evals(host, E::Dyadic(op, Box::new(x), Box::new(y)), Ok::<Q, MyError>(q)),
{
    lemma_dyadic_from(host, op, x, y, a, b, Ok::<Q, MyError>(q));
}

/// `NULL` absorbs: an arithmetic, spatial, temporal or extended comparison
/// operator with an operand of value `NULL` has the value `NULL`, whatever
/// the other operand is.
pub proof fn lemma_null_absorbs_expr<H: Host>(host: &H, op: Op, x: E, y: E, a: Q, b: Q)
    requires
        op.is_arithmetic() || op.is_spatial() || op.is_temporal() || op.is_xtd_comparison(),
        evals(host, x, Ok::<Q, MyError>(a)),
        evals(host, y, Ok::<Q, MyError>(b)),
        a is Null || b is Null,
    ensures
        evals(host, E::Dyadic(op, Box::new(x), Box::new(y)), Ok::<Q, MyError>(Q::Null)),
{
    lemma_dyadic_from(host, op, x, y, a, b, Ok::<Q, MyError>(Q::Null));
}

/// A temporal relation on two values is its converse on the values
/// swapped.
pub proof fn lemma_temporal_spec_converse(op: Op, a: Q, b: Q)
    requires
        op.is_temporal(),
    ensures
        temporal_spec(op, a, b) == temporal_spec(converse(op), b, a),
{
    match (a, b) {
        (Q::Interval(s1, e1), Q::Interval(s2, e2)) => {
            lemma_interval_converse(s1, e1, s2, e2);
            lemma_interval_converse(s2, e2, s1, e1);
        },
        _ => {},
    }
    match (crate::eval::temporal_parts(a), crate::eval::temporal_parts(b)) {
        (Some((i1, b0, b1)), Some((i2, b2, b3))) => {
            lemma_temporal_converse(i1, i2, b0, b1, b2, b3);
            lemma_temporal_converse(i2, i1, b2, b3, b0, b1);
        },
        _ => {},
    }
}

/// The temporal predicates come in converse pairs over expressions: every
/// value of `x T_CONTAINS y` is a value of `y T_DURING x`, and likewise for
/// `T_AFTER`/`T_BEFORE`, `T_FINISHEDBY`/`T_FINISHES`, `T_MEETS`/`T_METBY`,
/// `T_OVERLAPS`/`T_OVERLAPPEDBY` and `T_STARTEDBY`/`T_STARTS`; `T_EQUALS`,
/// `T_INTERSECTS` and `T_DISJOINT` do not depend on the order.
pub proof fn lemma_converse_expr<H: Host>(host: &H, op: Op, x: E, y: E, q: Q)
    requires
        op.is_temporal(),
        evals(host, E::Dyadic(op, Box::new(x), Box::new(y)), Ok::<Q, MyError>(q)),
    ensures
        evals(host, E::Dyadic(converse(op), Box::new(y), Box::new(x)), Ok::<Q, MyError>(q)),
{
    let (a, b) = lemma_dyadic_parts(host, op, x, y, q);
    lemma_temporal_spec_converse(op, a, b);
    lemma_dyadic_from(host, converse(op), y, x, b, a, Ok::<Q, MyError>(q));
}


/// Reduction is idempotent: what an expression reduces to reduces to
/// itself.
pub proof fn lemma_reduce_idempotent<H: Host>(host: &H, e: E, r: E)
    requires
        reduces(host, e, Ok::<E, MyError>(r)),
    ensures
        reduces(host, r, Ok::<E, MyError>(r)),
    decreases e, 1nat,
{
    let rr = Ok::<E, MyError>(r);
    match e {
        E::Monadic(op, x) => {
            let rx = choose|rx: Result<E, MyError>|
                #[trigger] reduced(rx) && reduces(host, *x, rx) && match rx {
                    Err(er) => rr == Err::<E, MyError>(er),
                    Ok(v) => monadic_fold(host, op, v, rr),
                };
            let v = rx->Ok_0;
            lemma_reduce_idempotent(host, *x, v);
            assert(reduced(Ok::<E, MyError>(v)));
        },
        E::Dyadic(op, x, y) => {
            let rx = choose|rx: Result<E, MyError>|
                #[trigger] reduced(rx) && reduces(host, *x, rx) && match rx {
                    Err(er) => rr == Err::<E, MyError>(er),
                    Ok(lhs) => exists|ry: Result<E, MyError>|
                        #[trigger] reduced(ry) && reduces(host, *y, ry) && match ry {
                            Err(er) => rr == Err::<E, MyError>(er),
                            Ok(rhs) => dyadic_fold(host, op, lhs, rhs, rr),
                        },
                };
            let lhs = rx->Ok_0;
            let ry = choose|ry: Result<E, MyError>|
                #[trigger] reduced(ry) && reduces(host, *y, ry) && match ry {
                    Err(er) => rr == Err::<E, MyError>(er),
                    Ok(rhs) => dyadic_fold(host, op, lhs, rhs, rr),
                };
            let rhs = ry->Ok_0;
            lemma_reduce_idempotent(host, *x, lhs);
            lemma_reduce_idempotent(host, *y, rhs);
            assert(reduced(Ok::<E, MyError>(lhs)));
            assert(reduced(Ok::<E, MyError>(rhs)));
        },
        E::Function(name, v) => {
            let rl = choose|rl: Result<Seq<E>, MyError>|
                #[trigger] reduced_all(rl) && reduces_all(host, v@, rl) && match rl {
                    Err(er) => rr == Err::<E, MyError>(er),
                    Ok(es) => rr matches Ok(E::Function(n, w)) && n == name && w@ == es,
                };
            let es = rl->Ok_0;
            lemma_reduce_idempotent_all(host, v@, es);
            assert(reduced_all(Ok::<Seq<E>, MyError>(es)));
        },
        E::Array(v) => {
            let rl = choose|rl: Result<Seq<E>, MyError>|
                #[trigger] reduced_all(rl) && reduces_all(host, v@, rl) && match rl {
                    Err(er) => rr == Err::<E, MyError>(er),
                    Ok(es) => rr matches Ok(E::Array(w)) && w@ == es,
                };
            let es = rl->Ok_0;
            lemma_reduce_idempotent_all(host, v@, es);
            assert(reduced_all(Ok::<Seq<E>, MyError>(es)));
        },
        E::Interval(x, y) => {
            let rx = choose|rx: Result<E, MyError>|
                #[trigger] reduced(rx) && reduces(host, *x, rx) && match rx {
                    Err(er) => rr == Err::<E, MyError>(er),
                    Ok(u) => exists|ry: Result<E, MyError>|
                        #[trigger] reduced(ry) && reduces(host, *y, ry) && match ry {
                            Err(er) => rr == Err::<E, MyError>(er),
                            Ok(w) => rr == Ok::<E, MyError>(E::Interval(Box::new(u), Box::new(w))),
                        },
                };
            let u = rx->Ok_0;
            let ry = choose|ry: Result<E, MyError>|
                #[trigger] reduced(ry) && reduces(host, *y, ry) && match ry {
                    Err(er) => rr == Err::<E, MyError>(er),
                    Ok(w) => rr == Ok::<E, MyError>(E::Interval(Box::new(u), Box::new(w))),
                };
            let w = ry->Ok_0;
            lemma_reduce_idempotent(host, *x, u);
            lemma_reduce_idempotent(host, *y, w);
            assert(reduced(Ok::<E, MyError>(u)));
            assert(reduced(Ok::<E, MyError>(w)));
        },
        _ => {},
    }
}

/// Reduction of a sequence is idempotent.
pub proof fn lemma_reduce_idempotent_all<H: Host>(host: &H, xs: Seq<E>, es: Seq<E>)
    requires
        reduces_all(host, xs, Ok::<Seq<E>, MyError>(es)),
    ensures
        reduces_all(host, es, Ok::<Seq<E>, MyError>(es)),
    decreases xs, 0nat,
{
    if xs.len() > 0 {
        let r = Ok::<Seq<E>, MyError>(es);
        let prefix = xs.subrange(0, xs.len() - 1);
        let rp = choose|rp: Result<Seq<E>, MyError>|
            #[trigger] reduced_all(rp) && reduces_all(host, prefix, rp) && match rp {
                Err(er) => r == Err::<Seq<E>, MyError>(er),
                Ok(ps) => exists|rx: Result<E, MyError>|
                    #[trigger] reduced(rx) && reduces(host, xs[xs.len() - 1], rx) && match rx {
                        Err(er) => r == Err::<Seq<E>, MyError>(er),
                        Ok(x) => r == Ok::<Seq<E>, MyError>(ps.push(x)),
                    },
            };
        let ps = rp->Ok_0;
        let rx = choose|rx: Result<E, MyError>|
            #[trigger] reduced(rx) && reduces(host, xs[xs.len() - 1], rx) && match rx {
                Err(er) => r == Err::<Seq<E>, MyError>(er),
                Ok(x) => r == Ok::<Seq<E>, MyError>(ps.push(x)),
            };
        let x = rx->Ok_0;
        lemma_reduce_idempotent_all(host, prefix, ps);
        lemma_reduce_idempotent(host, xs[xs.len() - 1], x);
        assert(es.subrange(0, es.len() - 1) == ps);
        assert(reduced_all(Ok::<Seq<E>, MyError>(ps)));
        assert(reduced(Ok::<E, MyError>(x)));
    }
}


/// The value of a literal expression is the queryable it stands for.
proof fn lemma_literal_value<H: Host>(host: &H, e: E, a: Q)
    requires
        literal(e) is Some,
        evals(host, e, Ok::<Q, MyError>(a)),
    ensures
        literal(e) == Some(a),
{
}

/// A sequence reduces to as many expressions as it has.
proof fn lemma_reduces_all_len<H: Host>(host: &H, xs: Seq<E>, es: Seq<E>)
    requires
        reduces_all(host, xs, Ok::<Seq<E>, MyError>(es)),
    ensures
        es.len() == xs.len(),
    decreases xs.len(),
{
    if xs.len() > 0 {
        let r = Ok::<Seq<E>, MyError>(es);
        let prefix = xs.subrange(0, xs.len() - 1);
        let rp = choose|rp: Result<Seq<E>, MyError>|
            #[trigger] reduced_all(rp) && reduces_all(host, prefix, rp) && match rp {
                Err(er) => r == Err::<Seq<E>, MyError>(er),
                Ok(ps) => exists|rx: Result<E, MyError>|
                    #[trigger] reduced(rx) && reduces(host, xs[xs.len() - 1], rx) && match rx {
                        Err(er) => r == Err::<Seq<E>, MyError>(er),
                        Ok(x) => r == Ok::<Seq<E>, MyError>(ps.push(x)),
                    },
            };
        lemma_reduces_all_len(host, prefix, rp->Ok_0);
    }
}

/// The operand values behind a value of a dyadic node, for any operator.
proof fn lemma_eval_dyadic_parts<H: Host>(host: &H, op: Op, x: E, y: E, q: Q) -> (ab: (Q, Q))
    requires
        evals(host, E::Dyadic(op, Box::new(x), Box::new(y)), Ok::<Q, MyError>(q)),
    ensures
        is_dyadic(op),
        evals(host, x, Ok::<Q, MyError>(ab.0)),
        evals(host, y, Ok::<Q, MyError>(ab.1)),
        op.is_array() ==> ab.0 is List,
        dyadic_ok(host, op, ab.0, ab.1, Ok::<Q, MyError>(q)),
{
    let r = Ok::<Q, MyError>(q);
    let rx = choose|rx: Result<Q, MyError>|
        #[trigger] outcome(rx) && evals(host, x, rx) && match rx {
            Err(e) => r == Err::<Q, MyError>(e),
            Ok(zx) => if op.is_array() && !(zx is List) {
                runtime_err(r)
            } else {
                exists|ry: Result<Q, MyError>|
                    #[trigger] outcome(ry) && evals(host, y, ry) && match ry {
                        Err(e) => r == Err::<Q, MyError>(e),
                        Ok(zy) => dyadic_ok(host, op, zx, zy, r),
                    }
            },
        };
    let a = rx->Ok_0;
    let ry = choose|ry: Result<Q, MyError>|
        #[trigger] outcome(ry) && evals(host, y, ry) && match ry {
            Err(e) => r == Err::<Q, MyError>(e),
            Ok(zy) => dyadic_ok(host, op, a, zy, r),
        };
    (a, ry->Ok_0)
}

/// The reduced operands behind a reduction of a dyadic node.
proof fn lemma_reduce_dyadic_parts<H: Host>(host: &H, op: Op, x: E, y: E, r: E) -> (lr: (E, E))
    requires
        reduces(host, E::Dyadic(op, Box::new(x), Box::new(y)), Ok::<E, MyError>(r)),
    ensures
        reduces(host, x, Ok::<E, MyError>(lr.0)),
        reduces(host, y, Ok::<E, MyError>(lr.1)),
        dyadic_fold(host, op, lr.0, lr.1, Ok::<E, MyError>(r)),
{
    let rr = Ok::<E, MyError>(r);
    let rx = choose|rx: Result<E, MyError>|
        #[trigger] reduced(rx) && reduces(host, x, rx) && match rx {
            Err(er) => rr == Err::<E, MyError>(er),
            Ok(lhs) => exists|ry: Result<E, MyError>|
                #[trigger] reduced(ry) && reduces(host, y, ry) && match ry {
                    Err(er) => rr == Err::<E, MyError>(er),
                    Ok(rhs) => dyadic_fold(host, op, lhs, rhs, rr),
                },
        };
    let lhs = rx->Ok_0;
    let ry = choose|ry: Result<E, MyError>|
        #[trigger] reduced(ry) && reduces(host, y, ry) && match ry {
            Err(er) => rr == Err::<E, MyError>(er),
            Ok(rhs) => dyadic_fold(host, op, lhs, rhs, rr),
        };
    (lhs, ry->Ok_0)
}

/// Reduction keeps values: when an expression reduces to `r` and has the
/// value `v`, `r` has the value `v` too.
pub proof fn lemma_reduce_keeps_value<H: Host>(host: &H, e: E, r: E, v: Q)
    requires
        reduces(host, e, Ok::<E, MyError>(r)),
        evals(host, e, Ok::<Q, MyError>(v)),
    ensures
        evals(host, r, Ok::<Q, MyError>(v)),
    decreases e, 1nat,
{
    let rr = Ok::<E, MyError>(r);
    let rv = Ok::<Q, MyError>(v);
    match e {
        E::Monadic(op, x) => {
            let rx = choose|rx: Result<E, MyError>|
                #[trigger] reduced(rx) && reduces(host, *x, rx) && match rx {
                    Err(er) => rr == Err::<E, MyError>(er),
                    Ok(w) => monadic_fold(host, op, w, rr),
                };
            let w = rx->Ok_0;
            let ex = choose|ex: Result<Q, MyError>|
                #[trigger] outcome(ex) && evals(host, *x, ex) && match ex {
                    Err(er) => rv == Err::<Q, MyError>(er),
                    Ok(zx) => monadic_ok(host, op, zx, rv),
                };
            let a = ex->Ok_0;
            lemma_reduce_keeps_value(host, *x, w, a);
            assert(outcome(Ok::<Q, MyError>(a)));
            if (op is CaseI || op is AccentI) && w is Monadic && w->Monadic_0 == op {
                let o2 = w->Monadic_0;
                let z = w->Monadic_1;
                let ez = choose|ez: Result<Q, MyError>|
                    #[trigger] outcome(ez) && evals(host, *z, ez) && match ez {
                        Err(er) => Ok::<Q, MyError>(a) == Err::<Q, MyError>(er),
                        Ok(zz) => monadic_ok(host, o2, zz, Ok::<Q, MyError>(a)),
                    };
                let c = ez->Ok_0->Str_0;
                c.lemma_marks_idempotent();
            }
        },
        E::Dyadic(op, x, y) => {
            let (lhs, rhs) = lemma_reduce_dyadic_parts(host, op, *x, *y, r);
            let (a, b) = lemma_eval_dyadic_parts(host, op, *x, *y, v);
            lemma_reduce_keeps_value(host, *x, lhs, a);
            lemma_reduce_keeps_value(host, *y, rhs, b);
            assert(outcome(Ok::<Q, MyError>(a)));
            assert(outcome(Ok::<Q, MyError>(b)));
            if literal(lhs) is Some {
                lemma_literal_value(host, lhs, a);
            }
            if literal(rhs) is Some {
                lemma_literal_value(host, rhs, b);
            }
        },
        E::Function(name, vs) => {
            let rl = choose|rl: Result<Seq<E>, MyError>|
                #[trigger] reduced_all(rl) && reduces_all(host, vs@, rl) && match rl {
                    Err(er) => rr == Err::<E, MyError>(er),
                    Ok(es) => rr matches Ok(E::Function(n, w)) && n == name && w@ == es,
                };
            let es = rl->Ok_0;
            lemma_reduces_all_len(host, vs@, es);
            match host.info(name) {
                None => {},
                Some(i) => {
                    if vs.len() == i.args_spec().len() {
                        let el = choose|el: Result<Seq<Q>, MyError>|
                            #[trigger] outcomes(el) && evals_all(host, vs@, el) && match el {
                                Err(er) => rv == Err::<Q, MyError>(er),
                                Ok(qs) => crate::expr::applies(host, name, i, qs, rv),
                            };
                        let qs = el->Ok_0;
                        lemma_reduce_keeps_value_all(host, vs@, es, qs);
                        assert(outcomes(Ok::<Seq<Q>, MyError>(qs)));
                    }
                },
            }
        },
        E::Array(vs) => {
            let rl = choose|rl: Result<Seq<E>, MyError>|
                #[trigger] reduced_all(rl) && reduces_all(host, vs@, rl) && match rl {
                    Err(er) => rr == Err::<E, MyError>(er),
                    Ok(es) => rr matches Ok(E::Array(w)) && w@ == es,
                };
            let es = rl->Ok_0;
            let el = choose|el: Result<Seq<Q>, MyError>|
                #[trigger] outcomes(el) && evals_all(host, vs@, el) && match el {
                    Err(er) => rv == Err::<Q, MyError>(er),
                    Ok(qs) => rv matches Ok(Q::List(w)) && w@ == qs,
                };
            let qs = el->Ok_0;
            lemma_reduce_keeps_value_all(host, vs@, es, qs);
            assert(outcomes(Ok::<Seq<Q>, MyError>(qs)));
        },
        E::Interval(x, y) => {
            let rx = choose|rx: Result<E, MyError>|
                #[trigger] reduced(rx) && reduces(host, *x, rx) && match rx {
                    Err(er) => rr == Err::<E, MyError>(er),
                    Ok(u) => exists|ry: Result<E, MyError>|
                        #[trigger] reduced(ry) && reduces(host, *y, ry) && match ry {
                            Err(er) => rr == Err::<E, MyError>(er),
                            Ok(w) => rr == Ok::<E, MyError>(E::Interval(Box::new(u), Box::new(w))),
                        },
                };
            let u = rx->Ok_0;
            let ry = choose|ry: Result<E, MyError>|
                #[trigger] reduced(ry) && reduces(host, *y, ry) && match ry {
                    Err(er) => rr == Err::<E, MyError>(er),
                    Ok(w) => rr == Ok::<E, MyError>(E::Interval(Box::new(u), Box::new(w))),
                };
            let w = ry->Ok_0;
            let ex = choose|ex: Result<Q, MyError>|
                #[trigger] outcome(ex) && evals(host, *x, ex) && match ex {
                    Err(er) => rv == Err::<Q, MyError>(er),
                    Ok(xx) => exists|ey: Result<Q, MyError>|
                        #[trigger] outcome(ey) && evals(host, *y, ey) && match ey {
                            Err(er) => rv == Err::<Q, MyError>(er),
                            Ok(yy) => rv == Ok::<Q, MyError>(
                                match (crate::eval::bound_of(xx), crate::eval::bound_of(yy)) {
                                    (Some(p), Some(q)) => Q::Interval(p, q),
                                    _ => Q::Null,
                                },
                            ),
                        },
                };
            let xx = ex->Ok_0;
            let ey = choose|ey: Result<Q, MyError>|
                #[trigger] outcome(ey) && evals(host, *y, ey) && match ey {
                    Err(er) => rv == Err::<Q, MyError>(er),
                    Ok(yy) => rv == Ok::<Q, MyError>(
                        match (crate::eval::bound_of(xx), crate::eval::bound_of(yy)) {
                            (Some(p), Some(q)) => Q::Interval(p, q),
                            _ => Q::Null,
                        },
                    ),
                };
            let yy = ey->Ok_0;
            lemma_reduce_keeps_value(host, *x, u, xx);
            lemma_reduce_keeps_value(host, *y, w, yy);
            assert(outcome(Ok::<Q, MyError>(xx)));
            assert(outcome(Ok::<Q, MyError>(yy)));
        },
        _ => {},
    }
}

/// Reduction keeps the values of a sequence of expressions.
pub proof fn lemma_reduce_keeps_value_all<H: Host>(host: &H, xs: Seq<E>, es: Seq<E>, qs: Seq<Q>)
    requires
        reduces_all(host, xs, Ok::<Seq<E>, MyError>(es)),
        evals_all(host, xs, Ok::<Seq<Q>, MyError>(qs)),
    ensures
        evals_all(host, es, Ok::<Seq<Q>, MyError>(qs)),
    decreases xs, 0nat,
{
    if xs.len() > 0 {
        let r = Ok::<Seq<E>, MyError>(es);
        let rq = Ok::<Seq<Q>, MyError>(qs);
        let prefix = xs.subrange(0, xs.len() - 1);
        let rp = choose|rp: Result<Seq<E>, MyError>|
            #[trigger] reduced_all(rp) && reduces_all(host, prefix, rp) && match rp {
                Err(er) => r == Err::<Seq<E>, MyError>(er),
                Ok(ps) => exists|rx: Result<E, MyError>|
                    #[trigger] reduced(rx) && reduces(host, xs[xs.len() - 1], rx) && match rx {
                        Err(er) => r == Err::<Seq<E>, MyError>(er),
                        Ok(x) => r == Ok::<Seq<E>, MyError>(ps.push(x)),
                    },
            };
        let ps = rp->Ok_0;
        let rx = choose|rx: Result<E, MyError>|
            #[trigger] reduced(rx) && reduces(host, xs[xs.len() - 1], rx) && match rx {
                Err(er) => r == Err::<Seq<E>, MyError>(er),
                Ok(x) => r == Ok::<Seq<E>, MyError>(ps.push(x)),
            };
        let x = rx->Ok_0;
        let ep = choose|ep: Result<Seq<Q>, MyError>|
            #[trigger] outcomes(ep) && evals_all(host, prefix, ep) && match ep {
                Err(er) => rq == Err::<Seq<Q>, MyError>(er),
                Ok(pq) => exists|ex: Result<Q, MyError>|
                    #[trigger] outcome(ex) && evals(host, xs[xs.len() - 1], ex) && match ex {
                        Err(er) => rq == Err::<Seq<Q>, MyError>(er),
                        Ok(q) => rq == Ok::<Seq<Q>, MyError>(pq.push(q)),
                    },
            };
        let pq = ep->Ok_0;
        let ex = choose|ex: Result<Q, MyError>|
            #[trigger] outcome(ex) && evals(host, xs[xs.len() - 1], ex) && match ex {
                Err(er) => rq == Err::<Seq<Q>, MyError>(er),
                Ok(q) => rq == Ok::<Seq<Q>, MyError>(pq.push(q)),
            };
        let q = ex->Ok_0;
        lemma_reduce_keeps_value_all(host, prefix, ps, pq);
        lemma_reduce_keeps_value(host, xs[xs.len() - 1], x, q);
        assert(es.subrange(0, es.len() - 1) == ps);
        assert(outcomes(Ok::<Seq<Q>, MyError>(pq)));
        assert(outcome(Ok::<Q, MyError>(q)));
    }
}


/// The values of a sequence of expressions are the values of its members,
/// in order.
pub proof fn lemma_evals_all_members<H: Host>(host: &H, xs: Seq<E>, qs: Seq<Q>)
    requires
        evals_all(host, xs, Ok::<Seq<Q>, MyError>(qs)),
    ensures
        qs.len() == xs.len(),
        forall|i: int| 0 <= i < xs.len() ==> evals(host, #[trigger] xs[i], Ok::<Q, MyError>(qs[i])),
    decreases xs.len(),
{
    if xs.len() > 0 {
        let rq = Ok::<Seq<Q>, MyError>(qs);
        let prefix = xs.subrange(0, xs.len() - 1);
        let ep = choose|ep: Result<Seq<Q>, MyError>|
            #[trigger] outcomes(ep) && evals_all(host, prefix, ep) && match ep {
                Err(er) => rq == Err::<Seq<Q>, MyError>(er),
                Ok(pq) => exists|ex: Result<Q, MyError>|
                    #[trigger] outcome(ex) && evals(host, xs[xs.len() - 1], ex) && match ex {
                        Err(er) => rq == Err::<Seq<Q>, MyError>(er),
                        Ok(q) => rq == Ok::<Seq<Q>, MyError>(pq.push(q)),
                    },
            };
        let pq = ep->Ok_0;
        lemma_evals_all_members(host, prefix, pq);
        assert forall|i: int| 0 <= i < xs.len() implies evals(
            host,
            #[trigger] xs[i],
            Ok::<Q, MyError>(qs[i]),
        ) by {
            if i < xs.len() - 1 {
                assert(prefix[i] == xs[i]);
            }
        }
    }
}

/// Whether an expression has at most one value: every function it calls,
/// if any, answers alike.
pub open spec fn single_valued<H: Host>(host: &H, e: E) -> bool {
    forall|a: Q, b: Q|
        evals(host, e, Ok::<Q, MyError>(a)) && evals(host, e, Ok::<Q, MyError>(b)) ==> a == b
}

/// The bounds of `[NOT] BETWEEN` may be given in either order: when the
/// operand and each bound have one value, `x BETWEEN lo AND hi` and
/// `x BETWEEN hi AND lo` have the same value.
pub proof fn lemma_between_bounds_swap<H: Host>(
    host: &H,
    op: Op,
    x: E,
    v1: Vec<E>,
    v2: Vec<E>,
    q1: Q,
    q2: Q,
)
    requires
        op is IsBetween || op is IsNotBetween,
        v1.len() == 2,
        v2@ == seq![v1@[1], v1@[0]],
        single_valued(host, x),
        single_valued(host, v1@[0]),
        single_valued(host, v1@[1]),
        evals(host, E::Dyadic(op, Box::new(x), Box::new(E::Array(v1))), Ok::<Q, MyError>(q1)),
        evals(host, E::Dyadic(op, Box::new(x), Box::new(E::Array(v2))), Ok::<Q, MyError>(q2)),
    ensures
        q1 == q2,
{
    let (a1, b1) = lemma_eval_dyadic_parts(host, op, x, E::Array(v1), q1);
    let (a2, b2) = lemma_eval_dyadic_parts(host, op, x, E::Array(v2), q2);
    let rl1 = choose|rl: Result<Seq<Q>, MyError>|
        #[trigger] outcomes(rl) && evals_all(host, v1@, rl) && match rl {
            Err(e) => Ok::<Q, MyError>(b1) == Err::<Q, MyError>(e),
            Ok(qs) => Ok::<Q, MyError>(b1) matches Ok(Q::List(w)) && w@ == qs,
        };
    let rl2 = choose|rl: Result<Seq<Q>, MyError>|
        #[trigger] outcomes(rl) && evals_all(host, v2@, rl) && match rl {
            Err(e) => Ok::<Q, MyError>(b2) == Err::<Q, MyError>(e),
            Ok(qs) => Ok::<Q, MyError>(b2) matches Ok(Q::List(w)) && w@ == qs,
        };
    let qs1 = rl1->Ok_0;
    let qs2 = rl2->Ok_0;
    lemma_evals_all_members(host, v1@, qs1);
    lemma_evals_all_members(host, v2@, qs2);
    assert(evals(host, v1@[0], Ok::<Q, MyError>(qs1[0])));
    assert(evals(host, v1@[1], Ok::<Q, MyError>(qs1[1])));
    assert(evals(host, v2@[0], Ok::<Q, MyError>(qs2[0])));
    assert(evals(host, v2@[1], Ok::<Q, MyError>(qs2[1])));
    assert(qs2[0] == qs1[1]);
    assert(qs2[1] == qs1[0]);
    assert(a1 == a2);
    match (a1, qs1[0], qs1[1]) {
        (Q::Num(v), Q::Num(l), Q::Num(h)) => {
            assert(crate::eval::in_range(v, l, h) == crate::eval::in_range(v, h, l));
        },
        _ => {},
    }
}

/// Whether every function an expression calls is registered with the host.
pub open spec fn calls_known<H: Host>(host: &H, e: E) -> bool
    decreases e, 1nat,
{
    match e {
        E::Monadic(_, x) => calls_known(host, *x),
        E::Dyadic(_, x, y) => calls_known(host, *x) && calls_known(host, *y),
        E::Function(name, v) => host.info(name) is Some && calls_known_all(host, v@),
        E::Array(v) => calls_known_all(host, v@),
        E::Interval(x, y) => calls_known(host, *x) && calls_known(host, *y),
        _ => true,
    }
}

/// Whether every function the expressions of a sequence call is registered.
pub open spec fn calls_known_all<H: Host>(host: &H, xs: Seq<E>) -> bool
    decreases xs, 0nat,
{
    if xs.len() == 0 {
        true
    } else {
        calls_known_all(host, xs.subrange(0, xs.len() - 1)) && calls_known(host, xs[xs.len() - 1])
    }
}

/// Reduction fails only where evaluation fails: an expression that has a
/// value, and calls only registered functions, does not reduce to an error.
/// (A call of an unknown function is `NULL` without its parameters being
/// evaluated, while reduction reduces them: `f(1 + 'a')` with `f` unknown
/// evaluates to `NULL` and fails to reduce.)
pub proof fn lemma_reduce_succeeds<H: Host>(host: &H, e: E, v: Q, er: MyError)
    requires
        calls_known(host, e),
        evals(host, e, Ok::<Q, MyError>(v)),
    ensures
        !reduces(host, e, Err::<E, MyError>(er)),
    decreases e, 1nat,
{
    let rr = Err::<E, MyError>(er);
    let rv = Ok::<Q, MyError>(v);
    if reduces(host, e, rr) {
        match e {
            E::Monadic(op, x) => {
                let rx = choose|rx: Result<E, MyError>|
                    #[trigger] reduced(rx) && reduces(host, *x, rx) && match rx {
                        Err(e2) => rr == Err::<E, MyError>(e2),
                        Ok(w) => monadic_fold(host, op, w, rr),
                    };
                let ex = choose|ex: Result<Q, MyError>|
                    #[trigger] outcome(ex) && evals(host, *x, ex) && match ex {
                        Err(e2) => rv == Err::<Q, MyError>(e2),
                        Ok(zx) => monadic_ok(host, op, zx, rv),
                    };
                if rx is Err {
                    lemma_reduce_succeeds(host, *x, ex->Ok_0, er);
                }
            },
            E::Dyadic(op, x, y) => {
                let (a, b) = lemma_eval_dyadic_parts(host, op, *x, *y, v);
                let rx = choose|rx: Result<E, MyError>|
                    #[trigger] reduced(rx) && reduces(host, *x, rx) && match rx {
                        Err(e2) => rr == Err::<E, MyError>(e2),
                        Ok(lhs) => exists|ry: Result<E, MyError>|
                            #[trigger] reduced(ry) && reduces(host, *y, ry) && match ry {
                                Err(e2) => rr == Err::<E, MyError>(e2),
                                Ok(rhs) => dyadic_fold(host, op, lhs, rhs, rr),
                            },
                    };
                if rx is Err {
                    lemma_reduce_succeeds(host, *x, a, er);
                } else {
                    let lhs = rx->Ok_0;
                    let ry = choose|ry: Result<E, MyError>|
                        #[trigger] reduced(ry) && reduces(host, *y, ry) && match ry {
                            Err(e2) => rr == Err::<E, MyError>(e2),
                            Ok(rhs) => dyadic_fold(host, op, lhs, rhs, rr),
                        };
                    if ry is Err {
                        lemma_reduce_succeeds(host, *y, b, er);
                    } else {
                        let rhs = ry->Ok_0;
                        lemma_reduce_keeps_value(host, *x, lhs, a);
                        lemma_reduce_keeps_value(host, *y, rhs, b);
                        if literal(lhs) is Some {
                            lemma_literal_value(host, lhs, a);
                        }
                        if literal(rhs) is Some {
                            lemma_literal_value(host, rhs, b);
                        }
                    }
                }
            },
            E::Function(name, vs) => {
                let rl = choose|rl: Result<Seq<E>, MyError>|
                    #[trigger] reduced_all(rl) && reduces_all(host, vs@, rl) && match rl {
                        Err(e2) => rr == Err::<E, MyError>(e2),
                        Ok(es) => rr matches Ok(E::Function(n, w)) && n == name && w@ == es,
                    };
                let i = host.info(name)->Some_0;
                if vs.len() == i.args_spec().len() {
                    let el = choose|el: Result<Seq<Q>, MyError>|
                        #[trigger] outcomes(el) && evals_all(host, vs@, el) && match el {
                            Err(e2) => rv == Err::<Q, MyError>(e2),
                            Ok(qs) => crate::expr::applies(host, name, i, qs, rv),
                        };
                    lemma_reduce_succeeds_all(host, vs@, el->Ok_0, rl->Err_0);
                }
            },
            E::Array(vs) => {
                let rl = choose|rl: Result<Seq<E>, MyError>|
                    #[trigger] reduced_all(rl) && reduces_all(host, vs@, rl) && match rl {
                        Err(e2) => rr == Err::<E, MyError>(e2),
                        Ok(es) => rr matches Ok(E::Array(w)) && w@ == es,
                    };
                let el = choose|el: Result<Seq<Q>, MyError>|
                    #[trigger] outcomes(el) && evals_all(host, vs@, el) && match el {
                        Err(e2) => rv == Err::<Q, MyError>(e2),
                        Ok(qs) => rv matches Ok(Q::List(w)) && w@ == qs,
                    };
                lemma_reduce_succeeds_all(host, vs@, el->Ok_0, rl->Err_0);
            },
            E::Interval(x, y) => {
                let ex = choose|ex: Result<Q, MyError>|
                    #[trigger] outcome(ex) && evals(host, *x, ex) && match ex {
                        Err(e2) => rv == Err::<Q, MyError>(e2),
                        Ok(xx) => exists|ey: Result<Q, MyError>|
                            #[trigger] outcome(ey) && evals(host, *y, ey) && match ey {
                                Err(e2) => rv == Err::<Q, MyError>(e2),
                                Ok(yy) => rv == Ok::<Q, MyError>(
                                    match (crate::eval::bound_of(xx), crate::eval::bound_of(yy)) {
                                        (Some(p), Some(q)) => Q::Interval(p, q),
                                        _ => Q::Null,
                                    },
                                ),
                            },
                    };
                let xx = ex->Ok_0;
                let ey = choose|ey: Result<Q, MyError>|
                    #[trigger] outcome(ey) && evals(host, *y, ey) && match ey {
                        Err(e2) => rv == Err::<Q, MyError>(e2),
                        Ok(yy) => rv == Ok::<Q, MyError>(
                            match (crate::eval::bound_of(xx), crate::eval::bound_of(yy)) {
                                (Some(p), Some(q)) => Q::Interval(p, q),
                                _ => Q::Null,
                            },
                        ),
                    };
                let rx = choose|rx: Result<E, MyError>|
                    #[trigger] reduced(rx) && reduces(host, *x, rx) && match rx {
                        Err(e2) => rr == Err::<E, MyError>(e2),
                        Ok(u) => exists|ry: Result<E, MyError>|
                            #[trigger] reduced(ry) && reduces(host, *y, ry) && match ry {
                                Err(e2) => rr == Err::<E, MyError>(e2),
                                Ok(w) => rr == Ok::<E, MyError>(E::Interval(Box::new(u), Box::new(w))),
                            },
                    };
                if rx is Err {
                    lemma_reduce_succeeds(host, *x, xx, er);
                } else {
                    let u = rx->Ok_0;
                    let ry = choose|ry: Result<E, MyError>|
                        #[trigger] reduced(ry) && reduces(host, *y, ry) && match ry {
                            Err(e2) => rr == Err::<E, MyError>(e2),
                            Ok(w) => rr == Ok::<E, MyError>(E::Interval(Box::new(u), Box::new(w))),
                        };
                    lemma_reduce_succeeds(host, *y, ey->Ok_0, er);
                }
            },
            _ => {},
        }
    }
}

/// Reduction of a sequence fails only where its evaluation fails.
pub proof fn lemma_reduce_succeeds_all<H: Host>(host: &H, xs: Seq<E>, qs: Seq<Q>, er: MyError)
    requires
        calls_known_all(host, xs),
        evals_all(host, xs, Ok::<Seq<Q>, MyError>(qs)),
    ensures
        !reduces_all(host, xs, Err::<Seq<E>, MyError>(er)),
    decreases xs, 0nat,
{
    let r = Err::<Seq<E>, MyError>(er);
    if xs.len() > 0 && reduces_all(host, xs, r) {
        let rq = Ok::<Seq<Q>, MyError>(qs);
        let prefix = xs.subrange(0, xs.len() - 1);
        let ep = choose|ep: Result<Seq<Q>, MyError>|
            #[trigger] outcomes(ep) && evals_all(host, prefix, ep) && match ep {
                Err(e2) => rq == Err::<Seq<Q>, MyError>(e2),
                Ok(pq) => exists|ex: Result<Q, MyError>|
                    #[trigger] outcome(ex) && evals(host, xs[xs.len() - 1], ex) && match ex {
                        Err(e2) => rq == Err::<Seq<Q>, MyError>(e2),
                        Ok(q) => rq == Ok::<Seq<Q>, MyError>(pq.push(q)),
                    },
            };
        let pq = ep->Ok_0;
        let ex = choose|ex: Result<Q, MyError>|
            #[trigger] outcome(ex) && evals(host, xs[xs.len() - 1], ex) && match ex {
                Err(e2) => rq == Err::<Seq<Q>, MyError>(e2),
                Ok(q) => rq == Ok::<Seq<Q>, MyError>(pq.push(q)),
            };
        let rp = choose|rp: Result<Seq<E>, MyError>|
            #[trigger] reduced_all(rp) && reduces_all(host, prefix, rp) && match rp {
                Err(e2) => r == Err::<Seq<E>, MyError>(e2),
                Ok(ps) => exists|rx: Result<E, MyError>|
                    #[trigger] reduced(rx) && reduces(host, xs[xs.len() - 1], rx) && match rx {
                        Err(e2) => r == Err::<Seq<E>, MyError>(e2),
                        Ok(x) => r == Ok::<Seq<E>, MyError>(ps.push(x)),
                    },
            };
        if rp is Err {
            lemma_reduce_succeeds_all(host, prefix, pq, er);
        } else {
            lemma_reduce_succeeds(host, xs[xs.len() - 1], ex->Ok_0, er);
        }
    }
}


/// Whether two expressions are the same tree: equal but for which vectors
/// hold the members of calls and arrays, which hold equal members in
/// order.
pub open spec fn same_tree(a: E, b: E) -> bool
    decreases a, 1nat,
{
    match (a, b) {
        (E::Monadic(o1, x1), E::Monadic(o2, x2)) => o1 == o2 && same_tree(*x1, *x2),
        (E::Dyadic(o1, x1, y1), E::Dyadic(o2, x2, y2)) => o1 == o2 && same_tree(*x1, *x2)
            && same_tree(*y1, *y2),
        (E::Function(n1, v1), E::Function(n2, v2)) => n1 == n2 && same_trees(v1@, v2@),
        (E::Array(v1), E::Array(v2)) => same_trees(v1@, v2@),
        (E::Interval(x1, y1), E::Interval(x2, y2)) => same_tree(*x1, *x2) && same_tree(*y1, *y2),
        (E::Monadic(_, _), _) | (E::Dyadic(_, _, _), _) | (E::Function(_, _), _) | (
            E::Array(_),
            _,
        ) | (E::Interval(_, _), _) => false,
        _ => a == b,
    }
}

/// Whether two sequences of expressions are [same_tree] member by member.
pub open spec fn same_trees(xs: Seq<E>, ys: Seq<E>) -> bool
    decreases xs, 0nat,
{
    xs.len() == ys.len() && (xs.len() == 0 || (same_trees(
        xs.subrange(0, xs.len() - 1),
        ys.subrange(0, ys.len() - 1),
    ) && same_tree(xs[xs.len() - 1], ys[ys.len() - 1])))
}

/// Reduction has one outcome: any two reductions of an expression are the
/// same tree (see [same_tree]).
pub proof fn lemma_reduce_unique<H: Host>(host: &H, e: E, r1: E, r2: E)
    requires
        reduces(host, e, Ok::<E, MyError>(r1)),
        reduces(host, e, Ok::<E, MyError>(r2)),
    ensures
        same_tree(r1, r2),
    decreases e, 1nat,
{
    let a1 = Ok::<E, MyError>(r1);
    let a2 = Ok::<E, MyError>(r2);
    match e {
        E::Monadic(op, x) => {
            let rx1 = choose|rx: Result<E, MyError>|
                #[trigger] reduced(rx) && reduces(host, *x, rx) && match rx {
                    Err(er) => a1 == Err::<E, MyError>(er),
                    Ok(w) => monadic_fold(host, op, w, a1),
                };
            let rx2 = choose|rx: Result<E, MyError>|
                #[trigger] reduced(rx) && reduces(host, *x, rx) && match rx {
                    Err(er) => a2 == Err::<E, MyError>(er),
                    Ok(w) => monadic_fold(host, op, w, a2),
                };
            lemma_reduce_unique(host, *x, rx1->Ok_0, rx2->Ok_0);
        },
        E::Dyadic(op, x, y) => {
            let (l1, h1) = lemma_reduce_dyadic_parts(host, op, *x, *y, r1);
            let (l2, h2) = lemma_reduce_dyadic_parts(host, op, *x, *y, r2);
            lemma_reduce_unique(host, *x, l1, l2);
            lemma_reduce_unique(host, *y, h1, h2);
        },
        E::Function(name, vs) => {
            let rl1 = choose|rl: Result<Seq<E>, MyError>|
                #[trigger] reduced_all(rl) && reduces_all(host, vs@, rl) && match rl {
                    Err(er) => a1 == Err::<E, MyError>(er),
                    Ok(es) => a1 matches Ok(E::Function(n, w)) && n == name && w@ == es,
                };
            let rl2 = choose|rl: Result<Seq<E>, MyError>|
                #[trigger] reduced_all(rl) && reduces_all(host, vs@, rl) && match rl {
                    Err(er) => a2 == Err::<E, MyError>(er),
                    Ok(es) => a2 matches Ok(E::Function(n, w)) && n == name && w@ == es,
                };
            lemma_reduce_unique_all(host, vs@, rl1->Ok_0, rl2->Ok_0);
        },
        E::Array(vs) => {
            let rl1 = choose|rl: Result<Seq<E>, MyError>|
                #[trigger] reduced_all(rl) && reduces_all(host, vs@, rl) && match rl {
                    Err(er) => a1 == Err::<E, MyError>(er),
                    Ok(es) => a1 matches Ok(E::Array(w)) && w@ == es,
                };
            let rl2 = choose|rl: Result<Seq<E>, MyError>|
                #[trigger] reduced_all(rl) && reduces_all(host, vs@, rl) && match rl {
                    Err(er) => a2 == Err::<E, MyError>(er),
                    Ok(es) => a2 matches Ok(E::Array(w)) && w@ == es,
                };
            lemma_reduce_unique_all(host, vs@, rl1->Ok_0, rl2->Ok_0);
        },
        E::Interval(x, y) => {
            let rx1 = choose|rx: Result<E, MyError>|
                #[trigger] reduced(rx) && reduces(host, *x, rx) && match rx {
                    Err(er) => a1 == Err::<E, MyError>(er),
                    Ok(u) => exists|ry: Result<E, MyError>|
                        #[trigger] reduced(ry) && reduces(host, *y, ry) && match ry {
                            Err(er) => a1 == Err::<E, MyError>(er),
                            Ok(w) => a1 == Ok::<E, MyError>(E::Interval(Box::new(u), Box::new(w))),
                        },
                };
            let u1 = rx1->Ok_0;
            let ry1 = choose|ry: Result<E, MyError>|
                #[trigger] reduced(ry) && reduces(host, *y, ry) && match ry {
                    Err(er) => a1 == Err::<E, MyError>(er),
                    Ok(w) => a1 == Ok::<E, MyError>(E::Interval(Box::new(u1), Box::new(w))),
                };
            let rx2 = choose|rx: Result<E, MyError>|
                #[trigger] reduced(rx) && reduces(host, *x, rx) && match rx {
                    Err(er) => a2 == Err::<E, MyError>(er),
                    Ok(u) => exists|ry: Result<E, MyError>|
                        #[trigger] reduced(ry) && reduces(host, *y, ry) && match ry {
                            Err(er) => a2 == Err::<E, MyError>(er),
                            Ok(w) => a2 == Ok::<E, MyError>(E::Interval(Box::new(u), Box::new(w))),
                        },
                };
            let u2 = rx2->Ok_0;
            let ry2 = choose|ry: Result<E, MyError>|
                #[trigger] reduced(ry) && reduces(host, *y, ry) && match ry {
                    Err(er) => a2 == Err::<E, MyError>(er),
                    Ok(w) => a2 == Ok::<E, MyError>(E::Interval(Box::new(u2), Box::new(w))),
                };
            lemma_reduce_unique(host, *x, u1, u2);
            lemma_reduce_unique(host, *y, ry1->Ok_0, ry2->Ok_0);
        },
        _ => {},
    }
}

/// Reduction of a sequence has one outcome, up to [same_trees].
pub proof fn lemma_reduce_unique_all<H: Host>(host: &H, xs: Seq<E>, es1: Seq<E>, es2: Seq<E>)
    requires
        reduces_all(host, xs, Ok::<Seq<E>, MyError>(es1)),
        reduces_all(host, xs, Ok::<Seq<E>, MyError>(es2)),
    ensures
        same_trees(es1, es2),
    decreases xs, 0nat,
{
    lemma_reduces_all_len(host, xs, es1);
    lemma_reduces_all_len(host, xs, es2);
    if xs.len() > 0 {
        let b1 = Ok::<Seq<E>, MyError>(es1);
        let b2 = Ok::<Seq<E>, MyError>(es2);
        let prefix = xs.subrange(0, xs.len() - 1);
        let rp1 = choose|rp: Result<Seq<E>, MyError>|
            #[trigger] reduced_all(rp) && reduces_all(host, prefix, rp) && match rp {
                Err(er) => b1 == Err::<Seq<E>, MyError>(er),
                Ok(ps) => exists|rx: Result<E, MyError>|
                    #[trigger] reduced(rx) && reduces(host, xs[xs.len() - 1], rx) && match rx {
                        Err(er) => b1 == Err::<Seq<E>, MyError>(er),
                        Ok(x) => b1 == Ok::<Seq<E>, MyError>(ps.push(x)),
                    },
            };
        let ps1 = rp1->Ok_0;
        let rx1 = choose|rx: Result<E, MyError>|
            #[trigger] reduced(rx) && reduces(host, xs[xs.len() - 1], rx) && match rx {
                Err(er) => b1 == Err::<Seq<E>, MyError>(er),
                Ok(x) => b1 == Ok::<Seq<E>, MyError>(ps1.push(x)),
            };
        let rp2 = choose|rp: Result<Seq<E>, MyError>|
            #[trigger] reduced_all(rp) && reduces_all(host, prefix, rp) && match rp {
                Err(er) => b2 == Err::<Seq<E>, MyError>(er),
                Ok(ps) => exists|rx: Result<E, MyError>|
                    #[trigger] reduced(rx) && reduces(host, xs[xs.len() - 1], rx) && match rx {
                        Err(er) => b2 == Err::<Seq<E>, MyError>(er),
                        Ok(x) => b2 == Ok::<Seq<E>, MyError>(ps.push(x)),
                    },
            };
        let ps2 = rp2->Ok_0;
        let rx2 = choose|rx: Result<E, MyError>|
            #[trigger] reduced(rx) && reduces(host, xs[xs.len() - 1], rx) && match rx {
                Err(er) => b2 == Err::<Seq<E>, MyError>(er),
                Ok(x) => b2 == Ok::<Seq<E>, MyError>(ps2.push(x)),
            };
        lemma_reduce_unique_all(host, prefix, ps1, ps2);
        lemma_reduce_unique(host, xs[xs.len() - 1], rx1->Ok_0, rx2->Ok_0);
        assert(es1.subrange(0, es1.len() - 1) == ps1);
        assert(es2.subrange(0, es2.len() - 1) == ps2);
    }
}


/// Reducing twice gives what reducing once gives: when `e` reduces to `r`,
/// every reduction of `r` is the same tree as `r`.
pub proof fn lemma_reduce_twice<H: Host>(host: &H, e: E, r: E, r2: E)
    requires
        reduces(host, e, Ok::<E, MyError>(r)),
        reduces(host, r, Ok::<E, MyError>(r2)),
    ensures
        same_tree(r2, r),
{
    lemma_reduce_idempotent(host, e, r);
    lemma_reduce_unique(host, r, r2, r);
}

} // verus!
