//! Evaluating a filter expression against the resources of a collection:
//! the expression is reduced once, then evaluated against each resource,
//! and the value it yields tells whether the resource passes the filter.

use crate::error::MyError;
use crate::expr::{dyadic_ops, evals, outcome, reduces, reduced, wf, Host, E};
use crate::queryable::Q;
use crate::Outcome;
use vstd::prelude::*;

verus! {

/// What the value of a filter says of a resource: `TRUE` and `FALSE` keep
/// and drop it; `NULL`, and a value that is not a boolean, leave it
/// unknown.
pub open spec fn outcome_of(q: Q) -> Outcome {
    match q {
        Q::Bool(true) => Outcome::T,
        Q::Bool(false) => Outcome::F,
        _ => Outcome::N,
    }
}

/// Capability of evaluating a filter expression against resources.
pub trait Evaluator {
    /// Prepare the expression to evaluate.
    fn setup<H: Host>(&mut self, exp: E, host: &H) -> (r: Result<(), MyError>)
        requires
            wf(exp),
            dyadic_ops(exp),
    ;

    /// Evaluate the prepared expression against the resource that the host
    /// holds.
    fn evaluate<H: Host>(&self, host: &H) -> (r: Result<Outcome, MyError>);
}

/// An [Evaluator] that reduces the expression when it is set up.
pub struct ExEvaluator {
    exp: E,
}

impl ExEvaluator {
    #[verifier::type_invariant]
    spec fn inv(self) -> bool {
        wf(self.exp)
    }

    /// The prepared expression.
    pub closed spec fn expression(self) -> E {
        self.exp
    }

    /// A new evaluator, prepared with the expression `NULL`.
    pub fn new() -> (r: Self)
        ensures
            r.expression() == E::Null,
    {
        ExEvaluator { exp: E::Null }
    }
}

impl Evaluator for ExEvaluator {
    /// Reduce the expression and keep it; on an error, keep the one set up
    /// before.
    fn setup<H: Host>(&mut self, exp: E, host: &H) -> (r: Result<(), MyError>)
        ensures
            exists|rr: Result<E, MyError>|
                #[trigger] reduced(rr) && reduces(host, exp, rr) && match rr {
                    Ok(e2) => r is Ok && final(self).expression() == e2,
                    Err(er) => r == Err::<(), MyError>(er) && final(self).expression()
                        == old(self).expression(),
                },
    {
        let ghost e = exp;
        let rr = exp.reduce(host);
        proof {
            assert(reduced(rr));
        }
        match rr {
            Ok(it) => {
                self.exp = it;
                Ok(())
            },
            Err(er) => Err(er),
        }
    }

    /// Evaluate the prepared expression: its value decides the outcome,
    /// and its errors are handed back.
    fn evaluate<H: Host>(&self, host: &H) -> (r: Result<Outcome, MyError>)
        ensures
            exists|rq: Result<Q, MyError>|
                #[trigger] outcome(rq) && evals(host, self.expression(), rq) && match rq {
                    Ok(q) => r == Ok::<Outcome, MyError>(outcome_of(q)),
                    Err(er) => r == Err::<Outcome, MyError>(er),
                },
    {
        proof {
            use_type_invariant(self);
        }
        let rq = self.exp.eval(host);
        proof {
            assert(outcome(rq));
        }
        match rq {
            Ok(Q::Null) => Ok(Outcome::N),
            Ok(Q::Bool(b)) => if b {
                Ok(Outcome::T)
            } else {
                Ok(Outcome::F)
            },
            Ok(_) => Ok(Outcome::N),
            Err(er) => Err(er),
        }
    }
}

} // verus!
