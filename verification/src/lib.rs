//! OGC CQL2 filter expressions: the values they compare, the rules of their
//! operators, their evaluation against resources, and the data sources
//! they filter.

pub mod bound;
pub mod config;
pub mod ds;
pub mod error;
pub mod eval;
pub mod evaluator;
pub mod expr;
pub mod function;
pub mod json;
pub mod laws;
pub mod numeric;
pub mod op;
pub mod qstring;
pub mod queryable;
pub mod relations;
pub mod srid;
pub mod unicode;

use vstd::prelude::*;

verus! {

/// Possible outcome values when evaluating an expression against a resource.
#[derive(Debug, Clone, Copy, PartialEq, Eq, Structural)]
pub enum Outcome {
    /// True.
    T,
    /// False.
    F,
    /// Unknown.
    N,
}

impl Outcome {
    /// Constructor from an optional boolean.
    pub fn new(flag: Option<&bool>) -> (res: Self)
        ensures
            flag == Some(&true) ==> res == Outcome::T,
            flag == Some(&false) ==> res == Outcome::F,
            flag is None ==> res == Outcome::N,
    {
        match flag {
            Some(b) => if *b { Outcome::T } else { Outcome::F },
            None => Outcome::N,
        }
    }
}

} // verus!
