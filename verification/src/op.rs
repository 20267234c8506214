//! OGC CQL2 grammar operators.

use vstd::prelude::*;

verus! {

/// Operators.
#[derive(Debug, Clone, Copy, PartialEq, Eq, Structural)]
pub enum Op {
    /// Addition.
    Plus,
    /// Both negating a numeric, and subtraction of two numerics.
    Minus,
    /// Multiplication.
    Mult,
    /// Division.
    Div,
    /// Integer division.
    IntDiv,
    /// Modulo.
    Mod,
    /// Exponentiation.
    Exp,
    /// Negation of a boolean predicate.
    Neg,
    /// Equal to.
    Eq,
    /// Not equal to.
    Neq,
    /// Less than.
    Lt,
    /// Greater than.
    Gt,
    /// Less than or equal to.
    Lte,
    /// Greater than or equal to.
    Gte,
    /// Logical conjunction.
    And,
    /// Logical disjunction.
    Or,
    /// Case insensitive.
    CaseI,
    /// Accent insensitive.
    AccentI,
    /// S_INTERSECTS operator.
    SIntersects,
    /// S_EQUALS operator.
    SEquals,
    /// S_DISJOINT operator.
    SDisjoint,
    /// S_TOUCHES operator.
    STouches,
    /// S_WITHIN operator.
    SWithin,
    /// S_OVERLAPS operator.
    SOverlaps,
    /// S_CROSSES operator.
    SCrosses,
    /// S_CONTAINS operator.
    SContains,
    /// T_AFTER operator.
    TAfter,
    /// T_BEFORE operator.
    TBefore,
    /// T_CONTAINS operator.
    TContains,
    /// T_DISJOINT operator.
    TDisjoint,
    /// T_DURING operator.
    TDuring,
    /// T_EQUALS operator.
    TEquals,
    /// T_FINISHEDBY operator.
    TFinishedBy,
    /// T_FINISHES operator.
    TFinishes,
    /// T_INTERSECTS operator.
    TIntersects,
    /// T_MEETS operator.
    TMeets,
    /// T_METBY operator.
    TMetBy,
    /// T_OVERLAPPEDBY operator.
    TOverlappedBy,
    /// T_OVERLAPS operator.
    TOverlaps,
    /// T_STARTEDBY operator.
    TStartedBy,
    /// T_STARTS operator.
    TStarts,
    /// A_EQUALS operator.
    AEquals,
    /// A_CONTAINS operator.
    AContains,
    /// A_CONTAINEDBY operator.
    AContainedBy,
    /// A_OVERLAPS operator.
    AOverlaps,
    /// LIKE operator.
    IsLike,
    /// NOT LIKE operator.
    IsNotLike,
    /// BETWEEN operator.
    IsBetween,
    /// NOT BETWEEN operator.
    IsNotBetween,
    /// IN operator.
    IsInList,
    /// NOT IN operator.
    IsNotInList,
    /// Is null.
    IsNull,
    /// Is not null.
    IsNotNull,
}

impl Op {
    /// Whether this is one of the arithmetic operators.
    pub open spec fn is_arithmetic(self) -> bool {
        self is Plus || self is Minus || self is Mult || self is Div || self is Mod || self is IntDiv || self is Exp
    }

    /// Return TRUE if this is one of the arithmetic operators; FALSE otherwise.
    pub fn arithmetic(&self) -> (r: bool)
        ensures
            r == self.is_arithmetic(),
    {
        match self {
            Op::Plus | Op::Minus | Op::Mult | Op::Div | Op::Mod | Op::IntDiv | Op::Exp => true,
            _ => false,
        }
    }

    /// Whether this is one of the array operators.
    pub open spec fn is_array(self) -> bool {
        self is AContainedBy || self is AContains || self is AEquals || self is AOverlaps
    }

    /// Return TRUE if this is one of the array operators; FALSE otherwise.
    pub fn array(&self) -> (r: bool)
        ensures
            r == self.is_array(),
    {
        match self {
            Op::AContainedBy | Op::AContains | Op::AEquals | Op::AOverlaps => true,
            _ => false,
        }
    }

    /// Whether this is one of the basic comparison operators.
    pub open spec fn is_comparison(self) -> bool {
        self is Eq || self is Neq || self is Lt || self is Lte || self is Gt || self is Gte || self is IsNull || self is IsNotNull
    }

    /// Return TRUE if this is one of the basic comparison operators; FALSE otherwise.
    pub fn comparison(&self) -> (r: bool)
        ensures
            r == self.is_comparison(),
    {
        match self {
            Op::Eq | Op::Neq | Op::Lt | Op::Lte | Op::Gt | Op::Gte | Op::IsNull | Op::IsNotNull => true,
            _ => false,
        }
    }

    /// Whether this is one of the extended comparison operators.
    pub open spec fn is_xtd_comparison(self) -> bool {
        self is IsLike || self is IsNotLike || self is IsBetween || self is IsNotBetween || self is IsInList || self is IsNotInList
    }

    /// Return TRUE if this is one of the extended comparison operators; FALSE otherwise.
    pub fn xtd_comparison(&self) -> (r: bool)
        ensures
            r == self.is_xtd_comparison(),
    {
        match self {
            Op::IsLike | Op::IsNotLike | Op::IsBetween | Op::IsNotBetween | Op::IsInList | Op::IsNotInList => true,
            _ => false,
        }
    }

    /// Whether this is one of the spatial operators.
    pub open spec fn is_spatial(self) -> bool {
        self is SIntersects || self is SContains || self is SCrosses || self is SDisjoint || self is SEquals || self is SOverlaps || self is STouches || self is SWithin
    }

    /// Return TRUE if this is one of the spatial operators; FALSE otherwise.
    pub fn spatial(&self) -> (r: bool)
        ensures
            r == self.is_spatial(),
    {
        match self {
            Op::SIntersects | Op::SContains | Op::SCrosses | Op::SDisjoint | Op::SEquals | Op::SOverlaps | Op::STouches | Op::SWithin => true,
            _ => false,
        }
    }

    /// Whether this is one of the temporal operators.
    pub open spec fn is_temporal(self) -> bool {
        self is TAfter || self is TBefore || self is TContains || self is TDisjoint || self is TDuring || self is TEquals || self is TFinishedBy || self is TFinishes || self is TIntersects || self is TMeets || self is TMetBy || self is TOverlappedBy || self is TOverlaps || self is TStartedBy || self is TStarts
    }

    /// Return TRUE if this is one of the temporal operators; FALSE otherwise.
    pub fn temporal(&self) -> (r: bool)
        ensures
            r == self.is_temporal(),
    {
        match self {
            Op::TAfter | Op::TBefore | Op::TContains | Op::TDisjoint | Op::TDuring | Op::TEquals | Op::TFinishedBy | Op::TFinishes | Op::TIntersects | Op::TMeets | Op::TMetBy | Op::TOverlappedBy | Op::TOverlaps | Op::TStartedBy | Op::TStarts => true,
            _ => false,
        }
    }

    /// Whether this is one of the temporal operators applicable to either instants or intervals.
    pub open spec fn is_instant_or_interval(self) -> bool {
        self is TAfter || self is TBefore || self is TDisjoint || self is TEquals || self is TIntersects
    }

    /// Return TRUE if this is one of the temporal operators applicable to either instants or intervals; FALSE otherwise.
    pub fn instant_or_interval(&self) -> (r: bool)
        ensures
            r == self.is_instant_or_interval(),
    {
        match self {
            Op::TAfter | Op::TBefore | Op::TDisjoint | Op::TEquals | Op::TIntersects => true,
            _ => false,
        }
    }

    /// Whether this is one of the null tests.
    pub open spec fn is_nullable(self) -> bool {
        self is IsNull || self is IsNotNull
    }

    /// Return TRUE if this is one of the null tests; FALSE otherwise.
    pub fn nullable(&self) -> (r: bool)
        ensures
            r == self.is_nullable(),
    {
        match self {
            Op::IsNull | Op::IsNotNull => true,
            _ => false,
        }
    }

    /// The SQL this operator is written as in a `WHERE` clause, the same for
    /// SQLite and PostgreSQL: an operator or keyword, or the name of a
    /// spatial function. The temporal operators are written out by the
    /// relations between their limits, and `CASEI`/`ACCENTI` by collations,
    /// so they have none.
    pub open spec fn sql_spec(self) -> &'static str {
        match self {
            Op::Plus => "+",
            Op::Minus => "-",
            Op::Mult => "*",
            Op::Div => "/",
            Op::IntDiv => "DIV",
            Op::Mod => "%",
            Op::Exp => "^",
            Op::Neg => "NOT",
            Op::Eq => "=",
            Op::Neq => "<>",
            Op::Lt => "<",
            Op::Gt => ">",
            Op::Lte => "<=",
            Op::Gte => ">=",
            Op::And => "AND",
            Op::Or => "OR",
            Op::IsLike => "LIKE",
            Op::IsNotLike => "NOT LIKE",
            Op::IsBetween => "BETWEEN",
            Op::IsNotBetween => "NOT BETWEEN",
            Op::IsInList => "IN",
            Op::IsNotInList => "NOT IN",
            Op::IsNull => "IS NULL",
            Op::IsNotNull => "IS NOT NULL",
            Op::SIntersects => "ST_Intersects",
            Op::SEquals => "ST_Equals",
            Op::SDisjoint => "ST_Disjoint",
            Op::STouches => "ST_Touches",
            Op::SWithin => "ST_Within",
            Op::SOverlaps => "ST_Overlaps",
            Op::SCrosses => "ST_Crosses",
            Op::SContains => "ST_Contains",
            Op::AEquals => "=",
            Op::AContains => "@>",
            Op::AContainedBy => "<@",
            Op::AOverlaps => "&&",
            _ => "",
        }
    }

    /// Return the SQL this operator is written as (see [Op::sql_spec]).
    pub fn sql_text(&self) -> (r: &'static str)
        ensures
            r == self.sql_spec(),
    {
        match self {
            Op::Plus => "+",
            Op::Minus => "-",
            Op::Mult => "*",
            Op::Div => "/",
            Op::IntDiv => "DIV",
            Op::Mod => "%",
            Op::Exp => "^",
            Op::Neg => "NOT",
            Op::Eq => "=",
            Op::Neq => "<>",
            Op::Lt => "<",
            Op::Gt => ">",
            Op::Lte => "<=",
            Op::Gte => ">=",
            Op::And => "AND",
            Op::Or => "OR",
            Op::IsLike => "LIKE",
            Op::IsNotLike => "NOT LIKE",
            Op::IsBetween => "BETWEEN",
            Op::IsNotBetween => "NOT BETWEEN",
            Op::IsInList => "IN",
            Op::IsNotInList => "NOT IN",
            Op::IsNull => "IS NULL",
            Op::IsNotNull => "IS NOT NULL",
            Op::SIntersects => "ST_Intersects",
            Op::SEquals => "ST_Equals",
            Op::SDisjoint => "ST_Disjoint",
            Op::STouches => "ST_Touches",
            Op::SWithin => "ST_Within",
            Op::SOverlaps => "ST_Overlaps",
            Op::SCrosses => "ST_Crosses",
            Op::SContains => "ST_Contains",
            Op::AEquals => "=",
            Op::AContains => "@>",
            Op::AContainedBy => "<@",
            Op::AOverlaps => "&&",
            _ => "",
        }
    }

    /// The text this operator is rendered as.
    pub open spec fn text_spec(self) -> &'static str {
        match self {
            Op::Plus => "+",
            Op::Minus => "-",
            Op::Mult => "*",
            Op::Div => "/",
            Op::IntDiv => "div",
            Op::Mod => "%",
            Op::Exp => "^",
            Op::Neg => "!",
            Op::Eq => "==",
            Op::Neq => "!=",
            Op::Lt => "<",
            Op::Gt => ">",
            Op::Lte => "<=",
            Op::Gte => ">=",
            Op::And => "&&",
            Op::Or => "||",
            Op::CaseI => "CASEI",
            Op::AccentI => "ACCENTI",
            Op::SIntersects => "S_INTERSECTS",
            Op::SEquals => "S_EQUALS",
            Op::SDisjoint => "S_DISJOINT",
            Op::STouches => "S_TOUCHES",
            Op::SWithin => "S_WITHIN",
            Op::SOverlaps => "S_OVERLAPS",
            Op::SCrosses => "S_CROSSES",
            Op::SContains => "S_CONTAINS",
            Op::TAfter => "T_AFTER",
            Op::TBefore => "T_BEFORE",
            Op::TContains => "T_CONTAINS",
            Op::TDisjoint => "T_DISJOINT",
            Op::TDuring => "T_DURING",
            Op::TEquals => "T_EQUALS",
            Op::TFinishedBy => "T_FINISHEDBY",
            Op::TFinishes => "T_FINISHES",
            Op::TIntersects => "T_INTERSECTS",
            Op::TMeets => "T_MEETS",
            Op::TMetBy => "T_METBY",
            Op::TOverlappedBy => "T_OVERLAPPEDBY",
            Op::TOverlaps => "T_OVERLAPS",
            Op::TStartedBy => "T_STARTEDBY",
            Op::TStarts => "T_STARTS",
            Op::AEquals => "A_EQUALS",
            Op::AContains => "A_CONTAINS",
            Op::AContainedBy => "A_CONTAINEDBY",
            Op::AOverlaps => "A_OVERLAPS",
            Op::IsLike => "LIKE",
            Op::IsNotLike => "NOT LIKE",
            Op::IsBetween => "BETWEEN",
            Op::IsNotBetween => "NOT BETWEEN",
            Op::IsInList => "IN",
            Op::IsNotInList => "NOT IN",
            Op::IsNull => "IS NULL",
            Op::IsNotNull => "IS NOT NULL",
        }
    }

    /// Return the text this operator is rendered as.
    pub fn text(&self) -> (r: &'static str)
        ensures
            r == self.text_spec(),
    {
        match self {
            Op::Plus => "+",
            Op::Minus => "-",
            Op::Mult => "*",
            Op::Div => "/",
            Op::IntDiv => "div",
            Op::Mod => "%",
            Op::Exp => "^",
            Op::Neg => "!",
            Op::Eq => "==",
            Op::Neq => "!=",
            Op::Lt => "<",
            Op::Gt => ">",
            Op::Lte => "<=",
            Op::Gte => ">=",
            Op::And => "&&",
            Op::Or => "||",
            Op::CaseI => "CASEI",
            Op::AccentI => "ACCENTI",
            Op::SIntersects => "S_INTERSECTS",
            Op::SEquals => "S_EQUALS",
            Op::SDisjoint => "S_DISJOINT",
            Op::STouches => "S_TOUCHES",
            Op::SWithin => "S_WITHIN",
            Op::SOverlaps => "S_OVERLAPS",
            Op::SCrosses => "S_CROSSES",
            Op::SContains => "S_CONTAINS",
            Op::TAfter => "T_AFTER",
            Op::TBefore => "T_BEFORE",
            Op::TContains => "T_CONTAINS",
            Op::TDisjoint => "T_DISJOINT",
            Op::TDuring => "T_DURING",
            Op::TEquals => "T_EQUALS",
            Op::TFinishedBy => "T_FINISHEDBY",
            Op::TFinishes => "T_FINISHES",
            Op::TIntersects => "T_INTERSECTS",
            Op::TMeets => "T_MEETS",
            Op::TMetBy => "T_METBY",
            Op::TOverlappedBy => "T_OVERLAPPEDBY",
            Op::TOverlaps => "T_OVERLAPS",
            Op::TStartedBy => "T_STARTEDBY",
            Op::TStarts => "T_STARTS",
            Op::AEquals => "A_EQUALS",
            Op::AContains => "A_CONTAINS",
            Op::AContainedBy => "A_CONTAINEDBY",
            Op::AOverlaps => "A_OVERLAPS",
            Op::IsLike => "LIKE",
            Op::IsNotLike => "NOT LIKE",
            Op::IsBetween => "BETWEEN",
            Op::IsNotBetween => "NOT BETWEEN",
            Op::IsInList => "IN",
            Op::IsNotInList => "NOT IN",
            Op::IsNull => "IS NULL",
            Op::IsNotNull => "IS NOT NULL",
        }
    }
}

} // verus!
