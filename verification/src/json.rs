//! Names and operators of the JSON encoding of CQL2 expressions, and the
//! validation of its date and timestamp strings.

use crate::error::MyError;
use vstd::prelude::*;

verus! {

/// Whether two strings hold the same characters.
pub fn str_eq(a: &str, b: &str) -> (r: bool)
    ensures
        r == (a@ == b@),
{
    let x = a.to_string();
    let y = b.to_string();
    x == y
}

/// The `accenti` operator name.
#[derive(Debug, Clone, Copy, PartialEq, Eq, Structural)]
pub enum AccentiOp {
    /// `accenti`.
    Accenti,
}

impl AccentiOp {
    /// The text this value is written as.
    pub open spec fn text_spec(self) -> &'static str {
        match self {
            AccentiOp::Accenti => "accenti",
        }
    }

    /// The value a text stands for, if any.
    pub open spec fn parse_spec(s: Seq<char>) -> Option<Self> {
        if s == "accenti"@ {
            Some(AccentiOp::Accenti)
        } else {
            None
        }
    }

    /// Return the text this value is written as.
    pub fn text(&self) -> (r: &'static str)
        ensures
            r == self.text_spec(),
    {
        match self {
            AccentiOp::Accenti => "accenti",
        }
    }

    /// Parse the text of a value.
    pub fn from_str(value: &str) -> (r: Result<Self, MyError>)
        ensures
            r matches Ok(x) ==> Self::parse_spec(value@) == Some(x),
            r is Err ==> Self::parse_spec(value@) is None,
            r matches Err(e) ==> e is Runtime,
    {
        if str_eq(value, "accenti") {
            return Ok(AccentiOp::Accenti);
        }
        Err(MyError::Runtime("Expected ACCENTI".to_string()))
    }

    /// Parsing the text of a value gives the value back.
    pub proof fn lemma_text_round_trip(self)
        ensures
            Self::parse_spec(self.text_spec()@) == Some(self),
    {
        reveal_strlit("accenti");
    }
}

/// The operator of a logical AND/OR expression.
#[derive(Debug, Clone, Copy, PartialEq, Eq, Structural)]
pub enum AndOrExpressionOp {
    /// `and`.
    And,
    /// `or`.
    Or,
}

impl AndOrExpressionOp {
    /// The text this value is written as.
    pub open spec fn text_spec(self) -> &'static str {
        match self {
            AndOrExpressionOp::And => "and",
            AndOrExpressionOp::Or => "or",
        }
    }

    /// The value a text stands for, if any.
    pub open spec fn parse_spec(s: Seq<char>) -> Option<Self> {
        if s == "and"@ {
            Some(AndOrExpressionOp::And)
        } else if s == "or"@ {
            Some(AndOrExpressionOp::Or)
        } else {
            None
        }
    }

    /// Return the text this value is written as.
    pub fn text(&self) -> (r: &'static str)
        ensures
            r == self.text_spec(),
    {
        match self {
            AndOrExpressionOp::And => "and",
            AndOrExpressionOp::Or => "or",
        }
    }

    /// Parse the text of a value.
    pub fn from_str(value: &str) -> (r: Result<Self, MyError>)
        ensures
            r matches Ok(x) ==> Self::parse_spec(value@) == Some(x),
            r is Err ==> Self::parse_spec(value@) is None,
            r matches Err(e) ==> e is Runtime,
    {
        if str_eq(value, "and") {
            return Ok(AndOrExpressionOp::And);
        }
        if str_eq(value, "or") {
            return Ok(AndOrExpressionOp::Or);
        }
        Err(MyError::Runtime("Expected AND | OR".to_string()))
    }

    /// Parsing the text of a value gives the value back.
    pub proof fn lemma_text_round_trip(self)
        ensures
            Self::parse_spec(self.text_spec()@) == Some(self),
    {
        reveal_strlit("and");
        reveal_strlit("or");
        match self {
            AndOrExpressionOp::And => {},
            AndOrExpressionOp::Or => {
                assert("or"@[0] != "and"@[0]);
            },
        }
    }
}

/// The operator of an arithmetic expression.
#[derive(Debug, Clone, Copy, PartialEq, Eq, Structural)]
pub enum ArithmeticExpressionOp {
    /// `+`.
    Plus,
    /// `-`.
    Minus,
    /// `*`.
    Mult,
    /// `/`.
    Div,
    /// `^`.
    Exp,
    /// `%`.
    Mod,
    /// `div`.
    IntDiv,
}

impl ArithmeticExpressionOp {
    /// The text this value is written as.
    pub open spec fn text_spec(self) -> &'static str {
        match self {
            ArithmeticExpressionOp::Plus => "+",
            ArithmeticExpressionOp::Minus => "-",
            ArithmeticExpressionOp::Mult => "*",
            ArithmeticExpressionOp::Div => "/",
            ArithmeticExpressionOp::Exp => "^",
            ArithmeticExpressionOp::Mod => "%",
            ArithmeticExpressionOp::IntDiv => "div",
        }
    }

    /// The value a text stands for, if any.
    pub open spec fn parse_spec(s: Seq<char>) -> Option<Self> {
        if s == "+"@ {
            Some(ArithmeticExpressionOp::Plus)
        } else if s == "-"@ {
            Some(ArithmeticExpressionOp::Minus)
        } else if s == "*"@ {
            Some(ArithmeticExpressionOp::Mult)
        } else if s == "/"@ {
            Some(ArithmeticExpressionOp::Div)
        } else if s == "^"@ {
            Some(ArithmeticExpressionOp::Exp)
        } else if s == "%"@ {
            Some(ArithmeticExpressionOp::Mod)
        } else if s == "div"@ {
            Some(ArithmeticExpressionOp::IntDiv)
        } else {
            None
        }
    }

    /// Return the text this value is written as.
    pub fn text(&self) -> (r: &'static str)
        ensures
            r == self.text_spec(),
    {
        match self {
            ArithmeticExpressionOp::Plus => "+",
            ArithmeticExpressionOp::Minus => "-",
            ArithmeticExpressionOp::Mult => "*",
            ArithmeticExpressionOp::Div => "/",
            ArithmeticExpressionOp::Exp => "^",
            ArithmeticExpressionOp::Mod => "%",
            ArithmeticExpressionOp::IntDiv => "div",
        }
    }

    /// Parse the text of a value.
    pub fn from_str(value: &str) -> (r: Result<Self, MyError>)
        ensures
            r matches Ok(x) ==> Self::parse_spec(value@) == Some(x),
            r is Err ==> Self::parse_spec(value@) is None,
            r matches Err(e) ==> e is Runtime,
    {
        if str_eq(value, "+") {
            return Ok(ArithmeticExpressionOp::Plus);
        }
        if str_eq(value, "-") {
            return Ok(ArithmeticExpressionOp::Minus);
        }
        if str_eq(value, "*") {
            return Ok(ArithmeticExpressionOp::Mult);
        }
        if str_eq(value, "/") {
            return Ok(ArithmeticExpressionOp::Div);
        }
        if str_eq(value, "^") {
            return Ok(ArithmeticExpressionOp::Exp);
        }
        if str_eq(value, "%") {
            return Ok(ArithmeticExpressionOp::Mod);
        }
        if str_eq(value, "div") {
            return Ok(ArithmeticExpressionOp::IntDiv);
        }
        Err(MyError::Runtime("Expected + | - | * | / | ^ | % | div".to_string()))
    }

    /// Parsing the text of a value gives the value back.
    pub proof fn lemma_text_round_trip(self)
        ensures
            Self::parse_spec(self.text_spec()@) == Some(self),
    {
        reveal_strlit("+");
        reveal_strlit("-");
        reveal_strlit("*");
        reveal_strlit("/");
        reveal_strlit("^");
        reveal_strlit("%");
        reveal_strlit("div");
        match self {
            ArithmeticExpressionOp::Plus => {},
            ArithmeticExpressionOp::Minus => {
                assert("-"@[0] != "+"@[0]);
            },
            ArithmeticExpressionOp::Mult => {
                assert("*"@[0] != "+"@[0]);
                assert("*"@[0] != "-"@[0]);
            },
            ArithmeticExpressionOp::Div => {
                assert("/"@[0] != "+"@[0]);
                assert("/"@[0] != "-"@[0]);
                assert("/"@[0] != "*"@[0]);
            },
            ArithmeticExpressionOp::Exp => {
                assert("^"@[0] != "+"@[0]);
                assert("^"@[0] != "-"@[0]);
                assert("^"@[0] != "*"@[0]);
                assert("^"@[0] != "/"@[0]);
            },
            ArithmeticExpressionOp::Mod => {
                assert("%"@[0] != "+"@[0]);
                assert("%"@[0] != "-"@[0]);
                assert("%"@[0] != "*"@[0]);
                assert("%"@[0] != "/"@[0]);
                assert("%"@[0] != "^"@[0]);
            },
            ArithmeticExpressionOp::IntDiv => {
                assert("div"@[0] != "+"@[0]);
                assert("div"@[0] != "-"@[0]);
                assert("div"@[0] != "*"@[0]);
                assert("div"@[0] != "/"@[0]);
                assert("div"@[0] != "^"@[0]);
                assert("div"@[0] != "%"@[0]);
            },
        }
    }
}

/// The operator of an array predicate.
#[derive(Debug, Clone, Copy, PartialEq, Eq, Structural)]
pub enum ArrayPredicateOp {
    /// `a_containedBy`.
    AContainedBy,
    /// `a_contains`.
    AContains,
    /// `a_equals`.
    AEquals,
    /// `a_overlaps`.
    AOverlaps,
}

impl ArrayPredicateOp {
    /// The text this value is written as.
    pub open spec fn text_spec(self) -> &'static str {
        match self {
            ArrayPredicateOp::AContainedBy => "a_containedBy",
            ArrayPredicateOp::AContains => "a_contains",
            ArrayPredicateOp::AEquals => "a_equals",
            ArrayPredicateOp::AOverlaps => "a_overlaps",
        }
    }

    /// The value a text stands for, if any.
    pub open spec fn parse_spec(s: Seq<char>) -> Option<Self> {
        if s == "a_containedBy"@ {
            Some(ArrayPredicateOp::AContainedBy)
        } else if s == "a_contains"@ {
            Some(ArrayPredicateOp::AContains)
        } else if s == "a_equals"@ {
            Some(ArrayPredicateOp::AEquals)
        } else if s == "a_overlaps"@ {
            Some(ArrayPredicateOp::AOverlaps)
        } else {
            None
        }
    }

    /// Return the text this value is written as.
    pub fn text(&self) -> (r: &'static str)
        ensures
            r == self.text_spec(),
    {
        match self {
            ArrayPredicateOp::AContainedBy => "a_containedBy",
            ArrayPredicateOp::AContains => "a_contains",
            ArrayPredicateOp::AEquals => "a_equals",
            ArrayPredicateOp::AOverlaps => "a_overlaps",
        }
    }

    /// Parse the text of a value.
    pub fn from_str(value: &str) -> (r: Result<Self, MyError>)
        ensures
            r matches Ok(x) ==> Self::parse_spec(value@) == Some(x),
            r is Err ==> Self::parse_spec(value@) is None,
            r matches Err(e) ==> e is Runtime,
    {
        if str_eq(value, "a_containedBy") {
            return Ok(ArrayPredicateOp::AContainedBy);
        }
        if str_eq(value, "a_contains") {
            return Ok(ArrayPredicateOp::AContains);
        }
        if str_eq(value, "a_equals") {
            return Ok(ArrayPredicateOp::AEquals);
        }
        if str_eq(value, "a_overlaps") {
            return Ok(ArrayPredicateOp::AOverlaps);
        }
        Err(MyError::Runtime("Expected array function".to_string()))
    }

    /// Parsing the text of a value gives the value back.
    pub proof fn lemma_text_round_trip(self)
        ensures
            Self::parse_spec(self.text_spec()@) == Some(self),
    {
        reveal_strlit("a_containedBy");
        reveal_strlit("a_contains");
        reveal_strlit("a_equals");
        reveal_strlit("a_overlaps");
        match self {
            ArrayPredicateOp::AContainedBy => {},
            ArrayPredicateOp::AContains => {
                assert("a_contains"@[9] != "a_containedBy"@[9]);
            },
            ArrayPredicateOp::AEquals => {
                assert("a_equals"@[2] != "a_containedBy"@[2]);
                assert("a_equals"@[2] != "a_contains"@[2]);
            },
            ArrayPredicateOp::AOverlaps => {
                assert("a_overlaps"@[2] != "a_containedBy"@[2]);
                assert("a_overlaps"@[2] != "a_contains"@[2]);
                assert("a_overlaps"@[2] != "a_equals"@[2]);
            },
        }
    }
}

/// The operator of a binary comparison predicate.
#[derive(Debug, Clone, Copy, PartialEq, Eq, Structural)]
pub enum BinaryComparisonPredicateOp {
    /// `=`.
    Eq,
    /// `<>`.
    Neq,
    /// `<`.
    Lt,
    /// `>`.
    Gt,
    /// `<=`.
    Lte,
    /// `>=`.
    Gte,
}

impl BinaryComparisonPredicateOp {
    /// The text this value is written as.
    pub open spec fn text_spec(self) -> &'static str {
        match self {
            BinaryComparisonPredicateOp::Eq => "=",
            BinaryComparisonPredicateOp::Neq => "<>",
            BinaryComparisonPredicateOp::Lt => "<",
            BinaryComparisonPredicateOp::Gt => ">",
            BinaryComparisonPredicateOp::Lte => "<=",
            BinaryComparisonPredicateOp::Gte => ">=",
        }
    }

    /// The value a text stands for, if any.
    pub open spec fn parse_spec(s: Seq<char>) -> Option<Self> {
        if s == "="@ {
            Some(BinaryComparisonPredicateOp::Eq)
        } else if s == "<>"@ {
            Some(BinaryComparisonPredicateOp::Neq)
        } else if s == "<"@ {
            Some(BinaryComparisonPredicateOp::Lt)
        } else if s == ">"@ {
            Some(BinaryComparisonPredicateOp::Gt)
        } else if s == "<="@ {
            Some(BinaryComparisonPredicateOp::Lte)
        } else if s == ">="@ {
            Some(BinaryComparisonPredicateOp::Gte)
        } else {
            None
        }
    }

    /// Return the text this value is written as.
    pub fn text(&self) -> (r: &'static str)
        ensures
            r == self.text_spec(),
    {
        match self {
            BinaryComparisonPredicateOp::Eq => "=",
            BinaryComparisonPredicateOp::Neq => "<>",
            BinaryComparisonPredicateOp::Lt => "<",
            BinaryComparisonPredicateOp::Gt => ">",
            BinaryComparisonPredicateOp::Lte => "<=",
            BinaryComparisonPredicateOp::Gte => ">=",
        }
    }

    /// Parse the text of a value.
    pub fn from_str(value: &str) -> (r: Result<Self, MyError>)
        ensures
            r matches Ok(x) ==> Self::parse_spec(value@) == Some(x),
            r is Err ==> Self::parse_spec(value@) is None,
            r matches Err(e) ==> e is Runtime,
    {
        if str_eq(value, "=") {
            return Ok(BinaryComparisonPredicateOp::Eq);
        }
        if str_eq(value, "<>") {
            return Ok(BinaryComparisonPredicateOp::Neq);
        }
        if str_eq(value, "<") {
            return Ok(BinaryComparisonPredicateOp::Lt);
        }
        if str_eq(value, ">") {
            return Ok(BinaryComparisonPredicateOp::Gt);
        }
        if str_eq(value, "<=") {
            return Ok(BinaryComparisonPredicateOp::Lte);
        }
        if str_eq(value, ">=") {
            return Ok(BinaryComparisonPredicateOp::Gte);
        }
        Err(MyError::Runtime("Expected = | <> | < | > | <= | >=".to_string()))
    }

    /// Parsing the text of a value gives the value back.
    pub proof fn lemma_text_round_trip(self)
        ensures
            Self::parse_spec(self.text_spec()@) == Some(self),
    {
        reveal_strlit("=");
        reveal_strlit("<>");
        reveal_strlit("<");
        reveal_strlit(">");
        reveal_strlit("<=");
        reveal_strlit(">=");
        match self {
            BinaryComparisonPredicateOp::Eq => {},
            BinaryComparisonPredicateOp::Neq => {
                assert("<>"@[0] != "="@[0]);
            },
            BinaryComparisonPredicateOp::Lt => {
                assert("<"@[0] != "="@[0]);
                assert("<"@.len() != "<>"@.len());
            },
            BinaryComparisonPredicateOp::Gt => {
                assert(">"@[0] != "="@[0]);
                assert(">"@[0] != "<>"@[0]);
                assert(">"@[0] != "<"@[0]);
            },
            BinaryComparisonPredicateOp::Lte => {
                assert("<="@[0] != "="@[0]);
                assert("<="@[1] != "<>"@[1]);
                assert("<="@.len() != "<"@.len());
                assert("<="@[0] != ">"@[0]);
            },
            BinaryComparisonPredicateOp::Gte => {
                assert(">="@[0] != "="@[0]);
                assert(">="@[0] != "<>"@[0]);
                assert(">="@[0] != "<"@[0]);
                assert(">="@.len() != ">"@.len());
                assert(">="@[0] != "<="@[0]);
            },
        }
    }
}

/// The `casei` operator name.
#[derive(Debug, Clone, Copy, PartialEq, Eq, Structural)]
pub enum CaseiOp {
    /// `casei`.
    Casei,
}

impl CaseiOp {
    /// The text this value is written as.
    pub open spec fn text_spec(self) -> &'static str {
        match self {
            CaseiOp::Casei => "casei",
        }
    }

    /// The value a text stands for, if any.
    pub open spec fn parse_spec(s: Seq<char>) -> Option<Self> {
        if s == "casei"@ {
            Some(CaseiOp::Casei)
        } else {
            None
        }
    }

    /// Return the text this value is written as.
    pub fn text(&self) -> (r: &'static str)
        ensures
            r == self.text_spec(),
    {
        match self {
            CaseiOp::Casei => "casei",
        }
    }

    /// Parse the text of a value.
    pub fn from_str(value: &str) -> (r: Result<Self, MyError>)
        ensures
            r matches Ok(x) ==> Self::parse_spec(value@) == Some(x),
            r is Err ==> Self::parse_spec(value@) is None,
            r matches Err(e) ==> e is Runtime,
    {
        if str_eq(value, "casei") {
            return Ok(CaseiOp::Casei);
        }
        Err(MyError::Runtime("Expected CASEI".to_string()))
    }

    /// Parsing the text of a value gives the value back.
    pub proof fn lemma_text_round_trip(self)
        ensures
            Self::parse_spec(self.text_spec()@) == Some(self),
    {
        reveal_strlit("casei");
    }
}

/// The type name of a geometry collection.
#[derive(Debug, Clone, Copy, PartialEq, Eq, Structural)]
pub enum GeometrycollectionType {
    /// `GeometryCollection`.
    GeometryCollection,
}

impl GeometrycollectionType {
    /// The text this value is written as.
    pub open spec fn text_spec(self) -> &'static str {
        match self {
            GeometrycollectionType::GeometryCollection => "GeometryCollection",
        }
    }

    /// The value a text stands for, if any.
    pub open spec fn parse_spec(s: Seq<char>) -> Option<Self> {
        if s == "GeometryCollection"@ {
            Some(GeometrycollectionType::GeometryCollection)
        } else {
            None
        }
    }

    /// Return the text this value is written as.
    pub fn text(&self) -> (r: &'static str)
        ensures
            r == self.text_spec(),
    {
        match self {
            GeometrycollectionType::GeometryCollection => "GeometryCollection",
        }
    }

    /// Parse the text of a value.
    pub fn from_str(value: &str) -> (r: Result<Self, MyError>)
        ensures
            r matches Ok(x) ==> Self::parse_spec(value@) == Some(x),
            r is Err ==> Self::parse_spec(value@) is None,
            r matches Err(e) ==> e is Runtime,
    {
        if str_eq(value, "GeometryCollection") {
            return Ok(GeometrycollectionType::GeometryCollection);
        }
        Err(MyError::Runtime("Expected GEOMETRYCOLLECTION".to_string()))
    }

    /// Parsing the text of a value gives the value back.
    pub proof fn lemma_text_round_trip(self)
        ensures
            Self::parse_spec(self.text_spec()@) == Some(self),
    {
        reveal_strlit("GeometryCollection");
    }
}

/// The open end of an interval.
#[derive(Debug, Clone, Copy, PartialEq, Eq, Structural)]
pub enum IntervalArrayItemVariant1 {
    /// `..`.
    X,
}

impl IntervalArrayItemVariant1 {
    /// The text this value is written as.
    pub open spec fn text_spec(self) -> &'static str {
        match self {
            IntervalArrayItemVariant1::X => "..",
        }
    }

    /// The value a text stands for, if any.
    pub open spec fn parse_spec(s: Seq<char>) -> Option<Self> {
        if s == ".."@ {
            Some(IntervalArrayItemVariant1::X)
        } else {
            None
        }
    }

    /// Return the text this value is written as.
    pub fn text(&self) -> (r: &'static str)
        ensures
            r == self.text_spec(),
    {
        match self {
            IntervalArrayItemVariant1::X => "..",
        }
    }

    /// Parse the text of a value.
    pub fn from_str(value: &str) -> (r: Result<Self, MyError>)
        ensures
            r matches Ok(x) ==> Self::parse_spec(value@) == Some(x),
            r is Err ==> Self::parse_spec(value@) is None,
            r matches Err(e) ==> e is Runtime,
    {
        if str_eq(value, "..") {
            return Ok(IntervalArrayItemVariant1::X);
        }
        Err(MyError::Runtime("Expected ..".to_string()))
    }

    /// Parsing the text of a value gives the value back.
    pub proof fn lemma_text_round_trip(self)
        ensures
            Self::parse_spec(self.text_spec()@) == Some(self),
    {
        reveal_strlit("..");
    }
}

/// The `between` operator name.
#[derive(Debug, Clone, Copy, PartialEq, Eq, Structural)]
pub enum IsBetweenPredicateOp {
    /// `between`.
    Between,
}

impl IsBetweenPredicateOp {
    /// The text this value is written as.
    pub open spec fn text_spec(self) -> &'static str {
        match self {
            IsBetweenPredicateOp::Between => "between",
        }
    }

    /// The value a text stands for, if any.
    pub open spec fn parse_spec(s: Seq<char>) -> Option<Self> {
        if s == "between"@ {
            Some(IsBetweenPredicateOp::Between)
        } else {
            None
        }
    }

    /// Return the text this value is written as.
    pub fn text(&self) -> (r: &'static str)
        ensures
            r == self.text_spec(),
    {
        match self {
            IsBetweenPredicateOp::Between => "between",
        }
    }

    /// Parse the text of a value.
    pub fn from_str(value: &str) -> (r: Result<Self, MyError>)
        ensures
            r matches Ok(x) ==> Self::parse_spec(value@) == Some(x),
            r is Err ==> Self::parse_spec(value@) is None,
            r matches Err(e) ==> e is Runtime,
    {
        if str_eq(value, "between") {
            return Ok(IsBetweenPredicateOp::Between);
        }
        Err(MyError::Runtime("invalid value".to_string()))
    }

    /// Parsing the text of a value gives the value back.
    pub proof fn lemma_text_round_trip(self)
        ensures
            Self::parse_spec(self.text_spec()@) == Some(self),
    {
        reveal_strlit("between");
    }
}

/// The `in` operator name.
#[derive(Debug, Clone, Copy, PartialEq, Eq, Structural)]
pub enum IsInListPredicateOp {
    /// `in`.
    In,
}

impl IsInListPredicateOp {
    /// The text this value is written as.
    pub open spec fn text_spec(self) -> &'static str {
        match self {
            IsInListPredicateOp::In => "in",
        }
    }

    /// The value a text stands for, if any.
    pub open spec fn parse_spec(s: Seq<char>) -> Option<Self> {
        if s == "in"@ {
            Some(IsInListPredicateOp::In)
        } else {
            None
        }
    }

    /// Return the text this value is written as.
    pub fn text(&self) -> (r: &'static str)
        ensures
            r == self.text_spec(),
    {
        match self {
            IsInListPredicateOp::In => "in",
        }
    }

    /// Parse the text of a value.
    pub fn from_str(value: &str) -> (r: Result<Self, MyError>)
        ensures
            r matches Ok(x) ==> Self::parse_spec(value@) == Some(x),
            r is Err ==> Self::parse_spec(value@) is None,
            r matches Err(e) ==> e is Runtime,
    {
        if str_eq(value, "in") {
            return Ok(IsInListPredicateOp::In);
        }
        Err(MyError::Runtime("Expected IN".to_string()))
    }

    /// Parsing the text of a value gives the value back.
    pub proof fn lemma_text_round_trip(self)
        ensures
            Self::parse_spec(self.text_spec()@) == Some(self),
    {
        reveal_strlit("in");
    }
}

/// The `like` operator name.
#[derive(Debug, Clone, Copy, PartialEq, Eq, Structural)]
pub enum IsLikePredicateOp {
    /// `like`.
    Like,
}

impl IsLikePredicateOp {
    /// The text this value is written as.
    pub open spec fn text_spec(self) -> &'static str {
        match self {
            IsLikePredicateOp::Like => "like",
        }
    }

    /// The value a text stands for, if any.
    pub open spec fn parse_spec(s: Seq<char>) -> Option<Self> {
        if s == "like"@ {
            Some(IsLikePredicateOp::Like)
        } else {
            None
        }
    }

    /// Return the text this value is written as.
    pub fn text(&self) -> (r: &'static str)
        ensures
            r == self.text_spec(),
    {
        match self {
            IsLikePredicateOp::Like => "like",
        }
    }

    /// Parse the text of a value.
    pub fn from_str(value: &str) -> (r: Result<Self, MyError>)
        ensures
            r matches Ok(x) ==> Self::parse_spec(value@) == Some(x),
            r is Err ==> Self::parse_spec(value@) is None,
            r matches Err(e) ==> e is Runtime,
    {
        if str_eq(value, "like") {
            return Ok(IsLikePredicateOp::Like);
        }
        Err(MyError::Runtime("Expected LIKE".to_string()))
    }

    /// Parsing the text of a value gives the value back.
    pub proof fn lemma_text_round_trip(self)
        ensures
            Self::parse_spec(self.text_spec()@) == Some(self),
    {
        reveal_strlit("like");
    }
}

/// The `isNull` operator name.
#[derive(Debug, Clone, Copy, PartialEq, Eq, Structural)]
pub enum IsNullPredicateOp {
    /// `isNull`.
    IsNull,
}

impl IsNullPredicateOp {
    /// The text this value is written as.
    pub open spec fn text_spec(self) -> &'static str {
        match self {
            IsNullPredicateOp::IsNull => "isNull",
        }
    }

    /// The value a text stands for, if any.
    pub open spec fn parse_spec(s: Seq<char>) -> Option<Self> {
        if s == "isNull"@ {
            Some(IsNullPredicateOp::IsNull)
        } else {
            None
        }
    }

    /// Return the text this value is written as.
    pub fn text(&self) -> (r: &'static str)
        ensures
            r == self.text_spec(),
    {
        match self {
            IsNullPredicateOp::IsNull => "isNull",
        }
    }

    /// Parse the text of a value.
    pub fn from_str(value: &str) -> (r: Result<Self, MyError>)
        ensures
            r matches Ok(x) ==> Self::parse_spec(value@) == Some(x),
            r is Err ==> Self::parse_spec(value@) is None,
            r matches Err(e) ==> e is Runtime,
    {
        if str_eq(value, "isNull") {
            return Ok(IsNullPredicateOp::IsNull);
        }
        Err(MyError::Runtime("Expected IS NULL".to_string()))
    }

    /// Parsing the text of a value gives the value back.
    pub proof fn lemma_text_round_trip(self)
        ensures
            Self::parse_spec(self.text_spec()@) == Some(self),
    {
        reveal_strlit("isNull");
    }
}

/// The type name of a line string.
#[derive(Debug, Clone, Copy, PartialEq, Eq, Structural)]
pub enum LinestringType {
    /// `LineString`.
    LineString,
}

impl LinestringType {
    /// The text this value is written as.
    pub open spec fn text_spec(self) -> &'static str {
        match self {
            LinestringType::LineString => "LineString",
        }
    }

    /// The value a text stands for, if any.
    pub open spec fn parse_spec(s: Seq<char>) -> Option<Self> {
        if s == "LineString"@ {
            Some(LinestringType::LineString)
        } else {
            None
        }
    }

    /// Return the text this value is written as.
    pub fn text(&self) -> (r: &'static str)
        ensures
            r == self.text_spec(),
    {
        match self {
            LinestringType::LineString => "LineString",
        }
    }

    /// Parse the text of a value.
    pub fn from_str(value: &str) -> (r: Result<Self, MyError>)
        ensures
            r matches Ok(x) ==> Self::parse_spec(value@) == Some(x),
            r is Err ==> Self::parse_spec(value@) is None,
            r matches Err(e) ==> e is Runtime,
    {
        if str_eq(value, "LineString") {
            return Ok(LinestringType::LineString);
        }
        Err(MyError::Runtime("Expected LINESTRING".to_string()))
    }

    /// Parsing the text of a value gives the value back.
    pub proof fn lemma_text_round_trip(self)
        ensures
            Self::parse_spec(self.text_spec()@) == Some(self),
    {
        reveal_strlit("LineString");
    }
}

/// The type name of a multi line string.
#[derive(Debug, Clone, Copy, PartialEq, Eq, Structural)]
pub enum MultilinestringType {
    /// `MultiLineString`.
    MultiLineString,
}

impl MultilinestringType {
    /// The text this value is written as.
    pub open spec fn text_spec(self) -> &'static str {
        match self {
            MultilinestringType::MultiLineString => "MultiLineString",
        }
    }

    /// The value a text stands for, if any.
    pub open spec fn parse_spec(s: Seq<char>) -> Option<Self> {
        if s == "MultiLineString"@ {
            Some(MultilinestringType::MultiLineString)
        } else {
            None
        }
    }

    /// Return the text this value is written as.
    pub fn text(&self) -> (r: &'static str)
        ensures
            r == self.text_spec(),
    {
        match self {
            MultilinestringType::MultiLineString => "MultiLineString",
        }
    }

    /// Parse the text of a value.
    pub fn from_str(value: &str) -> (r: Result<Self, MyError>)
        ensures
            r matches Ok(x) ==> Self::parse_spec(value@) == Some(x),
            r is Err ==> Self::parse_spec(value@) is None,
            r matches Err(e) ==> e is Runtime,
    {
        if str_eq(value, "MultiLineString") {
            return Ok(MultilinestringType::MultiLineString);
        }
        Err(MyError::Runtime("Expected MULTILINESTRING".to_string()))
    }

    /// Parsing the text of a value gives the value back.
    pub proof fn lemma_text_round_trip(self)
        ensures
            Self::parse_spec(self.text_spec()@) == Some(self),
    {
        reveal_strlit("MultiLineString");
    }
}

/// The type name of a multi point.
#[derive(Debug, Clone, Copy, PartialEq, Eq, Structural)]
pub enum MultipointType {
    /// `MultiPoint`.
    MultiPoint,
}

impl MultipointType {
    /// The text this value is written as.
    pub open spec fn text_spec(self) -> &'static str {
        match self {
            MultipointType::MultiPoint => "MultiPoint",
        }
    }

    /// The value a text stands for, if any.
    pub open spec fn parse_spec(s: Seq<char>) -> Option<Self> {
        if s == "MultiPoint"@ {
            Some(MultipointType::MultiPoint)
        } else {
            None
        }
    }

    /// Return the text this value is written as.
    pub fn text(&self) -> (r: &'static str)
        ensures
            r == self.text_spec(),
    {
        match self {
            MultipointType::MultiPoint => "MultiPoint",
        }
    }

    /// Parse the text of a value.
    pub fn from_str(value: &str) -> (r: Result<Self, MyError>)
        ensures
            r matches Ok(x) ==> Self::parse_spec(value@) == Some(x),
            r is Err ==> Self::parse_spec(value@) is None,
            r matches Err(e) ==> e is Runtime,
    {
        if str_eq(value, "MultiPoint") {
            return Ok(MultipointType::MultiPoint);
        }
        Err(MyError::Runtime("Expected MULTIPOINT".to_string()))
    }

    /// Parsing the text of a value gives the value back.
    pub proof fn lemma_text_round_trip(self)
        ensures
            Self::parse_spec(self.text_spec()@) == Some(self),
    {
        reveal_strlit("MultiPoint");
    }
}

/// The type name of a multi polygon.
#[derive(Debug, Clone, Copy, PartialEq, Eq, Structural)]
pub enum MultipolygonType {
    /// `MultiPolygon`.
    MultiPolygon,
}

impl MultipolygonType {
    /// The text this value is written as.
    pub open spec fn text_spec(self) -> &'static str {
        match self {
            MultipolygonType::MultiPolygon => "MultiPolygon",
        }
    }

    /// The value a text stands for, if any.
    pub open spec fn parse_spec(s: Seq<char>) -> Option<Self> {
        if s == "MultiPolygon"@ {
            Some(MultipolygonType::MultiPolygon)
        } else {
            None
        }
    }

    /// Return the text this value is written as.
    pub fn text(&self) -> (r: &'static str)
        ensures
            r == self.text_spec(),
    {
        match self {
            MultipolygonType::MultiPolygon => "MultiPolygon",
        }
    }

    /// Parse the text of a value.
    pub fn from_str(value: &str) -> (r: Result<Self, MyError>)
        ensures
            r matches Ok(x) ==> Self::parse_spec(value@) == Some(x),
            r is Err ==> Self::parse_spec(value@) is None,
            r matches Err(e) ==> e is Runtime,
    {
        if str_eq(value, "MultiPolygon") {
            return Ok(MultipolygonType::MultiPolygon);
        }
        Err(MyError::Runtime("Expected MULTIPOLYGON".to_string()))
    }

    /// Parsing the text of a value gives the value back.
    pub proof fn lemma_text_round_trip(self)
        ensures
            Self::parse_spec(self.text_spec()@) == Some(self),
    {
        reveal_strlit("MultiPolygon");
    }
}

/// The `not` operator name.
#[derive(Debug, Clone, Copy, PartialEq, Eq, Structural)]
pub enum NotExpressionOp {
    /// `not`.
    Not,
}

impl NotExpressionOp {
    /// The text this value is written as.
    pub open spec fn text_spec(self) -> &'static str {
        match self {
            NotExpressionOp::Not => "not",
        }
    }

    /// The value a text stands for, if any.
    pub open spec fn parse_spec(s: Seq<char>) -> Option<Self> {
        if s == "not"@ {
            Some(NotExpressionOp::Not)
        } else {
            None
        }
    }

    /// Return the text this value is written as.
    pub fn text(&self) -> (r: &'static str)
        ensures
            r == self.text_spec(),
    {
        match self {
            NotExpressionOp::Not => "not",
        }
    }

    /// Parse the text of a value.
    pub fn from_str(value: &str) -> (r: Result<Self, MyError>)
        ensures
            r matches Ok(x) ==> Self::parse_spec(value@) == Some(x),
            r is Err ==> Self::parse_spec(value@) is None,
            r matches Err(e) ==> e is Runtime,
    {
        if str_eq(value, "not") {
            return Ok(NotExpressionOp::Not);
        }
        Err(MyError::Runtime("Expected NOT".to_string()))
    }

    /// Parsing the text of a value gives the value back.
    pub proof fn lemma_text_round_trip(self)
        ensures
            Self::parse_spec(self.text_spec()@) == Some(self),
    {
        reveal_strlit("not");
    }
}

/// The `casei` operator name within a LIKE pattern.
#[derive(Debug, Clone, Copy, PartialEq, Eq, Structural)]
pub enum PatternExpressionVariant0Op {
    /// `casei`.
    Casei,
}

impl PatternExpressionVariant0Op {
    /// The text this value is written as.
    pub open spec fn text_spec(self) -> &'static str {
        match self {
            PatternExpressionVariant0Op::Casei => "casei",
        }
    }

    /// The value a text stands for, if any.
    pub open spec fn parse_spec(s: Seq<char>) -> Option<Self> {
        if s == "casei"@ {
            Some(PatternExpressionVariant0Op::Casei)
        } else {
            None
        }
    }

    /// Return the text this value is written as.
    pub fn text(&self) -> (r: &'static str)
        ensures
            r == self.text_spec(),
    {
        match self {
            PatternExpressionVariant0Op::Casei => "casei",
        }
    }

    /// Parse the text of a value.
    pub fn from_str(value: &str) -> (r: Result<Self, MyError>)
        ensures
            r matches Ok(x) ==> Self::parse_spec(value@) == Some(x),
            r is Err ==> Self::parse_spec(value@) is None,
            r matches Err(e) ==> e is Runtime,
    {
        if str_eq(value, "casei") {
            return Ok(PatternExpressionVariant0Op::Casei);
        }
        Err(MyError::Runtime("Expected CASEI".to_string()))
    }

    /// Parsing the text of a value gives the value back.
    pub proof fn lemma_text_round_trip(self)
        ensures
            Self::parse_spec(self.text_spec()@) == Some(self),
    {
        reveal_strlit("casei");
    }
}

/// The `accenti` operator name within a LIKE pattern.
#[derive(Debug, Clone, Copy, PartialEq, Eq, Structural)]
pub enum PatternExpressionVariant1Op {
    /// `accenti`.
    Accenti,
}

impl PatternExpressionVariant1Op {
    /// The text this value is written as.
    pub open spec fn text_spec(self) -> &'static str {
        match self {
            PatternExpressionVariant1Op::Accenti => "accenti",
        }
    }

    /// The value a text stands for, if any.
    pub open spec fn parse_spec(s: Seq<char>) -> Option<Self> {
        if s == "accenti"@ {
            Some(PatternExpressionVariant1Op::Accenti)
        } else {
            None
        }
    }

    /// Return the text this value is written as.
    pub fn text(&self) -> (r: &'static str)
        ensures
            r == self.text_spec(),
    {
        match self {
            PatternExpressionVariant1Op::Accenti => "accenti",
        }
    }

    /// Parse the text of a value.
    pub fn from_str(value: &str) -> (r: Result<Self, MyError>)
        ensures
            r matches Ok(x) ==> Self::parse_spec(value@) == Some(x),
            r is Err ==> Self::parse_spec(value@) is None,
            r matches Err(e) ==> e is Runtime,
    {
        if str_eq(value, "accenti") {
            return Ok(PatternExpressionVariant1Op::Accenti);
        }
        Err(MyError::Runtime("Expected ACCENTI".to_string()))
    }

    /// Parsing the text of a value gives the value back.
    pub proof fn lemma_text_round_trip(self)
        ensures
            Self::parse_spec(self.text_spec()@) == Some(self),
    {
        reveal_strlit("accenti");
    }
}

/// The type name of a point.
#[derive(Debug, Clone, Copy, PartialEq, Eq, Structural)]
pub enum PointType {
    /// `Point`.
    Point,
}

impl PointType {
    /// The text this value is written as.
    pub open spec fn text_spec(self) -> &'static str {
        match self {
            PointType::Point => "Point",
        }
    }

    /// The value a text stands for, if any.
    pub open spec fn parse_spec(s: Seq<char>) -> Option<Self> {
        if s == "Point"@ {
            Some(PointType::Point)
        } else {
            None
        }
    }

    /// Return the text this value is written as.
    pub fn text(&self) -> (r: &'static str)
        ensures
            r == self.text_spec(),
    {
        match self {
            PointType::Point => "Point",
        }
    }

    /// Parse the text of a value.
    pub fn from_str(value: &str) -> (r: Result<Self, MyError>)
        ensures
            r matches Ok(x) ==> Self::parse_spec(value@) == Some(x),
            r is Err ==> Self::parse_spec(value@) is None,
            r matches Err(e) ==> e is Runtime,
    {
        if str_eq(value, "Point") {
            return Ok(PointType::Point);
        }
        Err(MyError::Runtime("Expected POINT".to_string()))
    }

    /// Parsing the text of a value gives the value back.
    pub proof fn lemma_text_round_trip(self)
        ensures
            Self::parse_spec(self.text_spec()@) == Some(self),
    {
        reveal_strlit("Point");
    }
}

/// The type name of a polygon.
#[derive(Debug, Clone, Copy, PartialEq, Eq, Structural)]
pub enum PolygonType {
    /// `Polygon`.
    Polygon,
}

impl PolygonType {
    /// The text this value is written as.
    pub open spec fn text_spec(self) -> &'static str {
        match self {
            PolygonType::Polygon => "Polygon",
        }
    }

    /// The value a text stands for, if any.
    pub open spec fn parse_spec(s: Seq<char>) -> Option<Self> {
        if s == "Polygon"@ {
            Some(PolygonType::Polygon)
        } else {
            None
        }
    }

    /// Return the text this value is written as.
    pub fn text(&self) -> (r: &'static str)
        ensures
            r == self.text_spec(),
    {
        match self {
            PolygonType::Polygon => "Polygon",
        }
    }

    /// Parse the text of a value.
    pub fn from_str(value: &str) -> (r: Result<Self, MyError>)
        ensures
            r matches Ok(x) ==> Self::parse_spec(value@) == Some(x),
            r is Err ==> Self::parse_spec(value@) is None,
            r matches Err(e) ==> e is Runtime,
    {
        if str_eq(value, "Polygon") {
            return Ok(PolygonType::Polygon);
        }
        Err(MyError::Runtime("Expected POLYGON".to_string()))
    }

    /// Parsing the text of a value gives the value back.
    pub proof fn lemma_text_round_trip(self)
        ensures
            Self::parse_spec(self.text_spec()@) == Some(self),
    {
        reveal_strlit("Polygon");
    }
}

/// The operator of a spatial predicate.
#[derive(Debug, Clone, Copy, PartialEq, Eq, Structural)]
pub enum SpatialPredicateOp {
    /// `s_contains`.
    SContains,
    /// `s_crosses`.
    SCrosses,
    /// `s_disjoint`.
    SDisjoint,
    /// `s_equals`.
    SEquals,
    /// `s_intersects`.
    SIntersects,
    /// `s_overlaps`.
    SOverlaps,
    /// `s_touches`.
    STouches,
    /// `s_within`.
    SWithin,
}

impl SpatialPredicateOp {
    /// The text this value is written as.
    pub open spec fn text_spec(self) -> &'static str {
        match self {
            SpatialPredicateOp::SContains => "s_contains",
            SpatialPredicateOp::SCrosses => "s_crosses",
            SpatialPredicateOp::SDisjoint => "s_disjoint",
            SpatialPredicateOp::SEquals => "s_equals",
            SpatialPredicateOp::SIntersects => "s_intersects",
            SpatialPredicateOp::SOverlaps => "s_overlaps",
            SpatialPredicateOp::STouches => "s_touches",
            SpatialPredicateOp::SWithin => "s_within",
        }
    }

    /// The value a text stands for, if any.
    pub open spec fn parse_spec(s: Seq<char>) -> Option<Self> {
        if s == "s_contains"@ {
            Some(SpatialPredicateOp::SContains)
        } else if s == "s_crosses"@ {
            Some(SpatialPredicateOp::SCrosses)
        } else if s == "s_disjoint"@ {
            Some(SpatialPredicateOp::SDisjoint)
        } else if s == "s_equals"@ {
            Some(SpatialPredicateOp::SEquals)
        } else if s == "s_intersects"@ {
            Some(SpatialPredicateOp::SIntersects)
        } else if s == "s_overlaps"@ {
            Some(SpatialPredicateOp::SOverlaps)
        } else if s == "s_touches"@ {
            Some(SpatialPredicateOp::STouches)
        } else if s == "s_within"@ {
            Some(SpatialPredicateOp::SWithin)
        } else {
            None
        }
    }

    /// Return the text this value is written as.
    pub fn text(&self) -> (r: &'static str)
        ensures
            r == self.text_spec(),
    {
        match self {
            SpatialPredicateOp::SContains => "s_contains",
            SpatialPredicateOp::SCrosses => "s_crosses",
            SpatialPredicateOp::SDisjoint => "s_disjoint",
            SpatialPredicateOp::SEquals => "s_equals",
            SpatialPredicateOp::SIntersects => "s_intersects",
            SpatialPredicateOp::SOverlaps => "s_overlaps",
            SpatialPredicateOp::STouches => "s_touches",
            SpatialPredicateOp::SWithin => "s_within",
        }
    }

    /// Parse the text of a value.
    pub fn from_str(value: &str) -> (r: Result<Self, MyError>)
        ensures
            r matches Ok(x) ==> Self::parse_spec(value@) == Some(x),
            r is Err ==> Self::parse_spec(value@) is None,
            r matches Err(e) ==> e is Runtime,
    {
        if str_eq(value, "s_contains") {
            return Ok(SpatialPredicateOp::SContains);
        }
        if str_eq(value, "s_crosses") {
            return Ok(SpatialPredicateOp::SCrosses);
        }
        if str_eq(value, "s_disjoint") {
            return Ok(SpatialPredicateOp::SDisjoint);
        }
        if str_eq(value, "s_equals") {
            return Ok(SpatialPredicateOp::SEquals);
        }
        if str_eq(value, "s_intersects") {
            return Ok(SpatialPredicateOp::SIntersects);
        }
        if str_eq(value, "s_overlaps") {
            return Ok(SpatialPredicateOp::SOverlaps);
        }
        if str_eq(value, "s_touches") {
            return Ok(SpatialPredicateOp::STouches);
        }
        if str_eq(value, "s_within") {
            return Ok(SpatialPredicateOp::SWithin);
        }
        Err(MyError::Runtime("Expected spatial function".to_string()))
    }

    /// Parsing the text of a value gives the value back.
    pub proof fn lemma_text_round_trip(self)
        ensures
            Self::parse_spec(self.text_spec()@) == Some(self),
    {
        reveal_strlit("s_contains");
        reveal_strlit("s_crosses");
        reveal_strlit("s_disjoint");
        reveal_strlit("s_equals");
        reveal_strlit("s_intersects");
        reveal_strlit("s_overlaps");
        reveal_strlit("s_touches");
        reveal_strlit("s_within");
        match self {
            SpatialPredicateOp::SContains => {},
            SpatialPredicateOp::SCrosses => {
                assert("s_crosses"@[3] != "s_contains"@[3]);
            },
            SpatialPredicateOp::SDisjoint => {
                assert("s_disjoint"@[2] != "s_contains"@[2]);
                assert("s_disjoint"@[2] != "s_crosses"@[2]);
            },
            SpatialPredicateOp::SEquals => {
                assert("s_equals"@[2] != "s_contains"@[2]);
                assert("s_equals"@[2] != "s_crosses"@[2]);
                assert("s_equals"@[2] != "s_disjoint"@[2]);
            },
            SpatialPredicateOp::SIntersects => {
                assert("s_intersects"@[2] != "s_contains"@[2]);
                assert("s_intersects"@[2] != "s_crosses"@[2]);
                assert("s_intersects"@[2] != "s_disjoint"@[2]);
                assert("s_intersects"@[2] != "s_equals"@[2]);
            },
            SpatialPredicateOp::SOverlaps => {
                assert("s_overlaps"@[2] != "s_contains"@[2]);
                assert("s_overlaps"@[2] != "s_crosses"@[2]);
                assert("s_overlaps"@[2] != "s_disjoint"@[2]);
                assert("s_overlaps"@[2] != "s_equals"@[2]);
                assert("s_overlaps"@[2] != "s_intersects"@[2]);
            },
            SpatialPredicateOp::STouches => {
                assert("s_touches"@[2] != "s_contains"@[2]);
                assert("s_touches"@[2] != "s_crosses"@[2]);
                assert("s_touches"@[2] != "s_disjoint"@[2]);
                assert("s_touches"@[2] != "s_equals"@[2]);
                assert("s_touches"@[2] != "s_intersects"@[2]);
                assert("s_touches"@[2] != "s_overlaps"@[2]);
            },
            SpatialPredicateOp::SWithin => {
                assert("s_within"@[2] != "s_contains"@[2]);
                assert("s_within"@[2] != "s_crosses"@[2]);
                assert("s_within"@[2] != "s_disjoint"@[2]);
                assert("s_within"@[2] != "s_equals"@[2]);
                assert("s_within"@[2] != "s_intersects"@[2]);
                assert("s_within"@[2] != "s_overlaps"@[2]);
                assert("s_within"@[2] != "s_touches"@[2]);
            },
        }
    }
}

/// The operator of a temporal predicate.
#[derive(Debug, Clone, Copy, PartialEq, Eq, Structural)]
pub enum TemporalPredicateOp {
    /// `t_after`.
    TAfter,
    /// `t_before`.
    TBefore,
    /// `t_contains`.
    TContains,
    /// `t_disjoint`.
    TDisjoint,
    /// `t_during`.
    TDuring,
    /// `t_equals`.
    TEquals,
    /// `t_finishedBy`.
    TFinishedBy,
    /// `t_finishes`.
    TFinishes,
    /// `t_intersects`.
    TIntersects,
    /// `t_meets`.
    TMeets,
    /// `t_metBy`.
    TMetBy,
    /// `t_overlappedBy`.
    TOverlappedBy,
    /// `t_overlaps`.
    TOverlaps,
    /// `t_startedBy`.
    TStartedBy,
    /// `t_starts`.
    TStarts,
}

impl TemporalPredicateOp {
    /// The text this value is written as.
    pub open spec fn text_spec(self) -> &'static str {
        match self {
            TemporalPredicateOp::TAfter => "t_after",
            TemporalPredicateOp::TBefore => "t_before",
            TemporalPredicateOp::TContains => "t_contains",
            TemporalPredicateOp::TDisjoint => "t_disjoint",
            TemporalPredicateOp::TDuring => "t_during",
            TemporalPredicateOp::TEquals => "t_equals",
            TemporalPredicateOp::TFinishedBy => "t_finishedBy",
            TemporalPredicateOp::TFinishes => "t_finishes",
            TemporalPredicateOp::TIntersects => "t_intersects",
            TemporalPredicateOp::TMeets => "t_meets",
            TemporalPredicateOp::TMetBy => "t_metBy",
            TemporalPredicateOp::TOverlappedBy => "t_overlappedBy",
            TemporalPredicateOp::TOverlaps => "t_overlaps",
            TemporalPredicateOp::TStartedBy => "t_startedBy",
            TemporalPredicateOp::TStarts => "t_starts",
        }
    }

    /// The value a text stands for, if any.
    pub open spec fn parse_spec(s: Seq<char>) -> Option<Self> {
        if s == "t_after"@ {
            Some(TemporalPredicateOp::TAfter)
        } else if s == "t_before"@ {
            Some(TemporalPredicateOp::TBefore)
        } else if s == "t_contains"@ {
            Some(TemporalPredicateOp::TContains)
        } else if s == "t_disjoint"@ {
            Some(TemporalPredicateOp::TDisjoint)
        } else if s == "t_during"@ {
            Some(TemporalPredicateOp::TDuring)
        } else if s == "t_equals"@ {
            Some(TemporalPredicateOp::TEquals)
        } else if s == "t_finishedBy"@ {
            Some(TemporalPredicateOp::TFinishedBy)
        } else if s == "t_finishes"@ {
            Some(TemporalPredicateOp::TFinishes)
        } else if s == "t_intersects"@ {
            Some(TemporalPredicateOp::TIntersects)
        } else if s == "t_meets"@ {
            Some(TemporalPredicateOp::TMeets)
        } else if s == "t_metBy"@ {
            Some(TemporalPredicateOp::TMetBy)
        } else if s == "t_overlappedBy"@ {
            Some(TemporalPredicateOp::TOverlappedBy)
        } else if s == "t_overlaps"@ {
            Some(TemporalPredicateOp::TOverlaps)
        } else if s == "t_startedBy"@ {
            Some(TemporalPredicateOp::TStartedBy)
        } else if s == "t_starts"@ {
            Some(TemporalPredicateOp::TStarts)
        } else {
            None
        }
    }

    /// Return the text this value is written as.
    pub fn text(&self) -> (r: &'static str)
        ensures
            r == self.text_spec(),
    {
        match self {
            TemporalPredicateOp::TAfter => "t_after",
            TemporalPredicateOp::TBefore => "t_before",
            TemporalPredicateOp::TContains => "t_contains",
            TemporalPredicateOp::TDisjoint => "t_disjoint",
            TemporalPredicateOp::TDuring => "t_during",
            TemporalPredicateOp::TEquals => "t_equals",
            TemporalPredicateOp::TFinishedBy => "t_finishedBy",
            TemporalPredicateOp::TFinishes => "t_finishes",
            TemporalPredicateOp::TIntersects => "t_intersects",
            TemporalPredicateOp::TMeets => "t_meets",
            TemporalPredicateOp::TMetBy => "t_metBy",
            TemporalPredicateOp::TOverlappedBy => "t_overlappedBy",
            TemporalPredicateOp::TOverlaps => "t_overlaps",
            TemporalPredicateOp::TStartedBy => "t_startedBy",
            TemporalPredicateOp::TStarts => "t_starts",
        }
    }

    /// Parse the text of a value.
    pub fn from_str(value: &str) -> (r: Result<Self, MyError>)
        ensures
            r matches Ok(x) ==> Self::parse_spec(value@) == Some(x),
            r is Err ==> Self::parse_spec(value@) is None,
            r matches Err(e) ==> e is Runtime,
    {
        if str_eq(value, "t_after") {
            return Ok(TemporalPredicateOp::TAfter);
        }
        if str_eq(value, "t_before") {
            return Ok(TemporalPredicateOp::TBefore);
        }
        if str_eq(value, "t_contains") {
            return Ok(TemporalPredicateOp::TContains);
        }
        if str_eq(value, "t_disjoint") {
            return Ok(TemporalPredicateOp::TDisjoint);
        }
        if str_eq(value, "t_during") {
            return Ok(TemporalPredicateOp::TDuring);
        }
        if str_eq(value, "t_equals") {
            return Ok(TemporalPredicateOp::TEquals);
        }
        if str_eq(value, "t_finishedBy") {
            return Ok(TemporalPredicateOp::TFinishedBy);
        }
        if str_eq(value, "t_finishes") {
            return Ok(TemporalPredicateOp::TFinishes);
        }
        if str_eq(value, "t_intersects") {
            return Ok(TemporalPredicateOp::TIntersects);
        }
        if str_eq(value, "t_meets") {
            return Ok(TemporalPredicateOp::TMeets);
        }
        if str_eq(value, "t_metBy") {
            return Ok(TemporalPredicateOp::TMetBy);
        }
        if str_eq(value, "t_overlappedBy") {
            return Ok(TemporalPredicateOp::TOverlappedBy);
        }
        if str_eq(value, "t_overlaps") {
            return Ok(TemporalPredicateOp::TOverlaps);
        }
        if str_eq(value, "t_startedBy") {
            return Ok(TemporalPredicateOp::TStartedBy);
        }
        if str_eq(value, "t_starts") {
            return Ok(TemporalPredicateOp::TStarts);
        }
        Err(MyError::Runtime("Expected temporal function".to_string()))
    }

    /// Parsing the text of a value gives the value back.
    pub proof fn lemma_text_round_trip(self)
        ensures
            Self::parse_spec(self.text_spec()@) == Some(self),
    {
        reveal_strlit("t_after");
        reveal_strlit("t_before");
        reveal_strlit("t_contains");
        reveal_strlit("t_disjoint");
        reveal_strlit("t_during");
        reveal_strlit("t_equals");
        reveal_strlit("t_finishedBy");
        reveal_strlit("t_finishes");
        reveal_strlit("t_intersects");
        reveal_strlit("t_meets");
        reveal_strlit("t_metBy");
        reveal_strlit("t_overlappedBy");
        reveal_strlit("t_overlaps");
        reveal_strlit("t_startedBy");
        reveal_strlit("t_starts");
        match self {
            TemporalPredicateOp::TAfter => {},
            TemporalPredicateOp::TBefore => {
                assert("t_before"@[2] != "t_after"@[2]);
            },
            TemporalPredicateOp::TContains => {
                assert("t_contains"@[2] != "t_after"@[2]);
                assert("t_contains"@[2] != "t_before"@[2]);
            },
            TemporalPredicateOp::TDisjoint => {
                assert("t_disjoint"@[2] != "t_after"@[2]);
                assert("t_disjoint"@[2] != "t_before"@[2]);
                assert("t_disjoint"@[2] != "t_contains"@[2]);
            },
            TemporalPredicateOp::TDuring => {
                assert("t_during"@[2] != "t_after"@[2]);
                assert("t_during"@[2] != "t_before"@[2]);
                assert("t_during"@[2] != "t_contains"@[2]);
                assert("t_during"@[3] != "t_disjoint"@[3]);
            },
            TemporalPredicateOp::TEquals => {
                assert("t_equals"@[2] != "t_after"@[2]);
                assert("t_equals"@[2] != "t_before"@[2]);
                assert("t_equals"@[2] != "t_contains"@[2]);
                assert("t_equals"@[2] != "t_disjoint"@[2]);
                assert("t_equals"@[2] != "t_during"@[2]);
            },
            TemporalPredicateOp::TFinishedBy => {
                assert("t_finishedBy"@[2] != "t_after"@[2]);
                assert("t_finishedBy"@[2] != "t_before"@[2]);
                assert("t_finishedBy"@[2] != "t_contains"@[2]);
                assert("t_finishedBy"@[2] != "t_disjoint"@[2]);
                assert("t_finishedBy"@[2] != "t_during"@[2]);
                assert("t_finishedBy"@[2] != "t_equals"@[2]);
            },
            TemporalPredicateOp::TFinishes => {
                assert("t_finishes"@[2] != "t_after"@[2]);
                assert("t_finishes"@[2] != "t_before"@[2]);
                assert("t_finishes"@[2] != "t_contains"@[2]);
                assert("t_finishes"@[2] != "t_disjoint"@[2]);
                assert("t_finishes"@[2] != "t_during"@[2]);
                assert("t_finishes"@[2] != "t_equals"@[2]);
                assert("t_finishes"@[9] != "t_finishedBy"@[9]);
            },
            TemporalPredicateOp::TIntersects => {
                assert("t_intersects"@[2] != "t_after"@[2]);
                assert("t_intersects"@[2] != "t_before"@[2]);
                assert("t_intersects"@[2] != "t_contains"@[2]);
                assert("t_intersects"@[2] != "t_disjoint"@[2]);
                assert("t_intersects"@[2] != "t_during"@[2]);
                assert("t_intersects"@[2] != "t_equals"@[2]);
                assert("t_intersects"@[2] != "t_finishedBy"@[2]);
                assert("t_intersects"@[2] != "t_finishes"@[2]);
            },
            TemporalPredicateOp::TMeets => {
                assert("t_meets"@[2] != "t_after"@[2]);
                assert("t_meets"@[2] != "t_before"@[2]);
                assert("t_meets"@[2] != "t_contains"@[2]);
                assert("t_meets"@[2] != "t_disjoint"@[2]);
                assert("t_meets"@[2] != "t_during"@[2]);
                assert("t_meets"@[2] != "t_equals"@[2]);
                assert("t_meets"@[2] != "t_finishedBy"@[2]);
                assert("t_meets"@[2] != "t_finishes"@[2]);
                assert("t_meets"@[2] != "t_intersects"@[2]);
            },
            TemporalPredicateOp::TMetBy => {
                assert("t_metBy"@[2] != "t_after"@[2]);
                assert("t_metBy"@[2] != "t_before"@[2]);
                assert("t_metBy"@[2] != "t_contains"@[2]);
                assert("t_metBy"@[2] != "t_disjoint"@[2]);
                assert("t_metBy"@[2] != "t_during"@[2]);
                assert("t_metBy"@[2] != "t_equals"@[2]);
                assert("t_metBy"@[2] != "t_finishedBy"@[2]);
                assert("t_metBy"@[2] != "t_finishes"@[2]);
                assert("t_metBy"@[2] != "t_intersects"@[2]);
                assert("t_metBy"@[4] != "t_meets"@[4]);
            },
            TemporalPredicateOp::TOverlappedBy => {
                assert("t_overlappedBy"@[2] != "t_after"@[2]);
                assert("t_overlappedBy"@[2] != "t_before"@[2]);
                assert("t_overlappedBy"@[2] != "t_contains"@[2]);
                assert("t_overlappedBy"@[2] != "t_disjoint"@[2]);
                assert("t_overlappedBy"@[2] != "t_during"@[2]);
                assert("t_overlappedBy"@[2] != "t_equals"@[2]);
                assert("t_overlappedBy"@[2] != "t_finishedBy"@[2]);
                assert("t_overlappedBy"@[2] != "t_finishes"@[2]);
                assert("t_overlappedBy"@[2] != "t_intersects"@[2]);
                assert("t_overlappedBy"@[2] != "t_meets"@[2]);
                assert("t_overlappedBy"@[2] != "t_metBy"@[2]);
            },
            TemporalPredicateOp::TOverlaps => {
                assert("t_overlaps"@[2] != "t_after"@[2]);
                assert("t_overlaps"@[2] != "t_before"@[2]);
                assert("t_overlaps"@[2] != "t_contains"@[2]);
                assert("t_overlaps"@[2] != "t_disjoint"@[2]);
                assert("t_overlaps"@[2] != "t_during"@[2]);
                assert("t_overlaps"@[2] != "t_equals"@[2]);
                assert("t_overlaps"@[2] != "t_finishedBy"@[2]);
                assert("t_overlaps"@[2] != "t_finishes"@[2]);
                assert("t_overlaps"@[2] != "t_intersects"@[2]);
                assert("t_overlaps"@[2] != "t_meets"@[2]);
                assert("t_overlaps"@[2] != "t_metBy"@[2]);
                assert("t_overlaps"@[9] != "t_overlappedBy"@[9]);
            },
            TemporalPredicateOp::TStartedBy => {
                assert("t_startedBy"@[2] != "t_after"@[2]);
                assert("t_startedBy"@[2] != "t_before"@[2]);
                assert("t_startedBy"@[2] != "t_contains"@[2]);
                assert("t_startedBy"@[2] != "t_disjoint"@[2]);
                assert("t_startedBy"@[2] != "t_during"@[2]);
                assert("t_startedBy"@[2] != "t_equals"@[2]);
                assert("t_startedBy"@[2] != "t_finishedBy"@[2]);
                assert("t_startedBy"@[2] != "t_finishes"@[2]);
                assert("t_startedBy"@[2] != "t_intersects"@[2]);
                assert("t_startedBy"@[2] != "t_meets"@[2]);
                assert("t_startedBy"@[2] != "t_metBy"@[2]);
                assert("t_startedBy"@[2] != "t_overlappedBy"@[2]);
                assert("t_startedBy"@[2] != "t_overlaps"@[2]);
            },
            TemporalPredicateOp::TStarts => {
                assert("t_starts"@[2] != "t_after"@[2]);
                assert("t_starts"@[2] != "t_before"@[2]);
                assert("t_starts"@[2] != "t_contains"@[2]);
                assert("t_starts"@[2] != "t_disjoint"@[2]);
                assert("t_starts"@[2] != "t_during"@[2]);
                assert("t_starts"@[2] != "t_equals"@[2]);
                assert("t_starts"@[2] != "t_finishedBy"@[2]);
                assert("t_starts"@[2] != "t_finishes"@[2]);
                assert("t_starts"@[2] != "t_intersects"@[2]);
                assert("t_starts"@[2] != "t_meets"@[2]);
                assert("t_starts"@[2] != "t_metBy"@[2]);
                assert("t_starts"@[2] != "t_overlappedBy"@[2]);
                assert("t_starts"@[2] != "t_overlaps"@[2]);
                assert("t_starts"@[7] != "t_startedBy"@[7]);
            },
        }
    }
}

/// Whether a character is an ASCII decimal digit (`\d` of the JSON
/// schema's ECMAScript patterns).
pub open spec fn is_digit(c: char) -> bool {
    '0' <= c && c <= '9'
}

/// Whether `s` is a full date: `^\d{4}-\d{2}-\d{2}$`.
pub open spec fn is_date_text(s: Seq<char>) -> bool {
    &&& s.len() == 10
    &&& is_digit(s[0]) && is_digit(s[1]) && is_digit(s[2]) && is_digit(s[3])
    &&& s[4] == '-'
    &&& is_digit(s[5]) && is_digit(s[6])
    &&& s[7] == '-'
    &&& is_digit(s[8]) && is_digit(s[9])
}

/// Whether `s` is a UTC timestamp:
/// `^\d{4}-\d{2}-\d{2}T\d{2}:\d{2}:\d{2}(?:\.\d+)?Z$`.
pub open spec fn is_timestamp_text(s: Seq<char>) -> bool {
    &&& s.len() >= 20
    &&& is_date_text(s.take(10))
    &&& s[10] == 'T'
    &&& is_digit(s[11]) && is_digit(s[12])
    &&& s[13] == ':'
    &&& is_digit(s[14]) && is_digit(s[15])
    &&& s[16] == ':'
    &&& is_digit(s[17]) && is_digit(s[18])
    &&& s[s.len() - 1] == 'Z'
    &&& (s.len() == 20 || (s.len() >= 22 && s[19] == '.' && forall|k: int|
        20 <= k < s.len() - 1 ==> is_digit(#[trigger] s[k])))
}

fn digit(c: char) -> (r: bool)
    ensures
        r == is_digit(c),
{
    '0' <= c && c <= '9'
}

/// Whether the characters `v[from..from + 10]` form a full date.
fn date_at(v: &Vec<char>, from: usize) -> (r: bool)
    requires
        from + 10 <= v.len(),
    ensures
        r == is_date_text(v@.subrange(from as int, from + 10)),
{
    let ghost w = v@.subrange(from as int, from + 10);
    assert(forall|k: int| 0 <= k < 10 ==> w[k] == v@[from + k]);
    digit(v[from]) && digit(v[from + 1]) && digit(v[from + 2]) && digit(v[from + 3]) && v[from
        + 4] == '-' && digit(v[from + 5]) && digit(v[from + 6]) && v[from + 7] == '-' && digit(
        v[from + 8],
    ) && digit(v[from + 9])
}

/// A full date string, as the JSON encoding writes dates.
pub struct DateString(String);

impl DateString {
    /// The characters of this date.
    pub closed spec fn text(self) -> Seq<char> {
        self.0@
    }

    /// Parse a full date string: four, two and two digits separated by
    /// dashes.
    pub fn from_str(value: &str) -> (r: Result<DateString, MyError>)
        ensures
            r is Ok <==> is_date_text(value@),
            r matches Ok(d) ==> d.text() == value@,
            r matches Err(e) ==> e is Runtime,
    {
        let v = crate::unicode::chars_of(value);
        if v.len() != 10 || !date_at(&v, 0) {
            proof {
                if v.len() == 10 {
                    assert(v@.subrange(0, 10) == v@);
                }
            }
            return Err(MyError::Runtime("Expected date string".to_string()));
        }
        proof {
            assert(v@.subrange(0, 10) == v@);
        }
        Ok(DateString(value.to_string()))
    }

    /// The text rendering of this date: quoted with single quotes.
    pub fn to_string(&self) -> (r: String)
        ensures
            r@ == seq!['\''] + self.text() + seq!['\''],
    {
        let mut r = String::new();
        proof {
            reveal_strlit("'");
        }
        r.append("'");
        r.append(self.0.as_str());
        r.append("'");
        r
    }
}

/// A UTC timestamp string, as the JSON encoding writes timestamps.
pub struct TimestampString(String);

impl TimestampString {
    /// The characters of this timestamp.
    pub closed spec fn text(self) -> Seq<char> {
        self.0@
    }

    /// Parse a UTC timestamp string: a full date, `T`, hours, minutes and
    /// seconds separated by colons, optional decimal fractions of a second,
    /// and `Z`.
    pub fn from_str(value: &str) -> (r: Result<TimestampString, MyError>)
        ensures
            r is Ok <==> is_timestamp_text(value@),
            r matches Ok(d) ==> d.text() == value@,
            r matches Err(e) ==> e is Runtime,
    {
        let v = crate::unicode::chars_of(value);
        let n = v.len();
        if n < 20 {
            return Err(MyError::Runtime("Expected timestamp string".to_string()));
        }
        proof {
            assert(v@.take(10) == v@.subrange(0, 10));
        }
        let head = date_at(&v, 0) && v[10] == 'T' && digit(v[11]) && digit(v[12]) && v[13] == ':'
            && digit(v[14]) && digit(v[15]) && v[16] == ':' && digit(v[17]) && digit(v[18])
            && v[n - 1] == 'Z';
        let tail = if n == 20 {
            true
        } else if n >= 22 && v[19] == '.' {
            let mut k: usize = 20;
            let mut ok = true;
            while k < n - 1
                invariant
                    20 <= k <= n - 1,
                    n == v.len(),
                    n >= 22,
                    ok == forall|j: int| 20 <= j < k ==> is_digit(#[trigger] v@[j]),
                decreases n - 1 - k,
            {
                ok = ok && digit(v[k]);
                k = k + 1;
            }
            ok
        } else {
            false
        };
        if !(head && tail) {
            return Err(MyError::Runtime("Expected timestamp string".to_string()));
        }
        Ok(TimestampString(value.to_string()))
    }

    /// The text rendering of this timestamp: quoted with single quotes.
    pub fn to_string(&self) -> (r: String)
        ensures
            r@ == seq!['\''] + self.text() + seq!['\''],
    {
        let mut r = String::new();
        proof {
            reveal_strlit("'");
        }
        r.append("'");
        r.append(self.0.as_str());
        r.append("'");
        r
    }
}

/// An instant string: a full date or a UTC timestamp.
pub enum InstantString {
    /// A full date.
    DateString(DateString),
    /// A UTC timestamp.
    TimestampString(TimestampString),
}

impl InstantString {
    /// Parse an instant string: a full date if it is one, else a UTC
    /// timestamp.
    pub fn from_str(value: &str) -> (r: Result<InstantString, MyError>)
        ensures
            r is Ok <==> (is_date_text(value@) || is_timestamp_text(value@)),
            r matches Ok(i) ==> (if is_date_text(value@) {
                i matches InstantString::DateString(d) && d.text() == value@
            } else {
                i matches InstantString::TimestampString(t) && t.text() == value@
            }),
            r matches Err(e) ==> e is Runtime,
    {
        if let Ok(v) = DateString::from_str(value) {
            Ok(InstantString::DateString(v))
        } else if let Ok(v) = TimestampString::from_str(value) {
            Ok(InstantString::TimestampString(v))
        } else {
            Err(MyError::Runtime("Expected date | timestamp string".to_string()))
        }
    }

    /// The text rendering of this instant: quoted with single quotes.
    pub fn to_string(&self) -> (r: String)
        ensures
            r@ == seq!['\''] + (match self {
                InstantString::DateString(d) => d.text(),
                InstantString::TimestampString(t) => t.text(),
            }) + seq!['\''],
    {
        match self {
            InstantString::DateString(x) => x.to_string(),
            InstantString::TimestampString(x) => x.to_string(),
        }
    }
}

} // verus!
