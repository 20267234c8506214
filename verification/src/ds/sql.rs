//! SQL for the temporal predicates of CQL2, shared by the GeoPackage and
//! PostGIS data sources.
//!
//! Each operand of a temporal predicate is an instant or an interval of two
//! limits; each instant or limit is given as the SQL it renders to, and the
//! name of the property it reads when it is one. Where a predicate reads a
//! property that may be unset, the SQL first requires it to be set.

use crate::bound::Bound;
use crate::eval::{interval_relation, temporal_fn_spec};
use crate::op::Op;
use vstd::prelude::*;

verus! {

/// SQL string to use in lieu of unbounded interval limits (the lowest date
/// that both PostgreSQL and SQLite accept).
pub const MIN_DATE_SQL: &'static str = "'-2021-01-01'";

/// An instant or an interval limit, as SQL.
pub struct SqlTerm {
    /// The SQL it renders to.
    pub sql: String,
    /// The property it reads, if it is one.
    pub id: Option<String>,
}

/// An operand of a temporal predicate.
pub enum TemporalOperand {
    /// An instant.
    Instant(SqlTerm),
    /// An interval, from its start to its end.
    Interval(SqlTerm, SqlTerm),
}

/// A term as the spec sees it: its SQL and its property name.
pub open spec fn term_of(t: SqlTerm) -> (Seq<char>, Option<Seq<char>>) {
    (
        t.sql@,
        match t.id {
            Some(s) => Some(s@),
            None => None,
        },
    )
}

/// The term that stands for the missing second limit of an instant.
pub open spec fn null_term() -> (Seq<char>, Option<Seq<char>>) {
    ("NULL"@, None)
}

/// The four terms of two operands: start and end of the first, start and
/// end of the second (an instant has `NULL` as its end).
pub open spec fn unfold(a: TemporalOperand, b: TemporalOperand) -> Seq<(Seq<char>, Option<Seq<char>>)> {
    let (e0, e1) = match a {
        TemporalOperand::Instant(x) => (term_of(x), null_term()),
        TemporalOperand::Interval(x, y) => (term_of(x), term_of(y)),
    };
    let (e2, e3) = match b {
        TemporalOperand::Instant(x) => (term_of(x), null_term()),
        TemporalOperand::Interval(x, y) => (term_of(x), term_of(y)),
    };
    seq![e0, e1, e2, e3]
}

/// `base`, preceded by the requirement that the property `x` reads, if it
/// reads one, is set.
pub open spec fn guard1(x: (Seq<char>, Option<Seq<char>>), base: Seq<char>) -> Seq<char> {
    match x.1 {
        Some(id) => "\""@ + id + "\" IS NOT NULL AND ("@ + base + ")"@,
        None => base,
    }
}

/// `base`, preceded by the requirement that the properties `x` and `y`
/// read, if they read any, are set.
pub open spec fn guard2(
    x: (Seq<char>, Option<Seq<char>>),
    y: (Seq<char>, Option<Seq<char>>),
    base: Seq<char>,
) -> Seq<char> {
    match (x.1, y.1) {
        (Some(i), Some(j)) => "\""@ + i + "\" IS NOT NULL AND \""@ + j + "\" IS NOT NULL AND ("@ + base
            + ")"@,
        (Some(i), None) => "\""@ + i + "\" IS NOT NULL AND ("@ + base + ")"@,
        (None, Some(j)) => "\""@ + j + "\" IS NOT NULL AND ("@ + base + ")"@,
        (None, None) => base,
    }
}

/// `x rel y`, with the relation surrounded by spaces.
pub open spec fn rel(x: (Seq<char>, Option<Seq<char>>), r: Seq<char>, y: (Seq<char>, Option<Seq<char>>)) -> Seq<char> {
    x.0 + " "@ + r + " "@ + y.0
}

/// `(p) AND (q)`.
pub open spec fn and2(p: Seq<char>, q: Seq<char>) -> Seq<char> {
    "("@ + p + ") AND ("@ + q + ")"@
}

/// `(p) AND (q) AND (s)`.
pub open spec fn and3(p: Seq<char>, q: Seq<char>, s: Seq<char>) -> Seq<char> {
    "("@ + p + ") AND ("@ + q + ") AND ("@ + s + ")"@
}

/// `(p) OR (q)`.
pub open spec fn or2(p: Seq<char>, q: Seq<char>) -> Seq<char> {
    "("@ + p + ") OR ("@ + q + ")"@
}

/// `NOT((p) OR (q))`.
pub open spec fn nor2(p: Seq<char>, q: Seq<char>) -> Seq<char> {
    "NOT("@ + or2(p, q) + ")"@
}

/// Whether a temporal operator applies to intervals only.
pub open spec fn intervals_only(op: Op) -> bool {
    op.is_temporal() && !op.is_instant_or_interval()
}

/// The SQL of a temporal predicate on two operands.
pub open spec fn temporal_sql_spec(op: Op, a: TemporalOperand, b: TemporalOperand) -> Seq<char> {
    temporal_terms_sql(op, a is Interval, b is Interval, unfold(a, b))
}

/// The shape of the SQL of a temporal predicate, given whether each
/// operand is an interval, over any way of writing or deciding its parts:
/// `rel(i, r, j)` relates the terms `i` and `j` (0 and 1 the start and end
/// of the first operand, 2 and 3 those of the second; an instant has no
/// end) by the SQL comparison `r`; `guard1(i, p)` and `guard2(i, j, p)`
/// require the properties the terms read to be set before `p`; `and2`,
/// `and3`, `or2` and `nor2` combine; `none` stands for an operator that is
/// not temporal.
pub open spec fn temporal_form<T>(
    op: Op,
    ai: bool,
    bi: bool,
    rel: spec_fn(int, Seq<char>, int) -> T,
    guard1: spec_fn(int, T) -> T,
    guard2: spec_fn(int, int, T) -> T,
    and2: spec_fn(T, T) -> T,
    and3: spec_fn(T, T, T) -> T,
    or2: spec_fn(T, T) -> T,
    nor2: spec_fn(T, T) -> T,
    none: T,
) -> T {
    match op {
        Op::TAfter => if !ai && !bi {
            rel(0, ">"@, 2)
        } else if !ai {
            guard1(2, rel(0, ">"@, 3))
        } else if !bi {
            guard1(1, rel(0, ">"@, 2))
        } else {
            guard2(1, 2, rel(0, ">"@, 3))
        },
        Op::TBefore => if !ai && !bi {
            rel(0, "<"@, 2)
        } else if !ai {
            guard1(3, rel(0, "<"@, 2))
        } else if !bi {
            guard1(0, rel(1, "<"@, 2))
        } else {
            guard2(0, 3, rel(1, "<"@, 2))
        },
        Op::TDisjoint => if !ai && !bi {
            rel(0, "!="@, 2)
        } else if !ai {
            or2(guard1(3, rel(0, "<"@, 2)), guard1(2, rel(0, ">"@, 3)))
        } else if !bi {
            or2(guard1(0, rel(1, "<"@, 2)), guard1(1, rel(0, ">"@, 2)))
        } else {
            or2(guard2(0, 3, rel(1, "<"@, 2)), guard2(1, 2, rel(0, ">"@, 3)))
        },
        Op::TEquals => if !ai && !bi {
            rel(0, "="@, 2)
        } else if !ai {
            and2(rel(0, "="@, 2), rel(0, "="@, 3))
        } else if !bi {
            and2(rel(0, "="@, 2), rel(1, "="@, 2))
        } else {
            and2(rel(0, "="@, 2), rel(1, "="@, 3))
        },
        Op::TIntersects => if !ai && !bi {
            rel(0, "="@, 2)
        } else if !ai {
            nor2(rel(0, "<"@, 2), rel(0, ">"@, 3))
        } else if !bi {
            nor2(rel(1, "<"@, 2), rel(0, ">"@, 2))
        } else {
            nor2(rel(1, "<"@, 2), rel(0, ">"@, 3))
        },
        Op::TContains => and2(rel(0, "<"@, 2), rel(1, ">"@, 3)),
        Op::TDuring => and2(rel(0, ">"@, 2), rel(1, "<"@, 3)),
        Op::TFinishedBy => and2(rel(0, "<"@, 2), rel(1, "="@, 3)),
        Op::TFinishes => and2(rel(0, ">"@, 2), rel(1, "="@, 3)),
        Op::TMeets => guard2(0, 3, rel(1, "="@, 2)),
        Op::TMetBy => guard2(1, 2, rel(0, "="@, 3)),
        Op::TOverlappedBy => and3(rel(0, ">"@, 2), rel(0, "<"@, 3), rel(1, ">"@, 3)),
        Op::TOverlaps => and3(rel(0, "<"@, 2), rel(1, ">"@, 2), rel(1, "<"@, 3)),
        Op::TStartedBy => and2(rel(0, "="@, 2), rel(1, ">"@, 3)),
        Op::TStarts => and2(rel(0, "="@, 2), rel(1, "<"@, 3)),
        _ => none,
    }
}

/// The SQL of a temporal predicate, given whether each operand is an
/// interval and the four terms of the two operands (see [unfold]).
pub open spec fn temporal_terms_sql(
    op: Op,
    ai: bool,
    bi: bool,
    e: Seq<(Seq<char>, Option<Seq<char>>)>,
) -> Seq<char> {
    temporal_form(
        op,
        ai,
        bi,
        |i: int, r: Seq<char>, j: int| rel(e[i], r, e[j]),
        |i: int, p: Seq<char>| guard1(e[i], p),
        |i: int, j: int, p: Seq<char>| guard2(e[i], e[j], p),
        |p: Seq<char>, q: Seq<char>| and2(p, q),
        |p: Seq<char>, q: Seq<char>, t: Seq<char>| and3(p, q, t),
        |p: Seq<char>, q: Seq<char>| or2(p, q),
        |p: Seq<char>, q: Seq<char>| nor2(p, q),
        Seq::empty(),
    )
}

/// What an SQL comparison `r` (`<`, `>`, `=` or `!=`) says of two values.
pub open spec fn sql_compares(r: Seq<char>, a: int, b: int) -> bool {
    if r == "<"@ {
        a < b
    } else if r == ">"@ {
        a > b
    } else if r == "="@ {
        a == b
    } else if r == "!="@ {
        a != b
    } else {
        false
    }
}

/// Whether the SQL of a temporal predicate holds of a row whose four terms
/// have the given values, all of them set.
pub open spec fn temporal_sql_holds(op: Op, ai: bool, bi: bool, v: Seq<int>) -> bool {
    temporal_form(
        op,
        ai,
        bi,
        |i: int, r: Seq<char>, j: int| sql_compares(r, v[i], v[j]),
        |i: int, p: bool| p,
        |i: int, j: int, p: bool| p,
        |p: bool, q: bool| p && q,
        |p: bool, q: bool, t: bool| p && q && t,
        |p: bool, q: bool| p || q,
        |p: bool, q: bool| !(p || q),
        false,
    )
}

/// The SQL of a temporal predicate means what the predicate means: on a
/// row whose limits are set, it holds exactly when the predicate is TRUE of
/// the operands (instants, or intervals from their start to their end).
pub proof fn lemma_temporal_sql_meaning(op: Op, ai: bool, bi: bool, n0: i128, n1: i128, n2: i128, n3: i128)
    requires
        op.is_temporal(),
        intervals_only(op) ==> (ai && bi),
    ensures
        temporal_sql_holds(op, ai, bi, seq![n0 as int, n1 as int, n2 as int, n3 as int]) == if op.is_instant_or_interval() {
            temporal_fn_spec(
                op,
                !ai,
                !bi,
                Bound::Timestamp(n0),
                Bound::Timestamp(n1),
                Bound::Timestamp(n2),
                Bound::Timestamp(n3),
            ) == Some(true)
        } else {
            interval_relation(
                op,
                Bound::Timestamp(n0),
                Bound::Timestamp(n1),
                Bound::Timestamp(n2),
                Bound::Timestamp(n3),
            ) == Some(true)
        },
{
    reveal_strlit("<");
    reveal_strlit(">");
    reveal_strlit("=");
    reveal_strlit("!=");
    let v = seq![n0 as int, n1 as int, n2 as int, n3 as int];
    assert(v[0] == n0 && v[1] == n1 && v[2] == n2 && v[3] == n3);
    assert("<"@[0] == '<' && ">"@[0] == '>' && "="@[0] == '=' && "!="@[0] == '!');
    assert("<"@.len() == 1 && ">"@.len() == 1 && "="@.len() == 1 && "!="@.len() == 2);
    assert("<"@ != ">"@ && "<"@ != "="@ && "<"@ != "!="@ && ">"@ != "="@ && ">"@ != "!="@
        && "="@ != "!="@);
}

fn cat(a: &str, b: &str) -> (r: String)
    ensures
        r@ == a@ + b@,
{
    let mut r = a.to_string();
    r.append(b);
    r
}

fn cat3(a: &str, b: &str, c: &str) -> (r: String)
    ensures
        r@ == a@ + b@ + c@,
{
    let mut r = a.to_string();
    r.append(b);
    r.append(c);
    r
}

/// Borrowed view of a term.
struct TermRef<'a> {
    sql: &'a str,
    id: Option<&'a str>,
}

spec fn ref_of(t: TermRef) -> (Seq<char>, Option<Seq<char>>) {
    (
        t.sql@,
        match t.id {
            Some(s) => Some(s@),
            None => None,
        },
    )
}

fn term_ref<'a>(t: &'a SqlTerm) -> (r: TermRef<'a>)
    ensures
        ref_of(r) == term_of(*t),
{
    TermRef {
        sql: t.sql.as_str(),
        id: match &t.id {
            Some(s) => Some(s.as_str()),
            None => None,
        },
    }
}

fn null_ref() -> (r: TermRef<'static>)
    ensures
        ref_of(r) == null_term(),
{
    TermRef { sql: "NULL", id: None }
}

fn rel_sql(x: &TermRef, r: &str, y: &TermRef) -> (s: String)
    ensures
        s@ == rel(ref_of(*x), r@, ref_of(*y)),
{
    let mut s = cat3(x.sql, " ", r);
    s.append(" ");
    s.append(y.sql);
    s
}

fn guard1_sql(x: &TermRef, base: String) -> (s: String)
    ensures
        s@ == guard1(ref_of(*x), base@),
{
    match x.id {
        Some(id) => {
            let mut s = cat3("\"", id, "\" IS NOT NULL AND (");
            s.append(base.as_str());
            s.append(")");
            s
        },
        None => base,
    }
}

fn guard2_sql(x: &TermRef, y: &TermRef, base: String) -> (s: String)
    ensures
        s@ == guard2(ref_of(*x), ref_of(*y), base@),
{
    match (x.id, y.id) {
        (Some(i), Some(j)) => {
            let mut s = cat3("\"", i, "\" IS NOT NULL AND \"");
            s.append(j);
            s.append("\" IS NOT NULL AND (");
            s.append(base.as_str());
            s.append(")");
            s
        },
        (Some(i), None) => {
            let mut s = cat3("\"", i, "\" IS NOT NULL AND (");
            s.append(base.as_str());
            s.append(")");
            s
        },
        (None, Some(j)) => {
            let mut s = cat3("\"", j, "\" IS NOT NULL AND (");
            s.append(base.as_str());
            s.append(")");
            s
        },
        (None, None) => base,
    }
}

fn and2_sql(p: String, q: String) -> (s: String)
    ensures
        s@ == and2(p@, q@),
{
    let mut s = cat3("(", p.as_str(), ") AND (");
    s.append(q.as_str());
    s.append(")");
    s
}

fn and3_sql(p: String, q: String, r: String) -> (s: String)
    ensures
        s@ == and3(p@, q@, r@),
{
    let mut s = cat3("(", p.as_str(), ") AND (");
    s.append(q.as_str());
    s.append(") AND (");
    s.append(r.as_str());
    s.append(")");
    s
}

fn or2_sql(p: String, q: String) -> (s: String)
    ensures
        s@ == or2(p@, q@),
{
    let mut s = cat3("(", p.as_str(), ") OR (");
    s.append(q.as_str());
    s.append(")");
    s
}

fn nor2_sql(p: String, q: String) -> (s: String)
    ensures
        s@ == nor2(p@, q@),
{
    let o = or2_sql(p, q);
    cat3("NOT(", o.as_str(), ")")
}

/// Return the SQL of the temporal predicate `op` on two operands. The
/// operators `T_AFTER`, `T_BEFORE`, `T_DISJOINT`, `T_EQUALS` and
/// `T_INTERSECTS` take instants and intervals alike; the others take two
/// intervals.
pub fn temporal_sql(op: &Op, a: &TemporalOperand, b: &TemporalOperand) -> (r: String)
    requires
        op.is_temporal(),
        intervals_only(*op) ==> (*a is Interval && *b is Interval),
    ensures
        r@ == temporal_sql_spec(*op, *a, *b),
{
    let ai = matches!(a, TemporalOperand::Interval(_, _));
    let bi = matches!(b, TemporalOperand::Interval(_, _));
    let (e0, e1) = match a {
        TemporalOperand::Instant(x) => (term_ref(x), null_ref()),
        TemporalOperand::Interval(x, y) => (term_ref(x), term_ref(y)),
    };
    let (e2, e3) = match b {
        TemporalOperand::Instant(x) => (term_ref(x), null_ref()),
        TemporalOperand::Interval(x, y) => (term_ref(x), term_ref(y)),
    };
    let ghost e = unfold(*a, *b);
    assert(ref_of(e0) == e[0] && ref_of(e1) == e[1] && ref_of(e2) == e[2] && ref_of(e3) == e[3]);
    match op {
        Op::TAfter => if !ai && !bi {
            rel_sql(&e0, ">", &e2)
        } else if !ai {
            guard1_sql(&e2, rel_sql(&e0, ">", &e3))
        } else if !bi {
            guard1_sql(&e1, rel_sql(&e0, ">", &e2))
        } else {
            guard2_sql(&e1, &e2, rel_sql(&e0, ">", &e3))
        },
        Op::TBefore => if !ai && !bi {
            rel_sql(&e0, "<", &e2)
        } else if !ai {
            guard1_sql(&e3, rel_sql(&e0, "<", &e2))
        } else if !bi {
            guard1_sql(&e0, rel_sql(&e1, "<", &e2))
        } else {
            guard2_sql(&e0, &e3, rel_sql(&e1, "<", &e2))
        },
        Op::TDisjoint => if !ai && !bi {
            rel_sql(&e0, "!=", &e2)
        } else if !ai {
            or2_sql(
                guard1_sql(&e3, rel_sql(&e0, "<", &e2)),
                guard1_sql(&e2, rel_sql(&e0, ">", &e3)),
            )
        } else if !bi {
            or2_sql(
                guard1_sql(&e0, rel_sql(&e1, "<", &e2)),
                guard1_sql(&e1, rel_sql(&e0, ">", &e2)),
            )
        } else {
            or2_sql(
                guard2_sql(&e0, &e3, rel_sql(&e1, "<", &e2)),
                guard2_sql(&e1, &e2, rel_sql(&e0, ">", &e3)),
            )
        },
        Op::TEquals => if !ai && !bi {
            rel_sql(&e0, "=", &e2)
        } else if !ai {
            and2_sql(rel_sql(&e0, "=", &e2), rel_sql(&e0, "=", &e3))
        } else if !bi {
            and2_sql(rel_sql(&e0, "=", &e2), rel_sql(&e1, "=", &e2))
        } else {
            and2_sql(rel_sql(&e0, "=", &e2), rel_sql(&e1, "=", &e3))
        },
        Op::TIntersects => if !ai && !bi {
            rel_sql(&e0, "=", &e2)
        } else if !ai {
            nor2_sql(rel_sql(&e0, "<", &e2), rel_sql(&e0, ">", &e3))
        } else if !bi {
            nor2_sql(rel_sql(&e1, "<", &e2), rel_sql(&e0, ">", &e2))
        } else {
            nor2_sql(rel_sql(&e1, "<", &e2), rel_sql(&e0, ">", &e3))
        },
        Op::TContains => and2_sql(rel_sql(&e0, "<", &e2), rel_sql(&e1, ">", &e3)),
        Op::TDuring => and2_sql(rel_sql(&e0, ">", &e2), rel_sql(&e1, "<", &e3)),
        Op::TFinishedBy => and2_sql(rel_sql(&e0, "<", &e2), rel_sql(&e1, "=", &e3)),
        Op::TFinishes => and2_sql(rel_sql(&e0, ">", &e2), rel_sql(&e1, "=", &e3)),
        Op::TMeets => guard2_sql(&e0, &e3, rel_sql(&e1, "=", &e2)),
        Op::TMetBy => guard2_sql(&e1, &e2, rel_sql(&e0, "=", &e3)),
        Op::TOverlappedBy => and3_sql(
            rel_sql(&e0, ">", &e2),
            rel_sql(&e0, "<", &e3),
            rel_sql(&e1, ">", &e3),
        ),
        Op::TOverlaps => and3_sql(
            rel_sql(&e0, "<", &e2),
            rel_sql(&e1, ">", &e2),
            rel_sql(&e1, "<", &e3),
        ),
        Op::TStartedBy => and2_sql(rel_sql(&e0, "=", &e2), rel_sql(&e1, ">", &e3)),
        Op::TStarts => and2_sql(rel_sql(&e0, "=", &e2), rel_sql(&e1, "<", &e3)),
        _ => String::new(),
    }
}

} // verus!
