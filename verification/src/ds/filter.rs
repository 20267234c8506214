//! The SQL `WHERE` clause of a filter expression, for a GeoPackage file
//! (SQLite) or a PostGIS table (PostgreSQL).
//!
//! Keywords, operators, names and strings are written here; numbers and
//! geometries are the renderer's. Temporal
//! predicates are written by [crate::ds::sql::temporal_sql].

use crate::bound::{date_chars, date_text, timestamp_chars, timestamp_text};
use crate::ds::sql::{
    null_term, temporal_sql, temporal_terms_sql, intervals_only, unfold, SqlTerm,
    TemporalOperand, MIN_DATE_SQL,
};
use crate::error::MyError;
use crate::expr::{cat_all, is_literal_spec, joined, E};
use crate::numeric::{decimal, u128_text};
use crate::op::Op;
use crate::queryable::{Geom, Num};
use vstd::prelude::*;

verus! {

/// The SQL dialect of a data source.
#[derive(Debug, Clone, Copy, PartialEq, Eq, Structural)]
pub enum Dialect {
    /// SQLite, for GeoPackage files.
    GeoPackage,
    /// PostgreSQL, for PostGIS tables.
    PostGIS,
}

/// How numbers and geometries are written in SQL. Each text is a function
/// of the value, named by a spec function of the renderer that gives what
/// its method gives.
pub trait SqlRender {
    /// The SQL of a number.
    spec fn num_sql_string(&self, n: Num) -> String;

    /// The SQL of a geometry (`ST_GeomFromText('...', srid)`), or the error
    /// raised in writing it.
    spec fn geom_sql_result(&self, g: Geom) -> Result<String, MyError>;

    /// The SQL of a number.
    fn num_sql(&self, n: &Num) -> (r: String)
        ensures
            r@ == self.num_sql_string(*n)@,
    ;

    /// The SQL of a geometry.
    fn geom_sql(&self, g: &Geom) -> (r: Result<String, MyError>)
        ensures
            r matches Ok(s) ==> (self.geom_sql_result(*g) matches Ok(t) && s@ == t@),
            r matches Err(e) ==> self.geom_sql_result(*g) == Err::<String, MyError>(e),
    ;
}

/// The SQL of a geometry, as characters.
pub open spec fn geom_out<R: SqlRender>(rd: &R, g: Geom) -> Result<Seq<char>, MyError> {
    match rd.geom_sql_result(g) {
        Ok(t) => Ok(t@),
        Err(e) => Err(e),
    }
}

/// A property name in SQL: as it is for SQLite, in double quotes for
/// PostgreSQL.
pub open spec fn id_sql(d: Dialect, x: Seq<char>) -> Seq<char> {
    match d {
        Dialect::GeoPackage => x,
        Dialect::PostGIS => crate::ds::pg::quoted_name(x),
    }
}

/// A string literal in SQL.
pub open spec fn string_sql(d: Dialect, s: crate::qstring::QString) -> Seq<char> {
    match d {
        Dialect::GeoPackage => crate::ds::gpkg::string_sql(s),
        Dialect::PostGIS => crate::ds::pg::string_sql(s),
    }
}

/// The collation for the given case (1), accent (2) or both (3) flags.
pub open spec fn collation(d: Dialect, flags: u8) -> Seq<char> {
    match d {
        Dialect::GeoPackage => crate::ds::gpkg::collation(flags),
        Dialect::PostGIS => crate::ds::pg::collation(flags),
    }
}

/// Whether an expression is a literal or a property name, which are
/// written without parentheses around them.
pub open spec fn plain(e: E) -> bool {
    is_literal_spec(e) || e is Id
}

/// The SQL of an operand: as it is when [plain], else in parentheses.
pub open spec fn paren(e: E, s: Seq<char>) -> Seq<char> {
    if plain(e) {
        s
    } else {
        "("@ + s + ")"@
    }
}

/// The property an expression reads, if it is a property name.
pub open spec fn id_of(e: E) -> Option<Seq<char>> {
    match e {
        E::Id(x) => Some(x@),
        _ => None,
    }
}

/// The operator applies a spatial relation that SQLite and PostGIS decide
/// on geometries of reduced precision when one side is a property.
pub open spec fn reduced_precision(op: Op) -> bool {
    op is SWithin || op is SOverlaps || op is STouches
}

/// `ST_ReducePrecision(s, 1E-p)`.
pub open spec fn reduce_sql(s: Seq<char>, p: nat) -> Seq<char> {
    "ST_ReducePrecision("@ + s + ", 1E-"@ + decimal(p) + ")"@
}

/// A member of the array of bounds of a dyadic node is smaller than the
/// node.
pub proof fn lemma_member_smaller(e: E, b: E, v: Vec<E>, i: int)
    requires
        e matches E::Dyadic(_, _, y) && *y == b,
        b == E::Array(v),
        0 <= i < v.len(),
    ensures
        decreases_to!(e => v@[i]),
{
    assert(decreases_to!(e => b)) by {
        let y = e->Dyadic_2;
        assert(decreases_to!(e => y));
    }
    crate::expr::lemma_element_smaller(b, v, i);
}

/// Whether an expression can be written as SQL: no interval but as an
/// operand of a temporal predicate, whose operators other than `T_AFTER`,
/// `T_BEFORE`, `T_DISJOINT`, `T_EQUALS` and `T_INTERSECTS` take two
/// intervals; a monadic operator is `IS [NOT] NULL`, `NOT`, `-`, `CASEI` or
/// `ACCENTI`; the bounds of `[NOT] BETWEEN` are an array of two expressions
/// at least (the first two are the bounds).
pub open spec fn sql_ok(e: E) -> bool
    decreases e, 1nat,
{
    match e {
        E::Interval(_, _) => false,
        E::Monadic(op, x) => (op.is_nullable() || op is Neg || op is Minus || op is CaseI
            || op is AccentI) && sql_ok(*x),
        E::Dyadic(op, a, b) => if op is IsBetween || op is IsNotBetween {
            sql_ok(*a) && match *b {
                E::Array(v) => v.len() >= 2 && {
                    proof {
                        lemma_member_smaller(e, *b, v, 0);
                        lemma_member_smaller(e, *b, v, 1);
                    }
                    sql_ok(v@[0]) && sql_ok(v@[1])
                },
                _ => false,
            }
        } else if op.is_temporal() {
            operand_ok(*a) && operand_ok(*b) && (intervals_only(op) ==> (*a is Interval
                && *b is Interval))
        } else {
            sql_ok(*a) && sql_ok(*b)
        },
        E::Function(_, v) => sql_ok_all(v@),
        E::Array(v) => sql_ok_all(v@),
        _ => true,
    }
}

/// Whether an operand of a temporal predicate can be written as SQL.
pub open spec fn operand_ok(o: E) -> bool
    decreases o, 2nat,
{
    match o {
        E::Interval(x, y) => sql_ok(*x) && sql_ok(*y),
        _ => sql_ok(o),
    }
}

/// Whether every expression of a sequence can be written as SQL.
pub open spec fn sql_ok_all(xs: Seq<E>) -> bool
    decreases xs, 0nat,
{
    if xs.len() == 0 {
        true
    } else {
        sql_ok_all(xs.subrange(0, xs.len() - 1)) && sql_ok(xs[xs.len() - 1])
    }
}

/// The SQL of an expression, or the first error met in writing its
/// operands from left to right.
pub open spec fn sql_of<R: SqlRender>(d: Dialect, rd: &R, p: nat, e: E) -> Result<Seq<char>, MyError>
    decreases e, 2nat,
{
    match e {
        E::Null => Ok("NULL"@),
        E::Unbounded => Ok(MIN_DATE_SQL@),
        E::Bool(b) => Ok(if b { "TRUE"@ } else { "FALSE"@ }),
        E::Num(n) => Ok(rd.num_sql_string(n)@),
        E::Str(s) => Ok(string_sql(d, s)),
        E::Date(z) => Ok("'"@ + date_chars(z) + "'"@),
        E::Timestamp(z) => Ok("'"@ + timestamp_chars(z) + "'"@),
        E::Spatial(g) => geom_out(rd, g),
        E::Id(x) => Ok(id_sql(d, x@)),
        E::Monadic(op, x) => {
            let o = op.sql_spec()@;
            if op is CaseI || op is AccentI {
                let both = match *x {
                    E::Monadic(o2, _) => (op is CaseI && o2 is AccentI) || (op is AccentI
                        && o2 is CaseI),
                    _ => false,
                };
                let inner = if both {
                    match *x {
                        E::Monadic(_, y) => sql_of(d, rd, p, *y),
                        _ => sql_of(d, rd, p, *x),
                    }
                } else {
                    sql_of(d, rd, p, *x)
                };
                let flags: u8 = if both { 3 } else if op is CaseI { 1 } else { 2 };
                match inner {
                    Ok(s) => Ok(s + " COLLATE "@ + collation(d, flags)),
                    Err(er) => Err(er),
                }
            } else {
                match sql_of(d, rd, p, *x) {
                    Ok(s) => Ok(if op.is_nullable() {
                        paren(*x, s) + " "@ + o
                    } else {
                        o + " "@ + paren(*x, s)
                    }),
                    Err(er) => Err(er),
                }
            }
        },
        E::Dyadic(op, a, b) => {
            let o = op.sql_spec()@;
            if op.is_temporal() {
                match (operand_terms(d, rd, p, *a), operand_terms(d, rd, p, *b)) {
                    (Err(er), _) => Err(er),
                    (Ok(_), Err(er)) => Err(er),
                    (Ok(ta), Ok(tb)) => Ok(
                        temporal_terms_sql(op, *a is Interval, *b is Interval, ta + tb),
                    ),
                }
            } else if op is IsBetween || op is IsNotBetween {
                match (sql_of(d, rd, p, *a), *b) {
                    (Err(er), _) => Err(er),
                    (Ok(l), E::Array(v)) => if v.len() >= 2 {
                        proof {
                            lemma_member_smaller(e, *b, v, 0);
                            lemma_member_smaller(e, *b, v, 1);
                        }
                        match (sql_of(d, rd, p, v@[0]), sql_of(d, rd, p, v@[1])) {
                            (Err(er), _) => Err(er),
                            (Ok(_), Err(er)) => Err(er),
                            (Ok(lo), Ok(hi)) => Ok(l + " "@ + o + " "@ + lo + " AND "@ + hi),
                        }
                    } else {
                        Ok(Seq::empty())
                    },
                    _ => Ok(Seq::empty()),
                }
            } else {
                match (sql_of(d, rd, p, *a), sql_of(d, rd, p, *b)) {
                    (Err(er), _) => Err(er),
                    (Ok(_), Err(er)) => Err(er),
                    (Ok(l), Ok(r)) => Ok(
                        if op.is_spatial() {
                            let (l2, r2) = if reduced_precision(op) && *a is Id && !(*b is Id) {
                                (reduce_sql(l, p), r)
                            } else if reduced_precision(op) && !(*a is Id) && *b is Id {
                                (l, reduce_sql(r, p))
                            } else {
                                (l, r)
                            };
                            o + "("@ + l2 + ", "@ + r2 + ")"@
                        } else if op.is_array() {
                            l + " "@ + o + " "@ + r
                        } else if op is IsLike || op is IsNotLike {
                            paren(*a, l) + " "@ + o + " ("@ + r + ")"@
                        } else {
                            paren(*a, l) + " "@ + o + " "@ + paren(*b, r)
                        },
                    ),
                }
            }
        },
        E::Function(name, v) => match sql_all(d, rd, p, v@) {
            Ok(ts) => Ok(name@ + "("@ + joined(ts) + ")"@),
            Err(er) => Err(er),
        },
        E::Array(v) => match sql_all(d, rd, p, v@) {
            Ok(ts) => Ok("("@ + joined(ts) + ")"@),
            Err(er) => Err(er),
        },
        E::Interval(_, _) => Ok(Seq::empty()),
    }
}

/// The two terms (SQL and the property read) of an operand of a temporal
/// predicate: the limits of an interval, or an instant and `NULL`.
pub open spec fn operand_terms<R: SqlRender>(d: Dialect, rd: &R, p: nat, o: E) -> Result<
    Seq<(Seq<char>, Option<Seq<char>>)>,
    MyError,
>
    decreases o, 3nat,
{
    match o {
        E::Interval(x, y) => match (sql_of(d, rd, p, *x), sql_of(d, rd, p, *y)) {
            (Err(er), _) => Err(er),
            (Ok(_), Err(er)) => Err(er),
            (Ok(s), Ok(t)) => Ok(seq![(s, id_of(*x)), (t, id_of(*y))]),
        },
        _ => match sql_of(d, rd, p, o) {
            Err(er) => Err(er),
            Ok(s) => Ok(seq![(s, id_of(o)), null_term()]),
        },
    }
}

/// The SQL of a sequence of expressions, or the first error.
pub open spec fn sql_all<R: SqlRender>(d: Dialect, rd: &R, p: nat, xs: Seq<E>) -> Result<
    Seq<Seq<char>>,
    MyError,
>
    decreases xs, 0nat,
{
    if xs.len() == 0 {
        Ok(Seq::empty())
    } else {
        match sql_all(d, rd, p, xs.subrange(0, xs.len() - 1)) {
            Err(er) => Err(er),
            Ok(ts) => match sql_of(d, rd, p, xs[xs.len() - 1]) {
                Err(er) => Err(er),
                Ok(t) => Ok(ts.push(t)),
            },
        }
    }
}


/// Whether an executable result is the result of the spec, its text taken
/// by its view.
pub open spec fn same_result(r: Result<String, MyError>, s: Result<Seq<char>, MyError>) -> bool {
    match r {
        Ok(t) => s == Ok::<Seq<char>, MyError>(t@),
        Err(e) => s == Err::<Seq<char>, MyError>(e),
    }
}

/// The four terms of an operand given as SQL terms.
pub open spec fn operand_of(t: TemporalOperand) -> Seq<(Seq<char>, Option<Seq<char>>)> {
    match t {
        TemporalOperand::Instant(x) => seq![crate::ds::sql::term_of(x), null_term()],
        TemporalOperand::Interval(x, y) => seq![crate::ds::sql::term_of(x), crate::ds::sql::term_of(y)],
    }
}

proof fn lemma_sql_all_error<R: SqlRender>(d: Dialect, rd: &R, p: nat, xs: Seq<E>, k: int, e: MyError)
    requires
        0 <= k <= xs.len(),
        sql_all(d, rd, p, xs.subrange(0, k)) == Err::<Seq<Seq<char>>, MyError>(e),
    ensures
        sql_all(d, rd, p, xs) == Err::<Seq<Seq<char>>, MyError>(e),
    decreases xs.len() - k,
{
    if k == xs.len() {
        assert(xs.subrange(0, k) == xs);
    } else {
        let ys = xs.subrange(0, k + 1);
        assert(ys.subrange(0, ys.len() - 1) == xs.subrange(0, k));
        lemma_sql_all_error(d, rd, p, xs, k + 1, e);
    }
}

proof fn lemma_sql_ok_all<R: SqlRender>(xs: Seq<E>, i: int)
    requires
        sql_ok_all(xs),
        0 <= i < xs.len(),
    ensures
        sql_ok(xs[i]),
    decreases xs.len(),
{
    if i < xs.len() - 1 {
        lemma_sql_ok_all::<R>(xs.subrange(0, xs.len() - 1), i);
    }
}

fn collation_name(d: Dialect, flags: u8) -> (r: String)
    ensures
        r@ == collation(d, flags),
{
    match d {
        Dialect::GeoPackage => if flags == 1 {
            "CQL2_CI".to_string()
        } else if flags == 2 {
            "CQL2_AI".to_string()
        } else {
            "CQL2_CI_AI".to_string()
        },
        Dialect::PostGIS => if flags == 1 {
            "cql2_ci".to_string()
        } else if flags == 2 {
            "cql2_ai".to_string()
        } else {
            "cql2_ci_ai".to_string()
        },
    }
}

fn join3(a: &str, b: &str, c: &str) -> (r: String)
    ensures
        r@ == a@ + b@ + c@,
{
    let mut r = a.to_string();
    r.append(b);
    r.append(c);
    r
}

fn paren_sql(e: &E, s: String) -> (r: String)
    ensures
        r@ == paren(*e, s@),
{
    if e.is_literal_or_id() {
        s
    } else {
        join3("(", s.as_str(), ")")
    }
}

fn id_term(o: &E) -> (r: Option<String>)
    ensures
        match r {
            Some(s) => id_of(*o) == Some(s@),
            None => id_of(*o) is None,
        },
{
    match o.as_id() {
        Some(s) => Some(s.to_string()),
        None => None,
    }
}

/// The SQL terms of an operand of a temporal predicate.
fn operand_sql<R: SqlRender>(d: Dialect, o: &E, rd: &R, precision: usize) -> (r: Result<TemporalOperand, MyError>)
    requires
        operand_ok(*o),
    ensures
        match r {
            Ok(t) => operand_terms(d, rd, precision as nat, *o) == Ok::<Seq<(Seq<char>, Option<Seq<char>>)>, MyError>(operand_of(t))
                && (t is Interval <==> *o is Interval),
            Err(er) => operand_terms(d, rd, precision as nat, *o) == Err::<Seq<(Seq<char>, Option<Seq<char>>)>, MyError>(er),
        },
    decreases o, 3nat,
{
    match o {
        E::Interval(x, y) => {
            let s = match sql_text(d, x, rd, precision) {
                Ok(s) => s,
                Err(er) => return Err(er),
            };
            let t = match sql_text(d, y, rd, precision) {
                Ok(t) => t,
                Err(er) => return Err(er),
            };
            let tx = SqlTerm { sql: s, id: id_term(x) };
            let ty = SqlTerm { sql: t, id: id_term(y) };
            let r = TemporalOperand::Interval(tx, ty);
            proof {
                assert(operand_of(r) =~= seq![(s@, id_of(**x)), (t@, id_of(**y))]);
            }
            Ok(r)
        },
        _ => {
            let s = match sql_text(d, o, rd, precision) {
                Ok(s) => s,
                Err(er) => return Err(er),
            };
            let r = TemporalOperand::Instant(SqlTerm { sql: s, id: id_term(o) });
            proof {
                assert(operand_of(r) =~= seq![(s@, id_of(*o)), null_term()]);
            }
            Ok(r)
        },
    }
}

/// The SQL of the members of a call or an array, in order.
fn sql_texts<R: SqlRender>(d: Dialect, e: &E, v: &Vec<E>, rd: &R, precision: usize) -> (r: Result<Vec<String>, MyError>)
    requires
        (*e is Array && e->Array_0 == *v) || (*e is Function && e->Function_1 == *v),
        sql_ok_all(v@),
    ensures
        match r {
            Ok(w) => sql_all(d, rd, precision as nat, v@) == Ok::<Seq<Seq<char>>, MyError>(w@.map_values(|s: String| s@)),
            Err(er) => sql_all(d, rd, precision as nat, v@) == Err::<Seq<Seq<char>>, MyError>(er),
        },
    decreases e, 0nat,
{
    let mut out: Vec<String> = Vec::new();
    let mut i: usize = 0;
    assert(v@.subrange(0, 0) == Seq::<E>::empty());
    assert(out@.map_values(|s: String| s@) == Seq::<Seq<char>>::empty());
    while i < v.len()
        invariant
            i <= v.len(),
            (*e is Array && e->Array_0 == *v) || (*e is Function && e->Function_1 == *v),
            sql_ok_all(v@),
            sql_all(d, rd, precision as nat, v@.subrange(0, i as int)) == Ok::<Seq<Seq<char>>, MyError>(out@.map_values(|s: String| s@)),
        decreases v.len() - i,
    {
        proof {
            crate::expr::lemma_element_smaller(*e, *v, i as int);
            lemma_sql_ok_all::<R>(v@, i as int);
        }
        let ghost p = v@.subrange(0, i + 1);
        proof {
            assert(p.subrange(0, p.len() - 1) == v@.subrange(0, i as int));
            assert(p[p.len() - 1] == v@[i as int]);
        }
        match sql_text(d, &v[i], rd, precision) {
            Ok(t) => {
                let ghost before = out@.map_values(|s: String| s@);
                out.push(t);
                proof {
                    assert(out@.map_values(|s: String| s@) =~= before.push(t@));
                }
            },
            Err(er) => {
                proof {
                    lemma_sql_all_error(d, rd, precision as nat, v@, i + 1, er);
                }
                return Err(er);
            },
        }
        i = i + 1;
    }
    assert(v@.subrange(0, v.len() as int) == v@);
    Ok(out)
}

/// Write an expression as SQL in the given dialect, with `precision` the
/// number of decimals kept by `ST_ReducePrecision` (see [sql_of]).
pub fn sql_text<R: SqlRender>(d: Dialect, e: &E, rd: &R, precision: usize) -> (r: Result<String, MyError>)
    requires
        sql_ok(*e),
    ensures
        same_result(r, sql_of(d, rd, precision as nat, *e)),
    decreases e, 2nat,
{
    match e {
        E::Null => Ok("NULL".to_string()),
        E::Unbounded => Ok(MIN_DATE_SQL.to_string()),
        E::Bool(b) => if *b {
            Ok("TRUE".to_string())
        } else {
            Ok("FALSE".to_string())
        },
        E::Num(n) => Ok(rd.num_sql(n)),
        E::Str(s) => match d {
            Dialect::GeoPackage => crate::ds::gpkg::qstr_to_sql(s.clone()),
            Dialect::PostGIS => crate::ds::pg::qstr_to_sql(s.clone()),
        },
        E::Date(z) => {
            let t = date_text(*z);
            Ok(join3("'", t.as_str(), "'"))
        },
        E::Timestamp(z) => {
            let t = timestamp_text(*z);
            Ok(join3("'", t.as_str(), "'"))
        },
        E::Spatial(g) => rd.geom_sql(g),
        E::Id(x) => match d {
            Dialect::GeoPackage => Ok(x.clone()),
            Dialect::PostGIS => Ok(crate::ds::pg::double_quoted(x.clone())),
        },
        E::Monadic(op, x) => {
            let o = op.sql_text().to_string();
            if matches!(op, Op::CaseI) || matches!(op, Op::AccentI) {
                let both = match &**x {
                    E::Monadic(o2, _) => (matches!(op, Op::CaseI) && matches!(o2, Op::AccentI))
                        || (matches!(op, Op::AccentI) && matches!(o2, Op::CaseI)),
                    _ => false,
                };
                let inner = if both {
                    match &**x {
                        E::Monadic(_, y) => {
                            proof {
                                assert(decreases_to!(*e => **y));
                                assert(sql_ok(**x));
                                assert(sql_ok(**y));
                            }
                            sql_text(d, y, rd, precision)
                        },
                        _ => sql_text(d, x, rd, precision),
                    }
                } else {
                    sql_text(d, x, rd, precision)
                };
                let flags: u8 = if both {
                    3
                } else if matches!(op, Op::CaseI) {
                    1
                } else {
                    2
                };
                match inner {
                    Ok(s) => {
                        let c = collation_name(d, flags);
                        let mut r = s;
                        r.append(" COLLATE ");
                        r.append(c.as_str());
                        Ok(r)
                    },
                    Err(er) => Err(er),
                }
            } else {
                match sql_text(d, x, rd, precision) {
                    Ok(s) => {
                        let q = paren_sql(x, s);
                        if op.nullable() {
                            Ok(join3(q.as_str(), " ", o.as_str()))
                        } else {
                            Ok(join3(o.as_str(), " ", q.as_str()))
                        }
                    },
                    Err(er) => Err(er),
                }
            }
        },
        E::Dyadic(op, a, b) => {
            let o = op.sql_text().to_string();
            if op.temporal() {
                let ta = match operand_sql(d, a, rd, precision) {
                    Ok(t) => t,
                    Err(er) => return Err(er),
                };
                let tb = match operand_sql(d, b, rd, precision) {
                    Ok(t) => t,
                    Err(er) => return Err(er),
                };
                let r = temporal_sql(op, &ta, &tb);
                proof {
                    assert(unfold(ta, tb) =~= operand_of(ta) + operand_of(tb));
                }
                Ok(r)
            } else if matches!(op, Op::IsBetween) || matches!(op, Op::IsNotBetween) {
                let l = match sql_text(d, a, rd, precision) {
                    Ok(l) => l,
                    Err(er) => return Err(er),
                };
                match &**b {
                    E::Array(v) => {
                        proof {
                            lemma_member_smaller(*e, **b, *v, 0);
                            lemma_member_smaller(*e, **b, *v, 1);
                        }
                        let lo = match sql_text(d, &v[0], rd, precision) {
                            Ok(t) => t,
                            Err(er) => return Err(er),
                        };
                        let hi = match sql_text(d, &v[1], rd, precision) {
                            Ok(t) => t,
                            Err(er) => return Err(er),
                        };
                        let mut r = l;
                        r.append(" ");
                        r.append(o.as_str());
                        r.append(" ");
                        r.append(lo.as_str());
                        r.append(" AND ");
                        r.append(hi.as_str());
                        Ok(r)
                    },
                    _ => Ok(String::new()),
                }
            } else {
                let l = match sql_text(d, a, rd, precision) {
                    Ok(l) => l,
                    Err(er) => return Err(er),
                };
                let r = match sql_text(d, b, rd, precision) {
                    Ok(r) => r,
                    Err(er) => return Err(er),
                };
                if op.spatial() {
                    let rp = matches!(op, Op::SWithin) || matches!(op, Op::SOverlaps) || matches!(
                        op,
                        Op::STouches
                    );
                    let (l2, r2) = if rp && a.is_id() && !b.is_id() {
                        (reduce_text(l, precision), r)
                    } else if rp && !a.is_id() && b.is_id() {
                        (l, reduce_text(r, precision))
                    } else {
                        (l, r)
                    };
                    let mut t = o;
                    t.append("(");
                    t.append(l2.as_str());
                    t.append(", ");
                    t.append(r2.as_str());
                    t.append(")");
                    Ok(t)
                } else if op.array() {
                    let mut t = l;
                    t.append(" ");
                    t.append(o.as_str());
                    t.append(" ");
                    t.append(r.as_str());
                    Ok(t)
                } else if matches!(op, Op::IsLike) || matches!(op, Op::IsNotLike) {
                    let mut t = paren_sql(a, l);
                    t.append(" ");
                    t.append(o.as_str());
                    t.append(" (");
                    t.append(r.as_str());
                    t.append(")");
                    Ok(t)
                } else {
                    let mut t = paren_sql(a, l);
                    t.append(" ");
                    t.append(o.as_str());
                    t.append(" ");
                    let q = paren_sql(b, r);
                    t.append(q.as_str());
                    Ok(t)
                }
            }
        },
        E::Function(name, v) => {
            let ts = match sql_texts(d, e, v, rd, precision) {
                Ok(ts) => ts,
                Err(er) => return Err(er),
            };
            let j = cat_all(&ts);
            let mut t = name.clone();
            t.append("(");
            t.append(j.as_str());
            t.append(")");
            Ok(t)
        },
        E::Array(v) => {
            let ts = match sql_texts(d, e, v, rd, precision) {
                Ok(ts) => ts,
                Err(er) => return Err(er),
            };
            let j = cat_all(&ts);
            Ok(join3("(", j.as_str(), ")"))
        },
        E::Interval(_, _) => Ok(String::new()),
    }
}

fn reduce_text(s: String, precision: usize) -> (r: String)
    ensures
        r@ == reduce_sql(s@, precision as nat),
{
    let mut r = "ST_ReducePrecision(".to_string();
    r.append(s.as_str());
    r.append(", 1E-");
    let n = u128_text(precision as u128);
    r.append(n.as_str());
    r.append(")");
    r
}


proof fn lemma_not_sql_ok_all(xs: Seq<E>, i: int)
    requires
        0 <= i < xs.len(),
        !sql_ok(xs[i]),
    ensures
        !sql_ok_all(xs),
    decreases xs.len(),
{
    if i < xs.len() - 1 {
        lemma_not_sql_ok_all(xs.subrange(0, xs.len() - 1), i);
    }
}

fn members_sql_ok(e: &E, v: &Vec<E>) -> (r: bool)
    requires
        (*e is Array && e->Array_0 == *v) || (*e is Function && e->Function_1 == *v),
    ensures
        r == sql_ok_all(v@),
    decreases e, 0nat,
{
    let mut i: usize = 0;
    assert(v@.subrange(0, 0) == Seq::<E>::empty());
    while i < v.len()
        invariant
            i <= v.len(),
            (*e is Array && e->Array_0 == *v) || (*e is Function && e->Function_1 == *v),
            sql_ok_all(v@.subrange(0, i as int)),
        decreases v.len() - i,
    {
        proof {
            crate::expr::lemma_element_smaller(*e, *v, i as int);
            let p = v@.subrange(0, i + 1);
            assert(p.subrange(0, p.len() - 1) == v@.subrange(0, i as int));
        }
        if !sql_translatable(&v[i]) {
            proof {
                lemma_not_sql_ok_all(v@, i as int);
            }
            return false;
        }
        i = i + 1;
    }
    assert(v@.subrange(0, v.len() as int) == v@);
    true
}

fn operand_translatable(o: &E) -> (r: bool)
    ensures
        r == operand_ok(*o),
    decreases o, 2nat,
{
    match o {
        E::Interval(x, y) => sql_translatable(x) && sql_translatable(y),
        _ => sql_translatable(o),
    }
}

/// Whether an expression can be written as SQL (see [sql_ok]).
pub fn sql_translatable(e: &E) -> (r: bool)
    ensures
        r == sql_ok(*e),
    decreases e, 1nat,
{
    match e {
        E::Interval(_, _) => false,
        E::Monadic(op, x) => (op.nullable() || matches!(op, Op::Neg) || matches!(op, Op::Minus)
            || matches!(op, Op::CaseI) || matches!(op, Op::AccentI)) && sql_translatable(x),
        E::Dyadic(op, a, b) => {
            if matches!(op, Op::IsBetween) || matches!(op, Op::IsNotBetween) {
                if !sql_translatable(a) {
                    return false;
                }
                match &**b {
                    E::Array(v) => {
                        if v.len() < 2 {
                            return false;
                        }
                        proof {
                            lemma_member_smaller(*e, **b, *v, 0);
                            lemma_member_smaller(*e, **b, *v, 1);
                        }
                        sql_translatable(&v[0]) && sql_translatable(&v[1])
                    },
                    _ => false,
                }
            } else if op.temporal() {
                let only = !op.instant_or_interval();
                operand_translatable(a) && operand_translatable(b) && (!only || (a.is_interval()
                    && b.is_interval()))
            } else {
                sql_translatable(a) && sql_translatable(b)
            }
        },
        E::Function(_, v) => members_sql_ok(e, v),
        E::Array(v) => members_sql_ok(e, v),
        _ => true,
    }
}

} // verus!
