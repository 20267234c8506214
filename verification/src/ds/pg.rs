//! Geospatial data stored in a PostGIS database table.
//!
//! Connecting and querying is left to the caller; here are the decisions:
//! which URL to connect to, which statements prepare a session, which SRID
//! the table's geometry column gives, and how strings are written in SQL.

use crate::ds::filter::{same_result, sql_of, sql_ok, sql_text, Dialect, SqlRender};
use crate::ds::DataSource;
use crate::expr::E;
use crate::error::MyError;
use crate::qstring::QString;
use vstd::prelude::*;

verus! {

/// A name surrounded by double quotes, unless it already is (it has two
/// characters at least, the first and the last a double quote).
pub open spec fn quoted_name(s: Seq<char>) -> Seq<char> {
    if s.len() >= 2 && s[0] == '"' && s.last() == '"' {
        s
    } else {
        seq!['"'] + s + seq!['"']
    }
}

/// The name of the PostgreSQL collation for the case (1), accent (2) or
/// case and accent (3) insensitive comparison of strings.
pub open spec fn collation(flags: u8) -> Seq<char> {
    if flags == 1 {
        "cql2_ci"@
    } else if flags == 2 {
        "cql2_ai"@
    } else {
        "cql2_ci_ai"@
    }
}

/// A string in PostgreSQL: its text in single quotes, followed by the
/// collation its flags call for (PostgreSQL's own Unicode collation for a
/// plain string).
pub open spec fn string_sql(qs: QString) -> Seq<char> {
    "'"@ + qs.text() + "' COLLATE \""@ + (if qs.flag_bits() == 0 {
        "pg_unicode_fast"@
    } else {
        collation(qs.flag_bits())
    }) + "\""@
}

/// Render a given string as surrounded by double-quotes unless it already
/// is.
pub fn double_quoted(s: String) -> (r: String)
    ensures
        r@ == quoted_name(s@),
{
    let v = crate::unicode::chars_of(s.as_str());
    if v.len() >= 2 && v[0] == '"' && v[v.len() - 1] == '"' {
        s
    } else {
        proof {
            reveal_strlit("\"");
        }
        let mut r = "\"".to_string();
        r.append(s.as_str());
        r.append("\"");
        r
    }
}

/// Generate a string that can be used in composing an SQL WHERE clause: the
/// text in single quotes, followed by the collation its flags call for
/// (PostgreSQL's own Unicode collation for a plain string).
pub fn qstr_to_sql(qs: QString) -> (r: Result<String, MyError>)
    ensures
        r matches Ok(s) && s@ == string_sql(qs),
{
    let flags = qs.flags();
    let mut r = "'".to_string();
    r.append(qs.inner());
    r.append("' COLLATE \"");
    if flags == 0 {
        r.append("pg_unicode_fast");
    } else if flags == 1 {
        r.append("cql2_ci");
    } else if flags == 2 {
        r.append("cql2_ai");
    } else {
        r.append("cql2_ci_ai");
    }
    r.append("\"");
    Ok(r)
}

/// [`DataSource`] binding a _PostGIS_ enabled database + a table name that
/// maps rows to _Features_ and Resources. The connection pool is held by
/// the code that connected.
#[derive(Debug)]
pub struct PGDataSource {
    db_name: String,
    table: String,
    srid: u32,
}

impl DataSource for PGDataSource {
    /// The SRID of the table's geometry column.
    fn srid(&self) -> (r: Option<u32>)
        ensures
            r == Some(self.srid_spec()),
    {
        Some(self.srid)
    }
}

/// The statements that prepare a session: UTC as the time zone, and the
/// three ICU collations that ignore case (level 2), accents (level 1 with
/// case kept) and both (level 1).
pub open spec fn session_statements() -> Seq<Seq<char>> {
    seq![
        "SET TIME ZONE 'UTC';"@,
        "CREATE COLLATION IF NOT EXISTS \"cql2_ci\" (provider = icu, deterministic = false, locale = 'und-u-ks-level2');"@,
        "CREATE COLLATION IF NOT EXISTS \"cql2_ai\" (provider = icu, deterministic = false, locale = 'und-u-ks-level1-kc-true');"@,
        "CREATE COLLATION IF NOT EXISTS \"cql2_ci_ai\" (provider = icu, deterministic = false, locale = 'und-u-ks-level1');"@,
    ]
}

impl PGDataSource {
    /// The database name.
    pub closed spec fn db_name_text(self) -> Seq<char> {
        self.db_name@
    }

    /// The table name.
    pub closed spec fn table_text(self) -> Seq<char> {
        self.table@
    }

    /// The SRID of the table's geometry column.
    pub closed spec fn srid_spec(self) -> u32 {
        self.srid
    }

    /// The URL to connect to: the server URL, a slash, the database name.
    pub fn connection_url(pg_url: &str, db_name: &str) -> (r: String)
        ensures
            r@ == pg_url@ + "/"@ + db_name@,
    {
        let mut r = pg_url.to_string();
        r.append("/");
        r.append(db_name);
        r
    }

    /// Return the statements that prepare a session, in the order they run.
    pub fn session_sql() -> (r: Vec<String>)
        ensures
            r.len() == session_statements().len(),
            forall|i: int| 0 <= i < r.len() ==> #[trigger] r[i]@ == session_statements()[i],
    {
        let mut r: Vec<String> = Vec::new();
        r.push("SET TIME ZONE 'UTC';".to_string());
        r.push(
            "CREATE COLLATION IF NOT EXISTS \"cql2_ci\" (provider = icu, deterministic = false, locale = 'und-u-ks-level2');".to_string(),
        );
        r.push(
            "CREATE COLLATION IF NOT EXISTS \"cql2_ai\" (provider = icu, deterministic = false, locale = 'und-u-ks-level1-kc-true');".to_string(),
        );
        r.push(
            "CREATE COLLATION IF NOT EXISTS \"cql2_ci_ai\" (provider = icu, deterministic = false, locale = 'und-u-ks-level1');".to_string(),
        );
        r
    }

    /// Make the data source of table `table` in database `db_name`, whose
    /// geometry column has the SRID `srid` in `geometry_columns`; a negative
    /// SRID does not convert to an unsigned one.
    pub fn try_new(db_name: &str, table: &str, srid: i32) -> (r: Result<PGDataSource, MyError>)
        ensures
            srid >= 0 ==> (r matches Ok(ds) && ds.db_name_text() == db_name@ && ds.table_text()
                == table@ && ds.srid_spec() == srid as u32),
            srid < 0 ==> r matches Err(MyError::Conv),
    {
        if srid >= 0 {
            Ok(PGDataSource { db_name: db_name.to_string(), table: table.to_string(), srid: srid as u32 })
        } else {
            Err(MyError::Conv)
        }
    }

    /// Transform a (reduced) filter expression into an SQL _WHERE_ clause
    /// that selects the matching rows of this table, with `precision` the
    /// number of decimals kept when a spatial relation is decided on
    /// geometries of reduced precision.
    pub fn to_sql_impl<R: SqlRender>(&self, exp: E, render: &R, precision: usize) -> (r: Result<
        String,
        MyError,
    >)
        requires
            sql_ok(exp),
        ensures
            same_result(r, sql_of(Dialect::PostGIS, render, precision as nat, exp)),
    {
        sql_text(Dialect::PostGIS, &exp, render, precision)
    }

    /// Return name of the table housing the data.
    pub fn table(&self) -> (r: &str)
        ensures
            r@ == self.table_text(),
    {
        self.table.as_str()
    }
}

} // verus!
