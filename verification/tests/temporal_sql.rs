use ogc_cql2::ds::sql::{temporal_sql, SqlTerm, TemporalOperand, MIN_DATE_SQL};
use ogc_cql2::op::Op;

fn lit(s: &str) -> SqlTerm {
    SqlTerm { sql: s.to_string(), id: None }
}
fn col(s: &str) -> SqlTerm {
    SqlTerm { sql: format!("\"{s}\""), id: Some(s.to_string()) }
}
fn instant(t: SqlTerm) -> TemporalOperand {
    TemporalOperand::Instant(t)
}
fn interval(a: SqlTerm, b: SqlTerm) -> TemporalOperand {
    TemporalOperand::Interval(a, b)
}

#[test]
fn instants_compare_directly() {
    let a = instant(col("t"));
    let b = instant(lit("'2020-01-01'"));
    assert_eq!(temporal_sql(&Op::TAfter, &a, &b), "\"t\" > '2020-01-01'");
    assert_eq!(temporal_sql(&Op::TBefore, &a, &b), "\"t\" < '2020-01-01'");
    assert_eq!(temporal_sql(&Op::TDisjoint, &a, &b), "\"t\" != '2020-01-01'");
    assert_eq!(temporal_sql(&Op::TEquals, &a, &b), "\"t\" = '2020-01-01'");
    assert_eq!(temporal_sql(&Op::TIntersects, &a, &b), "\"t\" = '2020-01-01'");
}

#[test]
fn intervals_guard_their_properties() {
    let a = interval(col("s"), col("e"));
    let b = interval(lit("'2020-01-01'"), lit(MIN_DATE_SQL));
    assert_eq!(
        temporal_sql(&Op::TAfter, &a, &b),
        "\"e\" IS NOT NULL AND (\"s\" > '-2021-01-01')"
    );
    assert_eq!(
        temporal_sql(&Op::TMeets, &a, &b),
        "\"s\" IS NOT NULL AND (\"e\" = '2020-01-01')"
    );
    assert_eq!(
        temporal_sql(&Op::TDisjoint, &a, &b),
        "(\"s\" IS NOT NULL AND (\"e\" < '2020-01-01')) OR (\"e\" IS NOT NULL AND (\"s\" > '-2021-01-01'))"
    );
    assert_eq!(
        temporal_sql(&Op::TOverlaps, &a, &b),
        "(\"s\" < '2020-01-01') AND (\"e\" > '2020-01-01') AND (\"e\" < '-2021-01-01')"
    );
    assert_eq!(
        temporal_sql(&Op::TIntersects, &a, &b),
        "NOT((\"e\" < '2020-01-01') OR (\"s\" > '-2021-01-01'))"
    );
    let c = interval(col("x"), col("y"));
    assert_eq!(
        temporal_sql(&Op::TMetBy, &a, &c),
        "\"e\" IS NOT NULL AND \"x\" IS NOT NULL AND (\"s\" = \"y\")"
    );
}

#[test]
fn instant_against_interval() {
    let a = instant(lit("'2021-06-01'"));
    let b = interval(col("s"), col("e"));
    assert_eq!(
        temporal_sql(&Op::TEquals, &a, &b),
        "('2021-06-01' = \"s\") AND ('2021-06-01' = \"e\")"
    );
    assert_eq!(
        temporal_sql(&Op::TBefore, &a, &b),
        "\"e\" IS NOT NULL AND ('2021-06-01' < \"s\")"
    );
    let c = interval(lit("'2020-01-01'"), lit("'2020-12-31'"));
    assert_eq!(
        temporal_sql(&Op::TAfter, &c, &instant(col("t"))),
        "'2020-01-01' > \"t\""
    );
}
