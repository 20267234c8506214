use ogc_cql2::ds::filter::{sql_translatable, SqlRender};
use ogc_cql2::ds::gpkg::{GPkgAction, GPkgDataSource, GPkgEvent, GPkgOpening, GPKG_APPLICATION_ID};
use ogc_cql2::ds::pg::PGDataSource;
use ogc_cql2::error::MyError;
use ogc_cql2::expr::E;
use ogc_cql2::op::Op;
use ogc_cql2::qstring::QString;
use ogc_cql2::queryable::{Geom, Num};

struct Sql;

fn float(n: &Num) -> f64 {
    if n.nan {
        f64::NAN
    } else if n.key >> 63 == 1 {
        f64::from_bits(n.key & !(1 << 63))
    } else {
        f64::from_bits(!n.key)
    }
}

fn num(x: f64) -> Num {
    let bits = x.to_bits();
    let key = if bits >> 63 == 1 { !bits } else { bits | (1 << 63) };
    Num { nan: false, key }
}

impl SqlRender for Sql {
    // The spec functions of the trait: each gives what its method gives.
    fn num_sql_string(&self, n: Num) -> String {
        self.num_sql(&n)
    }
    fn geom_sql_result(&self, g: Geom) -> Result<String, MyError> {
        self.geom_sql(&g)
    }

    fn num_sql(&self, n: &Num) -> String {
        format!("{}", float(n))
    }
    fn geom_sql(&self, g: &Geom) -> Result<String, MyError> {
        if g.key == 0 {
            Err(MyError::Runtime("empty geometry".to_string()))
        } else {
            Ok(format!("ST_GeomFromText('POINT({} 0)', 4326)", g.key))
        }
    }
}

fn id(x: &str) -> E {
    E::Id(x.to_string())
}
fn n(x: f64) -> E {
    E::Num(num(x))
}
fn dy(op: Op, a: E, b: E) -> E {
    E::Dyadic(op, Box::new(a), Box::new(b))
}
fn mo(op: Op, a: E) -> E {
    E::Monadic(op, Box::new(a))
}
fn interval(a: E, b: E) -> E {
    E::Interval(Box::new(a), Box::new(b))
}

fn gpkg() -> GPkgDataSource {
    let (mut o, _) = GPkgOpening::new("roads");
    o.step(GPkgEvent::ApplicationId(GPKG_APPLICATION_ID));
    o.step(GPkgEvent::Integrity("ok".to_string()));
    o.step(GPkgEvent::ForeignKeyViolations(0));
    o.step(GPkgEvent::Layer("features".to_string(), None));
    match o.step(GPkgEvent::Executed) {
        GPkgAction::Done(ds) => ds,
        x => panic!("Unexpected {x:?}"),
    }
}

fn pg() -> PGDataSource {
    PGDataSource::try_new("db", "roads", 4326).unwrap()
}

#[test]
fn sql_of_comparisons_and_logic() {
    let e = dy(
        Op::And,
        dy(Op::Lt, id("depth"), n(3.0)),
        mo(Op::Neg, dy(Op::Eq, id("name"), E::Str(QString::plain("x")))),
    );
    assert!(sql_translatable(&e));
    assert_eq!(
        gpkg().to_sql_impl(e, &Sql, 7).unwrap(),
        "(depth < 3) AND (NOT (name = 'x'))"
    );
    let e = dy(Op::Plus, id("a"), dy(Op::Mult, n(2.0), id("b")));
    assert_eq!(pg().to_sql_impl(e, &Sql, 7).unwrap(), "\"a\" + (2 * \"b\")");
}

#[test]
fn sql_of_strings_and_collations() {
    let e = dy(Op::Eq, mo(Op::CaseI, id("name")), mo(Op::CaseI, E::Str(QString::plain("Abc"))));
    assert_eq!(
        gpkg().to_sql_impl(e, &Sql, 7).unwrap(),
        "(name COLLATE CQL2_CI) = ('Abc' COLLATE CQL2_CI)"
    );
    let e = mo(Op::AccentI, mo(Op::CaseI, id("name")));
    assert_eq!(pg().to_sql_impl(e, &Sql, 7).unwrap(), "\"name\" COLLATE cql2_ci_ai");
    let e = dy(Op::IsLike, id("name"), E::Str(QString::icase("a%")));
    assert_eq!(
        pg().to_sql_impl(e, &Sql, 7).unwrap(),
        "\"name\" LIKE ('a%' COLLATE \"cql2_ci\")"
    );
}

#[test]
fn sql_of_null_between_lists_and_calls() {
    let e = mo(Op::IsNull, id("a"));
    assert_eq!(gpkg().to_sql_impl(e, &Sql, 7).unwrap(), "a IS NULL");
    let e = dy(Op::IsBetween, id("depth"), E::Array(vec![n(100.0), n(150.0)]));
    assert_eq!(gpkg().to_sql_impl(e, &Sql, 7).unwrap(), "depth BETWEEN 100 AND 150");
    let e = dy(Op::IsBetween, id("depth"), E::Array(vec![n(100.0), n(150.0), n(7.0)]));
    assert!(sql_translatable(&e));
    assert_eq!(gpkg().to_sql_impl(e, &Sql, 7).unwrap(), "depth BETWEEN 100 AND 150");
    assert!(!sql_translatable(&dy(Op::IsBetween, id("depth"), E::Array(vec![n(1.0)]))));
    let e = dy(Op::IsInList, id("a"), E::Array(vec![n(1.0), n(2.0)]));
    assert_eq!(gpkg().to_sql_impl(e, &Sql, 7).unwrap(), "a IN (1, 2)");
    let e = dy(Op::IsInList, id("a"), E::Array(vec![n(1.0), E::Null]));
    assert_eq!(gpkg().to_sql_impl(e, &Sql, 7).unwrap(), "a IN ((1, NULL))");
    let e = E::Function("avg".to_string(), vec![id("a"), E::Bool(true)]);
    assert_eq!(gpkg().to_sql_impl(e, &Sql, 7).unwrap(), "avg(a, TRUE)");
}

#[test]
fn sql_of_spatial_relations() {
    let e = dy(Op::SWithin, id("geom"), E::Spatial(Geom { key: 5 }));
    assert_eq!(
        gpkg().to_sql_impl(e, &Sql, 7).unwrap(),
        "ST_Within(ST_ReducePrecision(geom, 1E-7), ST_GeomFromText('POINT(5 0)', 4326))"
    );
    let e = dy(Op::SIntersects, id("geom"), E::Spatial(Geom { key: 5 }));
    assert_eq!(
        pg().to_sql_impl(e, &Sql, 7).unwrap(),
        "ST_Intersects(\"geom\", ST_GeomFromText('POINT(5 0)', 4326))"
    );
    let e = dy(Op::SIntersects, E::Spatial(Geom { key: 0 }), id("geom"));
    assert!(matches!(pg().to_sql_impl(e, &Sql, 7), Err(MyError::Runtime(m)) if m == "empty geometry"));
}

#[test]
fn sql_of_temporal_relations() {
    let a = interval(id("s1"), id("e1"));
    let b = interval(id("s2"), id("e2"));
    let e = dy(Op::TMeets, a, b);
    assert!(sql_translatable(&e));
    assert_eq!(
        pg().to_sql_impl(e, &Sql, 7).unwrap(),
        "\"s1\" IS NOT NULL AND \"e2\" IS NOT NULL AND (\"e1\" = \"s2\")"
    );
    let e = dy(Op::TAfter, E::Date(0), interval(E::Unbounded, id("e")));
    assert_eq!(
        gpkg().to_sql_impl(e, &Sql, 7).unwrap(),
        "'1970-01-01' > e"
    );
}

#[test]
fn sql_of_untranslatable_expressions() {
    assert!(!sql_translatable(&interval(id("a"), id("b"))));
    assert!(!sql_translatable(&dy(Op::TMeets, id("a"), id("b"))));
    assert!(!sql_translatable(&mo(Op::Plus, id("a"))));
    assert!(sql_translatable(&dy(Op::TAfter, id("a"), id("b"))));
}

#[test]
fn sql_of_operators() {
    assert_eq!(Op::Neq.sql_text(), "<>");
    assert_eq!(Op::IsNotNull.sql_text(), "IS NOT NULL");
    assert_eq!(Op::SContains.sql_text(), "ST_Contains");
    assert_eq!(Op::AOverlaps.sql_text(), "&&");
    assert_eq!(Op::TMeets.sql_text(), "");
}
