use ogc_cql2::ds::csv::CSVDataSource;
use ogc_cql2::ds::gpkg::qstr_to_sql as gpkg_sql;
use ogc_cql2::ds::pg::qstr_to_sql as pg_sql;
use ogc_cql2::ds::gpkg::{GPkgAction, GPkgEvent, GPkgOpening, GPKG_APPLICATION_ID};
use ogc_cql2::ds::pg::{double_quoted, PGDataSource};
use ogc_cql2::ds::DataSource;
use ogc_cql2::error::MyError;
use ogc_cql2::qstring::QString;

#[test]
fn csv_data_source() {
    let ds = CSVDataSource::from("tests/samples/data.csv");
    assert_eq!(ds.path(), "tests/samples/data.csv");
    assert_eq!(ds.srid(), None);
}

fn open_until_layer(srs: Option<i32>) -> (GPkgOpening, GPkgAction) {
    let (mut o, a) = GPkgOpening::new("roads");
    assert!(matches!(a, GPkgAction::ReadApplicationId));
    assert!(matches!(o.step(GPkgEvent::ApplicationId(GPKG_APPLICATION_ID)), GPkgAction::CheckIntegrity));
    assert!(matches!(o.step(GPkgEvent::Integrity("ok".to_string())), GPkgAction::CheckForeignKeys));
    match o.step(GPkgEvent::ForeignKeyViolations(0)) {
        GPkgAction::FindLayer(l) => assert_eq!(l, "roads"),
        x => panic!("Unexpected {x:?}"),
    }
    let a = o.step(GPkgEvent::Layer("features".to_string(), srs));
    match &a {
        GPkgAction::Execute(sql) => assert_eq!(
            sql,
            r#"CREATE VIRTUAL TABLE IF NOT EXISTS "vgpkg_roads" USING VirtualGPKG("roads");"#
        ),
        x => panic!("Unexpected {x:?}"),
    }
    (o, a)
}

#[test]
fn gpkg_opening_with_epsg_srs() {
    let (mut o, _) = open_until_layer(Some(4326));
    assert!(matches!(o.step(GPkgEvent::Executed), GPkgAction::FindSrs(4326)));
    match o.step(GPkgEvent::Srs("epsg".to_string(), 4326)) {
        GPkgAction::CheckCrs(c) => assert_eq!(c, "epsg:4326"),
        x => panic!("Unexpected {x:?}"),
    }
    match o.step(GPkgEvent::Crs(Ok(()))) {
        GPkgAction::Done(ds) => {
            assert_eq!(ds.srid(), Some(4326));
            assert_eq!(ds.vtable(), "vgpkg_roads");
            assert_eq!(ds.layer(), "roads");
        }
        x => panic!("Unexpected {x:?}"),
    }
}

#[test]
fn gpkg_opening_with_undefined_srs() {
    for srs in [None, Some(-1), Some(0)] {
        let (mut o, _) = open_until_layer(srs);
        match o.step(GPkgEvent::Executed) {
            GPkgAction::Done(ds) => assert_eq!(ds.srid(), None),
            x => panic!("Unexpected {x:?}"),
        }
    }
}

fn refused(a: GPkgAction, msg: &str) {
    match a {
        GPkgAction::Failed(MyError::Runtime(m)) => assert_eq!(m, msg),
        x => panic!("Unexpected {x:?}"),
    }
}

#[test]
fn gpkg_refusals() {
    let (mut o, _) = GPkgOpening::new("roads");
    refused(o.step(GPkgEvent::ApplicationId(0)), "Unexpected application_id");

    let (mut o, _) = GPkgOpening::new("roads");
    o.step(GPkgEvent::ApplicationId(0x47504B47));
    refused(o.step(GPkgEvent::Integrity("row 3 missing".to_string())), "Failed integrity_check");

    let (mut o, _) = GPkgOpening::new("roads");
    o.step(GPkgEvent::ApplicationId(0x47504B47));
    o.step(GPkgEvent::Integrity("ok".to_string()));
    refused(o.step(GPkgEvent::ForeignKeyViolations(2)), "Found invalid FK value(s)");

    let (mut o, _) = GPkgOpening::new("roads");
    o.step(GPkgEvent::ApplicationId(0x47504B47));
    o.step(GPkgEvent::Integrity("ok".to_string()));
    o.step(GPkgEvent::ForeignKeyViolations(0));
    refused(o.step(GPkgEvent::Layer("tiles".to_string(), None)), "Layer is NOT vector-based");

    let (mut o, _) = open_until_layer(Some(27700));
    o.step(GPkgEvent::Executed);
    refused(o.step(GPkgEvent::Srs("OGC".to_string(), 27700)), "Unexpected (OGC) Authority");

    let (mut o, _) = open_until_layer(Some(5));
    o.step(GPkgEvent::Executed);
    o.step(GPkgEvent::Srs("EPSG".to_string(), -7));
    assert!(matches!(o.step(GPkgEvent::Crs(Ok(()))), GPkgAction::Failed(MyError::Conv)));

    let (mut o, _) = open_until_layer(Some(5));
    o.step(GPkgEvent::Executed);
    o.step(GPkgEvent::Srs("EPSG".to_string(), 5));
    assert!(matches!(
        o.step(GPkgEvent::Crs(Err(MyError::Proj("bad".to_string())))),
        GPkgAction::Failed(MyError::Proj(_))
    ));
}

#[test]
fn strings_in_sql() {
    assert_eq!(gpkg_sql(QString::plain("a")).unwrap(), "'a'");
    assert_eq!(gpkg_sql(QString::icase("a")).unwrap(), "'a' COLLATE CQL2_CI");
    assert_eq!(gpkg_sql(QString::iaccent("a")).unwrap(), "'a' COLLATE CQL2_AI");
    assert_eq!(gpkg_sql(QString::icase("a").and_iaccent()).unwrap(), "'a' COLLATE CQL2_CI_AI");
    assert_eq!(pg_sql(QString::plain("a")).unwrap(), r#"'a' COLLATE "pg_unicode_fast""#);
    assert_eq!(pg_sql(QString::icase("a")).unwrap(), r#"'a' COLLATE "cql2_ci""#);
    assert_eq!(pg_sql(QString::iaccent("a")).unwrap(), r#"'a' COLLATE "cql2_ai""#);
    assert_eq!(pg_sql(QString::iaccent("a").and_icase()).unwrap(), r#"'a' COLLATE "cql2_ci_ai""#);
}

#[test]
fn postgis_data_source() {
    assert_eq!(double_quoted("name".to_string()), "\"name\"");
    assert_eq!(double_quoted("\"name\"".to_string()), "\"name\"");
    assert_eq!(double_quoted("\"".to_string()), "\"\"\"");
    assert_eq!(PGDataSource::connection_url("postgres://h:5432", "gis"), "postgres://h:5432/gis");
    let ds = PGDataSource::try_new("gis", "roads", 4326).unwrap();
    assert_eq!(ds.table(), "roads");
    assert_eq!(ds.srid(), Some(4326));
    assert!(matches!(PGDataSource::try_new("gis", "roads", -1), Err(MyError::Conv)));
    let sql = PGDataSource::session_sql();
    assert_eq!(sql.len(), 4);
    assert_eq!(sql[0], "SET TIME ZONE 'UTC';");
}
