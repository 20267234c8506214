use ogc_cql2::config::{Config, ConfigError, Settings};
use ogc_cql2::error::MyError;
use ogc_cql2::srid::SRID;

fn settings() -> Settings {
    Settings {
        default_srid: None,
        default_precision: None,
        pg_url: Some("postgres://u:p@localhost:5432".to_string()),
        pg_max_connections: None,
        pg_min_connections: None,
        pg_acquire_timeout_secs: None,
        pg_idle_timeout_secs: None,
        pg_max_lifetime_secs: None,
    }
}

#[test]
fn srid_from_signed_codes() {
    assert_eq!(SRID::try_from_i32(-1, Err(MyError::Conv)).unwrap().value(), -1);
    assert_eq!(SRID::try_from_i32(0, Err(MyError::Conv)).unwrap().value(), 0);
    assert!(matches!(SRID::try_from_i32(-2, Ok(())), Err(MyError::Conv)));
    assert_eq!(SRID::try_from_i32(4326, Ok(())).unwrap(), SRID::epsg_4326());
    assert!(matches!(
        SRID::try_from_i32(999999, Err(MyError::Proj("unknown".to_string()))),
        Err(MyError::Proj(_))
    ));
    assert_eq!(SRID::code_to_check_i32(4326), Some(4326));
    assert_eq!(SRID::code_to_check_i32(-1), None);
}

#[test]
fn srid_from_unsigned_codes() {
    assert_eq!(SRID::try_from_usize(0, Err(MyError::Conv)).unwrap().value(), 0);
    assert_eq!(SRID::try_from_usize(3857, Ok(())).unwrap().value(), 3857);
    assert!(matches!(SRID::try_from_usize(3_000_000_000, Ok(())), Err(MyError::Conv)));
    assert_eq!(SRID::code_to_check_usize(0), None);
}

#[test]
fn srid_text() {
    assert_eq!(SRID::epsg_4326().to_string(), "EPSG:4326");
    assert_eq!(SRID::try_from_i32(-1, Ok(())).unwrap().to_string(), "Undefined (Cartesian)");
    assert_eq!(SRID::try_from_i32(0, Ok(())).unwrap().to_string(), "Undefined (geographic)");
    assert_eq!(SRID::epsg_4326().as_usize().unwrap(), 4326);
    assert!(SRID::try_from_i32(-1, Ok(())).unwrap().as_usize().is_err());
}

#[test]
fn config_defaults() {
    let s = settings();
    assert_eq!(Config::srid_setting(&s).unwrap(), 4326);
    let c = Config::try_new(&s, Ok(())).unwrap();
    assert_eq!(c.default_srid().value(), 4326);
    assert_eq!(c.default_crs(), "EPSG:4326");
    assert_eq!(c.default_precision(), 7);
    assert_eq!(c.pg_url(), "postgres://u:p@localhost:5432");
    assert_eq!(c.pg_max_connections(), 8);
    assert_eq!(c.pg_min_connections(), 4);
    assert_eq!(c.pg_acquire_timeout(), 8);
    assert_eq!(c.pg_idle_timeout(), 8);
    assert_eq!(c.pg_max_lifetime(), 8);
    assert_eq!(c.pg_appname(), "CQL2");
}

#[test]
fn config_errors() {
    let mut s = settings();
    s.default_srid = Some("x".to_string());
    assert!(matches!(Config::try_new(&s, Ok(())), Err(ConfigError::InvalidSrid)));

    let s = settings();
    let e = Config::try_new(&s, Err(MyError::Proj("no".to_string()))).unwrap_err();
    assert!(matches!(e, ConfigError::UnknownSrid(MyError::Proj(_))));
    assert_eq!(e.message(), "Invalid EPSG SRS identifier");

    let mut s = settings();
    s.default_srid = Some("0".to_string());
    let e = Config::try_new(&s, Err(MyError::Proj("no".to_string()))).unwrap_err();
    assert!(matches!(e, ConfigError::InvalidCrs(_)));

    let mut s = settings();
    s.default_precision = Some("33".to_string());
    let e = Config::try_new(&s, Ok(())).unwrap_err();
    assert_eq!(e.message(), "Invalid (33) default precision. MUST be <= 32");

    let mut s = settings();
    s.default_precision = Some("32".to_string());
    assert_eq!(Config::try_new(&s, Ok(())).unwrap().default_precision(), 32);

    let mut s = settings();
    s.pg_url = None;
    assert_eq!(Config::try_new(&s, Ok(())).unwrap_err().message(), "Missing PG_URL");

    let mut s = settings();
    s.pg_max_connections = Some("4294967296".to_string());
    assert_eq!(
        Config::try_new(&s, Ok(())).unwrap_err().message(),
        "Failed parsing DB_MAX_CONNECTIONS"
    );

    let mut s = settings();
    s.pg_idle_timeout_secs = Some("-1".to_string());
    assert!(matches!(Config::try_new(&s, Ok(())), Err(ConfigError::InvalidIdleTimeout)));
}

#[test]
fn test_default_srid() {
    // should be the same as that of the corresponding setting...
    let mut s = settings();
    s.default_srid = Some("3857".to_string());
    let c = Config::try_new(&s, Ok(())).unwrap();
    let actual = c.default_srid();
    let expected = "3857";
    assert_eq!(actual.as_usize().unwrap().to_string(), expected);
}

#[test]
fn test_default_precision() {
    // should be the same as that of the corresponding setting...
    let mut s = settings();
    s.default_precision = Some("5".to_string());
    let c = Config::try_new(&s, Ok(())).unwrap();
    let expected: usize = "5".parse().unwrap();
    assert_eq!(c.default_precision(), expected);
}
