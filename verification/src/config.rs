//! Configuration parameters affecting the behaviour of this library.
//!
//! 1. _Default CRS_: help determine if geometry coordinates w/o explicit CRS
//!    are valid or not.
//!
//! 2. _Default precision_: the number of decimal digits after the decimal
//!    point to output when rendering geometry coordinates in a WKT; also used
//!    when generating SQL for certain ST functions.
//!
//! The settings come from environment variables; each is read as text, and
//! an unset variable takes its default.

use crate::error::MyError;
use crate::numeric::{decimal, parse_unsigned, parsed_unsigned, u128_text};
use crate::srid::SRID;
use vstd::prelude::*;

verus! {

/// The largest default precision accepted.
pub const MAX_PRECISION: usize = 32;

/// The text of each setting, `None` where its environment variable is unset.
pub struct Settings {
    /// `DEFAULT_SRID`: the EPSG code of the default CRS (default `4326`).
    pub default_srid: Option<String>,
    /// `DEFAULT_PRECISION`: decimal digits after the point (default `7`).
    pub default_precision: Option<String>,
    /// `PG_URL`: PostgreSQL server URL (no default).
    pub pg_url: Option<String>,
    /// `PG_MAX_CONNECTIONS` (default `8`).
    pub pg_max_connections: Option<String>,
    /// `PG_MIN_CONNECTIONS` (default `4`).
    pub pg_min_connections: Option<String>,
    /// `PG_ACQUIRE_TIMEOUT_SECS` (default `8`).
    pub pg_acquire_timeout_secs: Option<String>,
    /// `PG_IDLE_TIMEOUT_SECS` (default `8`).
    pub pg_idle_timeout_secs: Option<String>,
    /// `PG_MAX_LIFETIME_SECS` (default `8`).
    pub pg_max_lifetime_secs: Option<String>,
}

/// Why a configuration could not be made from the settings.
#[derive(Debug)]
pub enum ConfigError {
    /// `DEFAULT_SRID` is not an unsigned integer.
    InvalidSrid,
    /// PROJ does not know the EPSG code of `DEFAULT_SRID`.
    UnknownSrid(MyError),
    /// PROJ cannot build the default CRS.
    InvalidCrs(MyError),
    /// `DEFAULT_PRECISION` is not an unsigned integer.
    InvalidPrecision,
    /// `DEFAULT_PRECISION` is larger than [MAX_PRECISION].
    PrecisionTooLarge(usize),
    /// `PG_URL` is unset.
    MissingPgUrl,
    /// `PG_MAX_CONNECTIONS` is not a `u32`.
    InvalidMaxConnections,
    /// `PG_MIN_CONNECTIONS` is not a `u32`.
    InvalidMinConnections,
    /// `PG_ACQUIRE_TIMEOUT_SECS` is not a `u64`.
    InvalidAcquireTimeout,
    /// `PG_IDLE_TIMEOUT_SECS` is not a `u64`.
    InvalidIdleTimeout,
    /// `PG_MAX_LIFETIME_SECS` is not a `u64`.
    InvalidMaxLifetime,
}

impl ConfigError {
    /// The text of this error.
    pub open spec fn text(self) -> Seq<char> {
        match self {
            ConfigError::InvalidSrid => "Invalid DEFAULT_SRID"@,
            ConfigError::UnknownSrid(_) => "Invalid EPSG SRS identifier"@,
            ConfigError::InvalidCrs(_) => "Invalid default CRS"@,
            ConfigError::InvalidPrecision => "Failed parsing DEFAULT_PRECISION"@,
            ConfigError::PrecisionTooLarge(v) => "Invalid ("@ + decimal(v as nat)
                + ") default precision. MUST be <= 32"@,
            ConfigError::MissingPgUrl => "Missing PG_URL"@,
            ConfigError::InvalidMaxConnections => "Failed parsing DB_MAX_CONNECTIONS"@,
            ConfigError::InvalidMinConnections => "Failed parsing PG_MIN_CONNECTIONS"@,
            ConfigError::InvalidAcquireTimeout => "Failed parsing PG_ACQUIRE_TIMEOUT_SECS"@,
            ConfigError::InvalidIdleTimeout => "Failed parsing PG_IDLE_TIMEOUT_SECS"@,
            ConfigError::InvalidMaxLifetime => "Failed parsing PG_MAX_LIFETIME_SECS"@,
        }
    }

    /// Return the text of this error.
    pub fn message(&self) -> (r: String)
        ensures
            r@ == self.text(),
    {
        match self {
            ConfigError::InvalidSrid => "Invalid DEFAULT_SRID".to_string(),
            ConfigError::UnknownSrid(_) => "Invalid EPSG SRS identifier".to_string(),
            ConfigError::InvalidCrs(_) => "Invalid default CRS".to_string(),
            ConfigError::InvalidPrecision => "Failed parsing DEFAULT_PRECISION".to_string(),
            ConfigError::PrecisionTooLarge(v) => {
                let mut r = "Invalid (".to_string();
                let digits = u128_text(*v as u128);
                r.append(digits.as_str());
                r.append(") default precision. MUST be <= 32");
                r
            },
            ConfigError::MissingPgUrl => "Missing PG_URL".to_string(),
            ConfigError::InvalidMaxConnections => "Failed parsing DB_MAX_CONNECTIONS".to_string(),
            ConfigError::InvalidMinConnections => "Failed parsing PG_MIN_CONNECTIONS".to_string(),
            ConfigError::InvalidAcquireTimeout => "Failed parsing PG_ACQUIRE_TIMEOUT_SECS".to_string(),
            ConfigError::InvalidIdleTimeout => "Failed parsing PG_IDLE_TIMEOUT_SECS".to_string(),
            ConfigError::InvalidMaxLifetime => "Failed parsing PG_MAX_LIFETIME_SECS".to_string(),
        }
    }
}

/// The text of a setting: its value when set, else the default.
pub open spec fn setting_text(v: Option<String>, default: Seq<char>) -> Seq<char> {
    match v {
        Some(s) => s@,
        None => default,
    }
}

/// The unsigned integer a setting reads as, if it is one no larger than
/// `max`.
pub open spec fn setting_value(v: Option<String>, default: Seq<char>, max: nat) -> Option<nat> {
    match parsed_unsigned(setting_text(v, default)) {
        Some(n) => if n <= max {
            Some(n)
        } else {
            None
        },
        None => None,
    }
}

/// Read an unsigned setting no larger than `max`.
fn read_setting(v: &Option<String>, default: &str, max: u64) -> (r: Option<u64>)
    ensures
        r matches Some(n) ==> setting_value(*v, default@, max as nat) == Some(n as nat),
        r is None ==> setting_value(*v, default@, max as nat) is None,
{
    let text: &str = match v {
        Some(s) => s.as_str(),
        None => default,
    };
    parse_unsigned(text, max)
}

/// This library's configuration.
#[derive(Debug)]
pub struct Config {
    default_srid: SRID,
    default_crs: String,
    default_precision: usize,
    pg_url: String,
    pg_max_connections: u32,
    pg_min_connections: u32,
    pg_acquire_timeout: u64,
    pg_idle_timeout: u64,
    pg_max_lifetime: u64,
    pg_appname: String,
}

/// The default CRS of an EPSG code: `EPSG:` followed by the code.
pub open spec fn crs_of(srid: nat) -> Seq<char> {
    "EPSG:"@ + decimal(srid)
}

impl Config {
    /// The EPSG code that `DEFAULT_SRID` reads as (`4326` when unset).
    pub open spec fn srid_spec(settings: Settings) -> Option<nat> {
        setting_value(settings.default_srid, "4326"@, usize::MAX as nat)
    }

    /// Return the EPSG code that `DEFAULT_SRID` reads as (`4326` when
    /// unset), or the error it makes when it is not an unsigned integer.
    /// PROJ is then asked to build `EPSG:{code}`; its answer is the
    /// `crs_check` of [Config::try_new].
    pub fn srid_setting(settings: &Settings) -> (r: Result<usize, ConfigError>)
        ensures
            r matches Ok(n) ==> Self::srid_spec(*settings) == Some(n as nat),
            r is Err ==> Self::srid_spec(*settings) is None,
            r matches Err(e) ==> e is InvalidSrid,
    {
        match read_setting(&settings.default_srid, "4326", usize::MAX as u64) {
            Some(n) => Ok(n as usize),
            None => Err(ConfigError::InvalidSrid),
        }
    }

    /// The first error the settings make, given whether PROJ can build the
    /// default CRS; `None` when there is none.
    pub open spec fn first_error(settings: Settings, crs_ok: bool) -> Option<ConfigError> {
        let srid = Self::srid_spec(settings);
        let precision = setting_value(settings.default_precision, "7"@, usize::MAX as nat);
        if srid is None {
            Some(ConfigError::InvalidSrid)
        } else if !crs_ok && srid.unwrap() != 0 {
            Some(ConfigError::UnknownSrid(MyError::Conv))
        } else if srid.unwrap() > i32::MAX {
            Some(ConfigError::UnknownSrid(MyError::Conv))
        } else if !crs_ok {
            Some(ConfigError::InvalidCrs(MyError::Conv))
        } else if precision is None {
            Some(ConfigError::InvalidPrecision)
        } else if precision.unwrap() > MAX_PRECISION {
            Some(ConfigError::PrecisionTooLarge(precision.unwrap() as usize))
        } else if settings.pg_url is None {
            Some(ConfigError::MissingPgUrl)
        } else if setting_value(settings.pg_max_connections, "8"@, u32::MAX as nat) is None {
            Some(ConfigError::InvalidMaxConnections)
        } else if setting_value(settings.pg_min_connections, "4"@, u32::MAX as nat) is None {
            Some(ConfigError::InvalidMinConnections)
        } else if setting_value(settings.pg_acquire_timeout_secs, "8"@, u64::MAX as nat) is None {
            Some(ConfigError::InvalidAcquireTimeout)
        } else if setting_value(settings.pg_idle_timeout_secs, "8"@, u64::MAX as nat) is None {
            Some(ConfigError::InvalidIdleTimeout)
        } else if setting_value(settings.pg_max_lifetime_secs, "8"@, u64::MAX as nat) is None {
            Some(ConfigError::InvalidMaxLifetime)
        } else {
            None
        }
    }

    /// Whether two errors are of the same kind (the PROJ errors they may
    /// carry aside).
    pub open spec fn same_error(a: ConfigError, b: ConfigError) -> bool {
        match (a, b) {
            (ConfigError::UnknownSrid(_), ConfigError::UnknownSrid(_)) => true,
            (ConfigError::InvalidCrs(_), ConfigError::InvalidCrs(_)) => true,
            (ConfigError::UnknownSrid(_), _) => false,
            (ConfigError::InvalidCrs(_), _) => false,
            _ => a == b,
        }
    }

    /// Make the configuration from its settings. `crs_check` is the outcome
    /// of building the CRS `EPSG:{code}` with PROJ, for the code that
    /// [Config::srid_setting] returns; its error is kept in the one this
    /// returns. The settings are checked in this order: `DEFAULT_SRID`
    /// reads as an unsigned integer, PROJ knows its code (the code `0` needs
    /// no check to be an identifier, but still fails as a CRS) and fits in
    /// an `i32`,
    /// `DEFAULT_PRECISION` reads as an unsigned integer no larger than 32,
    /// `PG_URL` is set, the connection counts read as `u32` and the three
    /// durations as `u64` numbers of seconds.
    pub fn try_new(settings: &Settings, crs_check: Result<(), MyError>) -> (r: Result<
        Config,
        ConfigError,
    >)
        ensures
            r is Ok <==> Self::first_error(*settings, crs_check is Ok) is None,
            r matches Err(e) ==> Self::same_error(
                e,
                Self::first_error(*settings, crs_check is Ok).unwrap(),
            ),
            r matches Err(ConfigError::UnknownSrid(e)) ==> crs_check == Err::<(), MyError>(e) || (
            crs_check is Ok && e is Conv),
            r matches Err(ConfigError::InvalidCrs(e)) ==> crs_check == Err::<(), MyError>(e),
            r matches Ok(c) ==> {
                &&& Self::srid_spec(*settings) == Some(c.srid_spec_of().code() as nat)
                &&& c.default_crs_text() == crs_of(c.srid_spec_of().code() as nat)
                &&& setting_value(settings.default_precision, "7"@, usize::MAX as nat) == Some(
                    c.precision_spec() as nat,
                )
                &&& settings.pg_url matches Some(u) && c.pg_url_text() == u@
                &&& setting_value(settings.pg_max_connections, "8"@, u32::MAX as nat) == Some(
                    c.max_connections_spec() as nat,
                )
                &&& setting_value(settings.pg_min_connections, "4"@, u32::MAX as nat) == Some(
                    c.min_connections_spec() as nat,
                )
                &&& setting_value(settings.pg_acquire_timeout_secs, "8"@, u64::MAX as nat) == Some(
                    c.acquire_timeout_spec() as nat,
                )
                &&& setting_value(settings.pg_idle_timeout_secs, "8"@, u64::MAX as nat) == Some(
                    c.idle_timeout_spec() as nat,
                )
                &&& setting_value(settings.pg_max_lifetime_secs, "8"@, u64::MAX as nat) == Some(
                    c.max_lifetime_spec() as nat,
                )
                &&& c.appname_text() == "CQL2"@
            },
    {
        let srid = match Self::srid_setting(settings) {
            Ok(n) => n,
            Err(e) => return Err(e),
        };
        let default_srid = if srid == 0 {
            SRID::try_from_usize(0, Ok(()))
        } else {
            match crs_check {
                Ok(()) => SRID::try_from_usize(srid, Ok(())),
                Err(e) => return Err(ConfigError::UnknownSrid(e)),
            }
        };
        let default_srid = match default_srid {
            Ok(s) => s,
            Err(_) => {
                // a code that PROJ knows fits in an `i32`
                return Err(ConfigError::UnknownSrid(MyError::Conv));
            },
        };
        proof { SRID::lemma_code_of(srid as i32); }
        match crs_check {
            Ok(()) => {},
            Err(e) => return Err(ConfigError::InvalidCrs(e)),
        }
        let mut default_crs = "EPSG:".to_string();
        let digits = u128_text(srid as u128);
        default_crs.append(digits.as_str());
        let precision = match read_setting(&settings.default_precision, "7", usize::MAX as u64) {
            Some(n) => n as usize,
            None => return Err(ConfigError::InvalidPrecision),
        };
        if precision > MAX_PRECISION {
            return Err(ConfigError::PrecisionTooLarge(precision));
        }
        let pg_url = match &settings.pg_url {
            Some(u) => u.clone(),
            None => return Err(ConfigError::MissingPgUrl),
        };
        let pg_max_connections = match read_setting(&settings.pg_max_connections, "8", u32::MAX as u64) {
            Some(n) => n as u32,
            None => return Err(ConfigError::InvalidMaxConnections),
        };
        let pg_min_connections = match read_setting(&settings.pg_min_connections, "4", u32::MAX as u64) {
            Some(n) => n as u32,
            None => return Err(ConfigError::InvalidMinConnections),
        };
        let pg_acquire_timeout = match read_setting(&settings.pg_acquire_timeout_secs, "8", u64::MAX) {
            Some(n) => n,
            None => return Err(ConfigError::InvalidAcquireTimeout),
        };
        let pg_idle_timeout = match read_setting(&settings.pg_idle_timeout_secs, "8", u64::MAX) {
            Some(n) => n,
            None => return Err(ConfigError::InvalidIdleTimeout),
        };
        let pg_max_lifetime = match read_setting(&settings.pg_max_lifetime_secs, "8", u64::MAX) {
            Some(n) => n,
            None => return Err(ConfigError::InvalidMaxLifetime),
        };
        Ok(Config {
            default_srid,
            default_crs,
            default_precision: precision,
            pg_url,
            pg_max_connections,
            pg_min_connections,
            pg_acquire_timeout,
            pg_idle_timeout,
            pg_max_lifetime,
            pg_appname: "CQL2".to_string(),
        })
    }

    /// The default CRS code.
    pub closed spec fn default_crs_text(self) -> Seq<char> {
        self.default_crs@
    }

    /// The default precision.
    pub closed spec fn precision_spec(self) -> usize {
        self.default_precision
    }

    /// The PostgreSQL server URL.
    pub closed spec fn pg_url_text(self) -> Seq<char> {
        self.pg_url@
    }

    /// The largest number of pooled connections.
    pub closed spec fn max_connections_spec(self) -> u32 {
        self.pg_max_connections
    }

    /// The smallest number of pooled connections.
    pub closed spec fn min_connections_spec(self) -> u32 {
        self.pg_min_connections
    }

    /// How long to wait for a connection, in seconds.
    pub closed spec fn acquire_timeout_spec(self) -> u64 {
        self.pg_acquire_timeout
    }

    /// How long a connection may stay idle, in seconds.
    pub closed spec fn idle_timeout_spec(self) -> u64 {
        self.pg_idle_timeout
    }

    /// How long a connection may live, in seconds.
    pub closed spec fn max_lifetime_spec(self) -> u64 {
        self.pg_max_lifetime
    }

    /// The application name given to PostgreSQL.
    pub closed spec fn appname_text(self) -> Seq<char> {
        self.pg_appname@
    }

    /// The default SRID.
    pub closed spec fn srid_spec_of(self) -> SRID {
        self.default_srid
    }

    /// Return the configured default SRID (EPSG) code to use when
    /// validating geometry coordinates.
    pub fn default_srid(&self) -> (r: &SRID)
        ensures
            *r == self.srid_spec_of(),
    {
        &self.default_srid
    }

    /// Return the configured default CRS code to use when validating
    /// geometry coordinates.
    pub fn default_crs(&self) -> (r: &str)
        ensures
            r@ == self.default_crs_text(),
    {
        self.default_crs.as_str()
    }

    /// Return the configured default to use when generating geometry WKT
    /// w/o a specific precision parameter.
    pub fn default_precision(&self) -> (r: usize)
        ensures
            r == self.precision_spec(),
    {
        self.default_precision
    }

    /// Return the PostgreSQL server URL.
    pub fn pg_url(&self) -> (r: &str)
        ensures
            r@ == self.pg_url_text(),
    {
        self.pg_url.as_str()
    }

    /// Return the largest number of pooled PostgreSQL connections.
    pub fn pg_max_connections(&self) -> (r: u32)
        ensures
            r == self.max_connections_spec(),
    {
        self.pg_max_connections
    }

    /// Return the smallest number of pooled PostgreSQL connections.
    pub fn pg_min_connections(&self) -> (r: u32)
        ensures
            r == self.min_connections_spec(),
    {
        self.pg_min_connections
    }

    /// Return how long to wait for a PostgreSQL connection, in seconds.
    pub fn pg_acquire_timeout(&self) -> (r: u64)
        ensures
            r == self.acquire_timeout_spec(),
    {
        self.pg_acquire_timeout
    }

    /// Return how long a PostgreSQL connection may stay idle, in seconds.
    pub fn pg_idle_timeout(&self) -> (r: u64)
        ensures
            r == self.idle_timeout_spec(),
    {
        self.pg_idle_timeout
    }

    /// Return how long a PostgreSQL connection may live, in seconds.
    pub fn pg_max_lifetime(&self) -> (r: u64)
        ensures
            r == self.max_lifetime_spec(),
    {
        self.pg_max_lifetime
    }

    /// Return the application name given to PostgreSQL.
    pub fn pg_appname(&self) -> (r: &str)
        ensures
            r@ == self.appname_text(),
    {
        self.pg_appname.as_str()
    }
}

} // verus!
