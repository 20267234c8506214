//! Geospatial data stored in GeoPackage database files.
//!
//! Opening a GeoPackage alternates queries to the database with decisions
//! on what they return. The decisions are made here, one step at a time:
//! [GPkgOpening::step] takes what the last query gave and says what to do
//! next, until the data source is made or the file is refused.

use crate::ds::filter::{same_result, sql_of, sql_ok, sql_text, Dialect, SqlRender};
use crate::ds::DataSource;
use crate::expr::E;
use crate::error::MyError;
use crate::numeric::{i128_text, signed_decimal};
use crate::qstring::QString;
use vstd::prelude::*;

verus! {

/// The `application_id` of GeoPackage SQLite files: `0x47504B47` ("GPKG").
pub const GPKG_APPLICATION_ID: i32 = 0x47504B47;

/// The name of the SQLite collation for the case (1), accent (2) or case
/// and accent (3) insensitive comparison of strings.
pub open spec fn collation(flags: u8) -> Seq<char> {
    if flags == 1 {
        "CQL2_CI"@
    } else if flags == 2 {
        "CQL2_AI"@
    } else {
        "CQL2_CI_AI"@
    }
}

/// A string in SQLite: its text in single quotes, followed by the
/// collation its flags call for.
pub open spec fn string_sql(qs: QString) -> Seq<char> {
    "'"@ + qs.text() + "'"@ + (if qs.flag_bits() == 0 {
        ""@
    } else {
        " COLLATE "@ + collation(qs.flag_bits())
    })
}

/// Generate a string that can be used in composing an SQL WHERE clause:
/// the text in single quotes, followed by the collation its flags call for.
pub fn qstr_to_sql(qs: QString) -> (r: Result<String, MyError>)
    ensures
        r matches Ok(s) && s@ == string_sql(qs),
{
    let flags = qs.flags();
    proof {
        reveal_strlit("");
        reveal_strlit(" COLLATE ");
        reveal_strlit("CQL2_CI");
        reveal_strlit("CQL2_AI");
        reveal_strlit("CQL2_CI_AI");
        reveal_strlit(" COLLATE CQL2_CI");
        reveal_strlit(" COLLATE CQL2_AI");
        reveal_strlit(" COLLATE CQL2_CI_AI");
    }
    let mut r = "'".to_string();
    r.append(qs.inner());
    r.append("'");
    if flags == 1 {
        r.append(" COLLATE CQL2_CI");
    } else if flags == 2 {
        r.append(" COLLATE CQL2_AI");
    } else if flags == 3 {
        r.append(" COLLATE CQL2_CI_AI");
    }
    Ok(r)
}

/// _GeoPackage_ [`DataSource`] binding a `.gpkg` database file + a layer
/// name that maps rows to _Features_ and Resources. The connection pool is
/// held by the code that opened the file.
#[derive(Debug)]
pub struct GPkgDataSource {
    layer: String,
    srid: Option<u32>,
}

impl DataSource for GPkgDataSource {
    /// The EPSG code of the layer's spatial reference system; none when the
    /// layer uses an undefined one.
    fn srid(&self) -> (r: Option<u32>)
        ensures
            r == self.srid_spec(),
    {
        self.srid
    }
}

impl GPkgDataSource {
    /// Transform a (reduced) filter expression into an SQL _WHERE_ clause
    /// that selects the matching rows of this layer's virtual table, with
    /// `precision` the number of decimals kept when a spatial relation is
    /// decided on geometries of reduced precision.
    pub fn to_sql_impl<R: SqlRender>(&self, exp: E, render: &R, precision: usize) -> (r: Result<
        String,
        MyError,
    >)
        requires
            sql_ok(exp),
        ensures
            same_result(r, sql_of(Dialect::GeoPackage, render, precision as nat, exp)),
    {
        sql_text(Dialect::GeoPackage, &exp, render, precision)
    }

    /// The layer name.
    pub closed spec fn layer_name(self) -> Seq<char> {
        self.layer@
    }

    /// The EPSG code of the layer's spatial reference system, if defined.
    pub closed spec fn srid_spec(self) -> Option<u32> {
        self.srid
    }

    /// Return the layer name.
    pub fn layer(&self) -> (r: &str)
        ensures
            r@ == self.layer_name(),
    {
        self.layer.as_str()
    }

    /// Return name of the virtual table created for querying this
    /// GeoPackage table: "vgpkg_" and the layer name, the way `spatialite`
    /// names those of GeoPackage files.
    pub fn vtable(&self) -> (r: String)
        ensures
            r@ == "vgpkg_"@ + self.layer_name(),
    {
        let mut r = "vgpkg_".to_string();
        r.append(self.layer.as_str());
        r
    }
}

/// The statement that creates the virtual table of a layer with
/// `spatialite`'s _VirtualGPKG_ module.
pub open spec fn virtual_table_sql(layer: Seq<char>) -> Seq<char> {
    "CREATE VIRTUAL TABLE IF NOT EXISTS \"vgpkg_"@ + layer + "\" USING VirtualGPKG(\""@ + layer
        + "\");"@
}

/// The code of a character with ASCII upper-case letters lowered.
pub open spec fn ascii_lower(c: char) -> u32 {
    if 'A' <= c && c <= 'Z' {
        (c as u32 + 32) as u32
    } else {
        c as u32
    }
}

/// `str::eq_ignore_ascii_case`: the same characters up to the case of ASCII
/// letters.
pub open spec fn eq_ascii_ci(a: Seq<char>, b: Seq<char>) -> bool {
    a.len() == b.len() && forall|i: int| 0 <= i < a.len() ==> ascii_lower(a[i]) == ascii_lower(b[i])
}

fn lower_code(c: char) -> (r: u32)
    ensures
        r == ascii_lower(c),
{
    if 'A' <= c && c <= 'Z' {
        c as u32 + 32
    } else {
        c as u32
    }
}

/// Whether two strings are equal ignoring the case of ASCII letters.
pub fn eq_ignore_ascii_case(a: &str, b: &str) -> (r: bool)
    ensures
        r == eq_ascii_ci(a@, b@),
{
    let x = crate::unicode::chars_of(a);
    let y = crate::unicode::chars_of(b);
    if x.len() != y.len() {
        return false;
    }
    let mut i: usize = 0;
    while i < x.len()
        invariant
            i <= x.len(),
            x.len() == y.len(),
            x@ == a@,
            y@ == b@,
            forall|k: int| 0 <= k < i ==> ascii_lower(x@[k]) == ascii_lower(y@[k]),
        decreases x.len() - i,
    {
        if lower_code(x[i]) != lower_code(y[i]) {
            return false;
        }
        i = i + 1;
    }
    true
}

/// The stage an opening has reached: which answer it waits for.
#[derive(Debug, Clone, Copy, PartialEq, Eq, Structural)]
pub enum GPkgStage {
    /// The `application_id` of the file.
    ApplicationId,
    /// The result of `PRAGMA integrity_check`.
    Integrity,
    /// The rows of `PRAGMA foreign_key_check`.
    ForeignKeys,
    /// The layer's row in `gpkg_contents`.
    Layer,
    /// The creation of the virtual table.
    VirtualTable,
    /// The layer's row in `gpkg_spatial_ref_sys`.
    Srs,
    /// Whether PROJ can build the layer's CRS.
    Crs,
    /// Nothing: the opening is over.
    Over,
}

/// What to do next when opening a GeoPackage.
#[derive(Debug)]
pub enum GPkgAction {
    /// Read `PRAGMA application_id`.
    ReadApplicationId,
    /// Run `PRAGMA integrity_check` and read its first row.
    CheckIntegrity,
    /// Run `PRAGMA foreign_key_check` and count its rows.
    CheckForeignKeys,
    /// Find the layer's row in `gpkg_contents`.
    FindLayer(String),
    /// Execute this statement.
    Execute(String),
    /// Find the row of this `srs_id` in `gpkg_spatial_ref_sys`.
    FindSrs(i32),
    /// Build this CRS with PROJ.
    CheckCrs(String),
    /// The data source is open.
    Done(GPkgDataSource),
    /// The file is refused.
    Failed(MyError),
}

/// What the database (or PROJ) answered.
#[derive(Debug)]
pub enum GPkgEvent {
    /// The `application_id` of the file.
    ApplicationId(i32),
    /// The first row of `PRAGMA integrity_check`.
    Integrity(String),
    /// The number of rows of `PRAGMA foreign_key_check`.
    ForeignKeyViolations(usize),
    /// The `data_type` and `srs_id` of the layer's `gpkg_contents` row.
    Layer(String, Option<i32>),
    /// The statement was executed.
    Executed,
    /// The `organization` and `organization_coordsys_id` of the layer's
    /// `gpkg_spatial_ref_sys` row.
    Srs(String, i32),
    /// The outcome of building the layer's CRS with PROJ.
    Crs(Result<(), MyError>),
}

/// The answer each stage waits for.
pub open spec fn awaits(stage: GPkgStage, e: GPkgEvent) -> bool {
    match stage {
        GPkgStage::ApplicationId => e is ApplicationId,
        GPkgStage::Integrity => e is Integrity,
        GPkgStage::ForeignKeys => e is ForeignKeyViolations,
        GPkgStage::Layer => e is Layer,
        GPkgStage::VirtualTable => e is Executed,
        GPkgStage::Srs => e is Srs,
        GPkgStage::Crs => e is Crs,
        GPkgStage::Over => false,
    }
}

/// The `srs_id` of a layer that must be looked up: none (`0`) for a layer
/// without one, or with one of the undefined systems `-1` and `0`.
pub open spec fn defined_srs(srs: Option<i32>) -> i32 {
    match srs {
        Some(x) => if x != -1 && x != 0 {
            x
        } else {
            0
        },
        None => 0,
    }
}

/// The text of the runtime error of a refused file.
pub open spec fn refused_with(a: GPkgAction, m: Seq<char>) -> bool {
    a matches GPkgAction::Failed(MyError::Runtime(t)) && t@ == m
}

/// The opening of a GeoPackage layer, one answer at a time.
#[derive(Debug)]
pub struct GPkgOpening {
    layer: String,
    stage: GPkgStage,
    srs_id: i32,
    coordsys_id: i32,
}

impl GPkgOpening {
    /// The layer being opened.
    pub closed spec fn layer_name(self) -> Seq<char> {
        self.layer@
    }

    /// The stage reached.
    pub closed spec fn stage(self) -> GPkgStage {
        self.stage
    }

    /// The `srs_id` of the layer, once known.
    pub closed spec fn srs_id(self) -> i32 {
        self.srs_id
    }

    /// The `organization_coordsys_id` of the layer's SRS, once known.
    pub closed spec fn coordsys_id(self) -> i32 {
        self.coordsys_id
    }

    /// Start opening the layer `layer_name`: first read the file's
    /// `application_id`.
    pub fn new(layer_name: &str) -> (r: (GPkgOpening, GPkgAction))
        ensures
            r.0.layer_name() == layer_name@,
            r.0.stage() == GPkgStage::ApplicationId,
            r.1 is ReadApplicationId,
    {
        (
            GPkgOpening {
                layer: layer_name.to_string(),
                stage: GPkgStage::ApplicationId,
                srs_id: 0,
                coordsys_id: 0,
            },
            GPkgAction::ReadApplicationId,
        )
    }

    /// Take the answer the current stage waits for, and say what to do
    /// next:
    /// - the `application_id` must be [GPKG_APPLICATION_ID]; then check
    ///   integrity;
    /// - the integrity check must answer `ok`; then check foreign keys;
    /// - there must be no foreign key violation; then find the layer;
    /// - the layer must hold `features`; then create its virtual table;
    /// - once it is created, a layer without `srs_id`, or with `-1` or `0`
    ///   (the undefined cartesian and geographic systems), is open without
    ///   SRID; another `srs_id` is looked up;
    /// - its authority must be `EPSG` (ignoring ASCII case); then PROJ must
    ///   build `{authority}:{srs_id}`;
    /// - if it does, the layer is open with `organization_coordsys_id` as
    ///   its SRID, which must not be negative.
    pub fn step(&mut self, event: GPkgEvent) -> (r: GPkgAction)
        requires
            awaits(old(self).stage(), event),
        ensures
            final(self).layer_name() == old(self).layer_name(),
            r is Done || r is Failed <==> final(self).stage() == GPkgStage::Over,
            r matches GPkgAction::Done(ds) ==> ds.layer_name() == old(self).layer_name(),
            event matches GPkgEvent::ApplicationId(id) ==> if id == GPKG_APPLICATION_ID {
                r is CheckIntegrity && final(self).stage() == GPkgStage::Integrity
            } else {
                refused_with(r, "Unexpected application_id"@)
            },
            event matches GPkgEvent::Integrity(s) ==> if s@ == "ok"@ {
                r is CheckForeignKeys && final(self).stage() == GPkgStage::ForeignKeys
            } else {
                refused_with(r, "Failed integrity_check"@)
            },
            event matches GPkgEvent::ForeignKeyViolations(n) ==> if n == 0 {
                r matches GPkgAction::FindLayer(l) && l@ == old(self).layer_name()
                    && final(self).stage() == GPkgStage::Layer
            } else {
                refused_with(r, "Found invalid FK value(s)"@)
            },
            event matches GPkgEvent::Layer(t, srs) ==> if t@ == "features"@ {
                &&& r matches GPkgAction::Execute(sql) && sql@ == virtual_table_sql(
                    old(self).layer_name(),
                )
                &&& final(self).stage() == GPkgStage::VirtualTable
                &&& final(self).srs_id() == defined_srs(srs)
            } else {
                refused_with(r, "Layer is NOT vector-based"@)
            },
            event is Executed ==> if old(self).srs_id() == 0 {
                r matches GPkgAction::Done(ds) && ds.srid_spec() is None
            } else {
                r == GPkgAction::FindSrs(old(self).srs_id()) && final(self).stage() == GPkgStage::Srs
            },
            event matches GPkgEvent::Srs(org, id) ==> if eq_ascii_ci(org@, "EPSG"@) {
                &&& r matches GPkgAction::CheckCrs(c) && c@ == org@ + ":"@ + signed_decimal(
                    old(self).srs_id() as int,
                )
                &&& final(self).stage() == GPkgStage::Crs
                &&& final(self).coordsys_id() == id
            } else {
                refused_with(r, "Unexpected ("@ + org@ + ") Authority"@)
            },
            event matches GPkgEvent::Crs(check) ==> match check {
                Err(e) => r == GPkgAction::Failed(e),
                Ok(()) => if old(self).coordsys_id() >= 0 {
                    r matches GPkgAction::Done(ds) && ds.srid_spec() == Some(
                        old(self).coordsys_id() as u32,
                    )
                } else {
                    r matches GPkgAction::Failed(MyError::Conv)
                },
            },
    {
        match event {
            GPkgEvent::ApplicationId(id) => {
                if id == GPKG_APPLICATION_ID {
                    self.stage = GPkgStage::Integrity;
                    GPkgAction::CheckIntegrity
                } else {
                    self.refuse("Unexpected application_id".to_string())
                }
            },
            GPkgEvent::Integrity(s) => {
                if crate::json::str_eq(s.as_str(), "ok") {
                    self.stage = GPkgStage::ForeignKeys;
                    GPkgAction::CheckForeignKeys
                } else {
                    self.refuse("Failed integrity_check".to_string())
                }
            },
            GPkgEvent::ForeignKeyViolations(n) => {
                if n == 0 {
                    self.stage = GPkgStage::Layer;
                    GPkgAction::FindLayer(self.layer.clone())
                } else {
                    self.refuse("Found invalid FK value(s)".to_string())
                }
            },
            GPkgEvent::Layer(t, srs) => {
                if crate::json::str_eq(t.as_str(), "features") {
                    self.srs_id = match srs {
                        Some(x) => if x != -1 && x != 0 {
                            x
                        } else {
                            0
                        },
                        None => 0,
                    };
                    self.stage = GPkgStage::VirtualTable;
                    let mut sql = "CREATE VIRTUAL TABLE IF NOT EXISTS \"vgpkg_".to_string();
                    sql.append(self.layer.as_str());
                    sql.append("\" USING VirtualGPKG(\"");
                    sql.append(self.layer.as_str());
                    sql.append("\");");
                    GPkgAction::Execute(sql)
                } else {
                    self.refuse("Layer is NOT vector-based".to_string())
                }
            },
            GPkgEvent::Executed => {
                if self.srs_id == 0 {
                    self.stage = GPkgStage::Over;
                    GPkgAction::Done(GPkgDataSource { layer: self.layer.clone(), srid: None })
                } else {
                    self.stage = GPkgStage::Srs;
                    GPkgAction::FindSrs(self.srs_id)
                }
            },
            GPkgEvent::Srs(org, id) => {
                if eq_ignore_ascii_case(org.as_str(), "EPSG") {
                    self.coordsys_id = id;
                    self.stage = GPkgStage::Crs;
                    let mut code = org.clone();
                    code.append(":");
                    let digits = i128_text(self.srs_id as i128);
                    code.append(digits.as_str());
                    GPkgAction::CheckCrs(code)
                } else {
                    let mut m = "Unexpected (".to_string();
                    m.append(org.as_str());
                    m.append(") Authority");
                    self.refuse(m)
                }
            },
            GPkgEvent::Crs(check) => {
                self.stage = GPkgStage::Over;
                match check {
                    Err(e) => GPkgAction::Failed(e),
                    Ok(()) => {
                        if self.coordsys_id >= 0 {
                            GPkgAction::Done(
                                GPkgDataSource {
                                    layer: self.layer.clone(),
                                    srid: Some(self.coordsys_id as u32),
                                },
                            )
                        } else {
                            GPkgAction::Failed(MyError::Conv)
                        }
                    },
                }
            },
        }
    }

    fn refuse(&mut self, m: String) -> (r: GPkgAction)
        ensures
            final(self).layer_name() == old(self).layer_name(),
            final(self).stage() == GPkgStage::Over,
            refused_with(r, m@),
    {
        self.stage = GPkgStage::Over;
        GPkgAction::Failed(MyError::Runtime(m))
    }
}

} // verus!
