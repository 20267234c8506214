//! Data sources of _Features_ and Resources known to the geospatial
//! ecosystem: CSV files, GeoPackage files and PostGIS tables.

pub mod collation;
pub mod csv;
pub mod filter;
pub mod gpkg;
pub mod pg;
pub mod sql;

use vstd::prelude::*;

verus! {

/// A type that can act as a data source provider of _Features_ and
/// Resources in the context of processing CQL2 filter expressions.
///
/// A CSV file, and a GeoPackage autonomous database file are examples of
/// this.
pub trait DataSource {
    /// The EPSG code of the spatial reference system of the data, if known.
    fn srid(&self) -> Option<u32>;
}

} // verus!
