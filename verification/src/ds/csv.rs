//! Geospatial data stored in CSV files.

use crate::ds::DataSource;
use vstd::prelude::*;

verus! {

/// [`DataSource`] of _Features_ and Resources mapped from CSV rows/records.
#[derive(Debug)]
pub struct CSVDataSource {
    path: String,
}

impl DataSource for CSVDataSource {
    /// CSV files carry no spatial reference system.
    fn srid(&self) -> (r: Option<u32>)
        ensures
            r is None,
    {
        None
    }
}

impl CSVDataSource {
    /// The file system location of the CSV file.
    pub closed spec fn location(self) -> Seq<char> {
        self.path@
    }

    /// Constructor given the file system location of an accessible CSV file.
    pub fn from(s: &str) -> (r: Self)
        ensures
            r.location() == s@,
    {
        CSVDataSource { path: s.to_string() }
    }

    /// Return this CSV data source path.
    pub fn path(&self) -> (r: &str)
        ensures
            r@ == self.location(),
    {
        self.path.as_str()
    }
}

} // verus!
