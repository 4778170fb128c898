//! A row of the packages table.
use vstd::prelude::*;

use crate::sources::PackageSource;

verus! {

/// A fetched package as the database stores it.
pub struct Package {
    pub id: Option<i64>,
    pub cache_path: String,
    pub package_id: String,
    pub version: String,
    pub package_source: PackageSource,
    pub fetch_date: String,
    pub size_bytes: i64,
}

} // verus!
