//! The shapes in which packages are asked for and reported.
use vstd::prelude::*;

use crate::package_service::models::Package;
use crate::sources::PackageSource;

verus! {

/// Which package to fetch (or find in the cache).
pub struct GetPackageSchema {
    pub package_id: String,
    pub version: String,
    pub package_source: PackageSource,
}

/// A package as it is reported to the client.
pub struct PackageResponseSchema {
    pub id: i64,
    pub package_id: String,
    pub version: String,
    pub package_source: PackageSource,
    pub fetch_date: String,
}

impl From<Package> for PackageResponseSchema {
    fn from(e: Package) -> (r: Self) {
        PackageResponseSchema {
            id: match e.id {
                Some(i) => i,
                None => 0,
            },
            package_id: e.package_id,
            version: e.version,
            package_source: e.package_source,
            fetch_date: e.fetch_date,
        }
    }
}

impl vstd::std_specs::convert::FromSpecImpl<Package> for PackageResponseSchema {
    open spec fn obeys_from_spec() -> bool {
        true
    }

    /// The report of a stored package: its id (0 when it has none), id, version,
    /// source and fetch date.
    open spec fn from_spec(e: Package) -> Self {
        PackageResponseSchema {
            id: match e.id {
                Some(i) => i,
                None => 0,
            },
            package_id: e.package_id,
            version: e.version,
            package_source: e.package_source,
            fetch_date: e.fetch_date,
        }
    }
}

} // verus!
