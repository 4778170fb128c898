//! Dependency scanner: the verified core of a service that downloads third-party
//! packages, reads their CycloneDX SBOM and reports the dependencies that OSV lists
//! as vulnerable.
use vstd::prelude::*;

pub mod disk_cache;
pub mod dps_scan;
pub mod keyed;
pub mod package_service;
pub mod sources;
pub mod text;
pub mod zip_source;

verus! {
} // verus!
