//! Dependency scanning: package URLs, SBOM classification and the scan report.
pub mod errors;
pub mod models;
pub mod purl;
pub mod sbom;
pub mod pipeline;
pub mod osv;
