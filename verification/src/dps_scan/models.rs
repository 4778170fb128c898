//! The scan request and the report sent back to the client.
use vstd::prelude::*;

use crate::sources::PackageSource;

verus! {

/// A JSON document, carried through the library as it came from OSV.
#[verifier::external_type_specification]
#[verifier::external_body]
pub struct ExJsonValue(serde_json::Value);

/// Copies a JSON document.
///
/// Trusted: calls `<serde_json::Value as Clone>::clone`, which serde_json derives;
/// the copy is the same document.
#[verifier::external_body]
pub(crate) fn clone_json(v: &serde_json::Value) -> (r: serde_json::Value)
    ensures
        r == *v,
{
    v.clone()
}

/// What a client asks to scan.
pub struct DpsScanRequest {
    pub package_id: String,
    pub package_version: String,
    pub source: PackageSource,
}

/// Whether the scanned package names a dependency itself or pulls it in through
/// another one.
#[derive(Debug, Clone, Copy, PartialEq, Eq, Structural)]
pub enum DependencyType {
    Direct,
    Transitive,
}

/// One dependency that has at least one vulnerability.
pub struct DependencyFinding {
    pub purl: String,
    pub name: String,
    pub version: String,
    pub ecosystem: String,
    pub dependency_type: DependencyType,
    /// Full OSV vulnerability objects.
    pub vulnerabilities: Vec<serde_json::Value>,
}

/// The report returned to the client.
pub struct DpsScanResult {
    pub total_scanned: usize,
    pub vulnerable_count: usize,
    pub direct_count: usize,
    pub transitive_count: usize,
    pub findings: Vec<DependencyFinding>,
}

} // verus!
