use dependency_scanner::dps_scan::errors::{scan_error_status, ScanErrorKind};
use dependency_scanner::dps_scan::models::DependencyType;
use dependency_scanner::dps_scan::osv::{
    ids_or_none, osv_batch_url, osv_batches, osv_vuln_url, unique_vuln_ids, OSV_BATCH_LIMIT,
};
use dependency_scanner::dps_scan::pipeline::assemble_scan_result;
use dependency_scanner::dps_scan::sbom::{
    classify_dependencies, CdxComponent, CdxDependency, CdxMetadata, CycloneDxBom,
    DependencyTypes,
};
use serde_json::Value;

fn component(bom_ref: Option<&str>, ty: Option<&str>, purl: Option<&str>) -> CdxComponent {
    CdxComponent {
        bom_ref: bom_ref.map(|s| s.to_string()),
        component_type: ty.map(|s| s.to_string()),
        purl: purl.map(|s| s.to_string()),
    }
}

fn dep(r: &str, on: &[&str]) -> CdxDependency {
    CdxDependency {
        reference: r.to_string(),
        depends_on: on.iter().map(|s| s.to_string()).collect(),
    }
}

fn sample_bom() -> CycloneDxBom {
    CycloneDxBom {
        metadata: Some(CdxMetadata {
            component: Some(component(Some("root-ref"), Some("application"), None)),
        }),
        components: vec![
            component(None, Some("library"), Some("pkg:npm/a@1.0.0")),
            component(None, None, Some("pkg:npm/b@2.0.0")),
            component(None, Some("framework"), Some("pkg:npm/c@3.0.0")),
            component(None, Some("library"), Some("pkg:github/actions/checkout@v4")),
            component(None, Some("library"), Some("pkg:pypi/pip@23.0")),
            component(None, Some("library"), Some("pkg:pypi/wheel@0.40")),
            component(None, Some("library"), Some("pkg:pypi/setuptools@68")),
            component(None, Some("library"), None),
            component(None, Some("library"), Some("pkg:pypi/pipx@1.0")),
        ],
        dependencies: vec![
            dep("other", &["pkg:npm/b@2.0.0"]),
            dep("root-ref", &["pkg:npm/a@1.0.0", "pkg:npm/x@9.9.9"]),
            dep("root-ref", &["pkg:npm/b@2.0.0"]),
        ],
    }
}

#[test]
fn classify_lists_libraries_and_marks_direct_ones() {
    let (purls, types) = classify_dependencies(&sample_bom());
    assert_eq!(
        purls,
        vec![
            "pkg:npm/a@1.0.0".to_string(),
            "pkg:npm/b@2.0.0".to_string(),
            "pkg:pypi/pipx@1.0".to_string()
        ]
    );
    assert_eq!(types.get("pkg:npm/a@1.0.0"), Some(DependencyType::Direct));
    assert_eq!(types.get("pkg:npm/x@9.9.9"), Some(DependencyType::Direct));
    assert_eq!(types.get("pkg:npm/b@2.0.0"), Some(DependencyType::Transitive));
    assert_eq!(types.get("pkg:pypi/pipx@1.0"), Some(DependencyType::Transitive));
    assert_eq!(types.get("pkg:npm/c@3.0.0"), None);
    assert!(!types.contains_key("pkg:github/actions/checkout@v4"));
}

#[test]
fn classify_without_root_makes_everything_transitive() {
    let mut bom = sample_bom();
    bom.metadata = None;
    let (purls, types) = classify_dependencies(&bom);
    assert_eq!(purls.len(), 3);
    assert_eq!(types.get("pkg:npm/a@1.0.0"), Some(DependencyType::Transitive));
    assert_eq!(types.get("pkg:npm/x@9.9.9"), None);
}

#[test]
fn dependency_types_map_overwrites() {
    let mut t = DependencyTypes::new();
    assert_eq!(t.get("k"), None);
    t.insert("k".to_string(), DependencyType::Transitive);
    t.insert("k".to_string(), DependencyType::Direct);
    assert_eq!(t.get("k"), Some(DependencyType::Direct));
}

fn ids(v: &[&str]) -> Option<Vec<String>> {
    Some(v.iter().map(|s| s.to_string()).collect())
}

fn record(id: &str) -> (String, Value) {
    (id.to_string(), Value::String(format!("record of {id}")))
}

#[test]
fn assemble_reports_vulnerable_packages_direct_first_then_by_name() {
    let purls: Vec<String> = vec![
        "pkg:npm/zeta@1.0.0".to_string(),
        "pkg:npm/alpha@2.0.0".to_string(),
        "pkg:npm/%40scope/beta@3.0.0".to_string(),
        "pkg:npm/clean@1.0.0".to_string(),
        "pkg:npm/unknown-record@1.0.0".to_string(),
        "pkg:npm/gamma@1.0.0".to_string(),
    ];
    let mut types = DependencyTypes::new();
    types.insert("pkg:npm/zeta@1.0.0".to_string(), DependencyType::Direct);
    types.insert("pkg:npm/alpha@2.0.0".to_string(), DependencyType::Transitive);
    types.insert("pkg:npm/%40scope/beta@3.0.0".to_string(), DependencyType::Direct);
    let vuln_ids = vec![
        ids(&["GHSA-1", "GHSA-2"]),
        ids(&["GHSA-2"]),
        ids(&["GHSA-3", "MISSING"]),
        None,
        ids(&["MISSING"]),
        ids(&["GHSA-1"]),
    ];
    let details = vec![record("GHSA-1"), record("GHSA-2"), record("GHSA-3")];
    let r = assemble_scan_result(&purls, &types, &vuln_ids, &details);
    assert_eq!(r.total_scanned, 6);
    assert_eq!(r.vulnerable_count, 4);
    assert_eq!(r.direct_count, 2);
    assert_eq!(r.transitive_count, 2);
    let names: Vec<&str> = r.findings.iter().map(|f| f.name.as_str()).collect();
    assert_eq!(names, vec!["@scope/beta", "zeta", "alpha", "gamma"]);
    assert_eq!(r.findings[0].version, "3.0.0");
    assert_eq!(r.findings[0].ecosystem, "npm");
    assert_eq!(r.findings[0].purl, "pkg:npm/%40scope/beta@3.0.0");
    assert_eq!(r.findings[0].vulnerabilities, vec![record("GHSA-3").1]);
    assert_eq!(r.findings[1].vulnerabilities, vec![record("GHSA-1").1, record("GHSA-2").1]);
    assert_eq!(r.findings[3].dependency_type, DependencyType::Transitive);
}

#[test]
fn assemble_with_nothing_scanned() {
    let r = assemble_scan_result(&vec![], &DependencyTypes::new(), &vec![], &vec![]);
    assert_eq!(r.total_scanned, 0);
    assert_eq!(r.vulnerable_count, 0);
    assert_eq!(r.direct_count, 0);
    assert_eq!(r.transitive_count, 0);
    assert!(r.findings.is_empty());
}

#[test]
fn assemble_keeps_package_order_among_equal_names() {
    let purls: Vec<String> = vec!["pkg:npm/same@1".to_string(), "pkg:pypi/same@2".to_string()];
    let vuln_ids = vec![ids(&["A"]), ids(&["A"])];
    let r = assemble_scan_result(&purls, &DependencyTypes::new(), &vuln_ids, &vec![record("A")]);
    assert_eq!(r.findings[0].version, "1");
    assert_eq!(r.findings[1].version, "2");
    assert_eq!(r.transitive_count, 2);
}

#[test]
fn osv_batches_cut_at_limit() {
    let purls: Vec<String> = (0..2000).map(|i| format!("pkg:npm/p{i}@1")).collect();
    let batches = osv_batches(&purls);
    assert_eq!(OSV_BATCH_LIMIT, 999);
    assert_eq!(batches.len(), 3);
    assert_eq!(batches[0].len(), 999);
    assert_eq!(batches[1].len(), 999);
    assert_eq!(batches[2].len(), 2);
    let flat: Vec<String> = batches.concat();
    assert_eq!(flat, purls);
    assert!(osv_batches(&vec![]).is_empty());
}

#[test]
fn osv_answers_and_urls() {
    assert_eq!(ids_or_none(vec![]), None);
    assert_eq!(ids_or_none(vec!["X".to_string()]), Some(vec!["X".to_string()]));
    assert_eq!(osv_vuln_url("GHSA-1"), "https://api.osv.dev/v1/vulns/GHSA-1");
    assert_eq!(osv_batch_url(), "https://api.osv.dev/v1/querybatch");
}

#[test]
fn unique_ids_drop_repetitions() {
    let per = vec![ids(&["A", "B"]), None, ids(&["B", "C", "A"]), ids(&[])];
    assert_eq!(
        unique_vuln_ids(&per),
        vec!["A".to_string(), "B".to_string(), "C".to_string()]
    );
}

#[test]
fn scan_error_statuses() {
    assert_eq!(scan_error_status(ScanErrorKind::ZipSource), 502);
    assert_eq!(scan_error_status(ScanErrorKind::PackageFetchError), 502);
    assert_eq!(scan_error_status(ScanErrorKind::Io), 500);
    assert_eq!(scan_error_status(ScanErrorKind::InvalidJson), 500);
    assert_eq!(scan_error_status(ScanErrorKind::Http), 500);
    assert_eq!(scan_error_status(ScanErrorKind::CommandFailed), 500);
    assert_eq!(scan_error_status(ScanErrorKind::JoinError), 500);
}
