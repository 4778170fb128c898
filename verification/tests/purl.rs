use dependency_scanner::dps_scan::purl::parse_purl;

fn parts(p: &str) -> (String, String, String) {
    parse_purl(p)
}

#[test]
fn parse_purl_decodes_scoped_npm_name() {
    assert_eq!(
        parts("pkg:npm/%40angular/core@15.0.0"),
        ("@angular/core".to_string(), "15.0.0".to_string(), "npm".to_string())
    );
}

#[test]
fn parse_purl_drops_qualifiers_and_subpath() {
    assert_eq!(
        parts("pkg:maven/org.apache/commons-lang3@3.12.0?type=jar#src"),
        ("org.apache/commons-lang3".to_string(), "3.12.0".to_string(), "maven".to_string())
    );
    assert_eq!(
        parts("pkg:pypi/requests@2.31.0#sub"),
        ("requests".to_string(), "2.31.0".to_string(), "pypi".to_string())
    );
}

#[test]
fn parse_purl_without_version_or_scheme() {
    assert_eq!(
        parts("pkg:nuget/Newtonsoft.Json"),
        ("Newtonsoft.Json".to_string(), String::new(), "nuget".to_string())
    );
    assert_eq!(
        parts("npm/lodash@4.17.21"),
        ("lodash".to_string(), "4.17.21".to_string(), "npm".to_string())
    );
    assert_eq!(
        parts("lodash@1"),
        ("lodash".to_string(), "1".to_string(), "unknown".to_string())
    );
}

#[test]
fn parse_purl_uses_last_at_and_decodes_slash() {
    assert_eq!(
        parts("pkg:golang/github.com%2Fgin-gonic%2Fgin@v1@9"),
        ("github.com/gin-gonic/gin@v1".to_string(), "9".to_string(), "golang".to_string())
    );
    assert_eq!(parts(""), (String::new(), String::new(), "unknown".to_string()));
}

#[test]
fn purl_written_from_parts_reads_back() {
    for (eco, name, ver) in [
        ("npm", "@angular/core", "15.0.0"),
        ("maven", "org.apache/commons-lang3", "3.12.0"),
        ("pypi", "requests", ""),
        ("nuget", "Newtonsoft.Json", "13.0.1"),
    ] {
        let purl = format!("pkg:{eco}/{name}@{ver}");
        let (n, v, e) = parse_purl(&purl);
        assert_eq!((n.as_str(), v.as_str(), e.as_str()), (name, ver, eco));
    }
}
