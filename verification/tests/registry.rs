use dependency_scanner::zip_source::error::ZipSourceError;
use dependency_scanner::zip_source::registry::{
    alternate_tag, download_file_name, github_archive_name, github_zipball_url,
    normalize_coordinate, npm_tarball_url, nuget_package_url, package_not_found,
    pypi_metadata_url, sdist_dir_name, should_retry_tag, trim_str,
};
use dependency_scanner::zip_source::tools::{
    cdxgen_outcome, csproj_content, first_framework_step, frameworks, next_framework_step,
    python_markers, restore_outcome, step_failed, FrameworkStep, RestoreOutcome, FRAMEWORK_COUNT,
};

#[test]
fn coordinates_are_trimmed_and_lowercased() {
    assert_eq!(normalize_coordinate("  Newtonsoft.Json\t\n"), "newtonsoft.json");
    assert_eq!(normalize_coordinate("\u{3000}Ab\u{a0}"), "ab");
    assert_eq!(trim_str("  v1.2 "), "v1.2");
}

#[test]
fn registry_urls() {
    assert_eq!(
        npm_tarball_url("lodash", "4.17.21"),
        "https://registry.npmjs.org/lodash/-/lodash-4.17.21.tgz"
    );
    assert_eq!(
        nuget_package_url("newtonsoft.json", "13.0.3"),
        "https://api.nuget.org/v3-flatcontainer/newtonsoft.json/13.0.3/newtonsoft.json.13.0.3.nupkg"
    );
    assert_eq!(pypi_metadata_url("torch", "2.2.0"), "https://pypi.org/pypi/torch/2.2.0/json");
    assert_eq!(github_zipball_url("o/r", ""), "https://api.github.com/repos/o/r/zipball");
    assert_eq!(github_zipball_url("o/r", "v1"), "https://api.github.com/repos/o/r/zipball/v1");
}

#[test]
fn local_file_names() {
    assert_eq!(download_file_name("torch", "2.2.0", "whl"), "torch.2.2.0.whl");
    assert_eq!(sdist_dir_name("somelib", "1.0"), "somelib-1.0");
    assert_eq!(github_archive_name("owner/repo", "v1.0"), "owner_repo-v1.0.zip");
}

#[test]
fn github_tag_retry() {
    assert!(should_retry_tag(404, "1.0"));
    assert!(!should_retry_tag(404, ""));
    assert!(!should_retry_tag(500, "1.0"));
    assert_eq!(alternate_tag("v1.2.3"), "1.2.3");
    assert_eq!(alternate_tag("vv2"), "2");
    assert_eq!(alternate_tag("1.2.3"), "v1.2.3");
}

#[test]
fn not_found_message() {
    match package_not_found("NPM", "404 Not Found", "Left-Pad", "1.0") {
        ZipSourceError::PackageNotFound(m) => assert_eq!(
            m,
            "NPM returned HTTP 404 Not Found: package 'Left-Pad' version '1.0' not found"
        ),
        other => panic!("unexpected {other:?}"),
    }
}

#[test]
fn csproj_for_restore() {
    let expected = format!(
        r#"<Project Sdk="Microsoft.NET.Sdk">
        <PropertyGroup>
            <TargetFramework>{tfm}</TargetFramework>
            <Nullable>enable</Nullable>
        </PropertyGroup>
        <ItemGroup>
            <PackageReference Include="{package_id}" Version="{version}" />
        </ItemGroup>
        </Project>
        "#,
        tfm = "net8.0",
        package_id = "newtonsoft.json",
        version = "13.0.3"
    );
    assert_eq!(csproj_content("newtonsoft.json", "13.0.3", "net8.0"), expected);
    assert_eq!(
        frameworks(),
        vec!["net8.0", "net8.0-android", "net6.0", "netstandard2.1", "netstandard2.0"]
    );
    assert_eq!(python_markers(), vec!["setup.py", "pyproject.toml"]);
}

#[test]
fn restore_outcomes() {
    assert_eq!(restore_outcome(true, Some(0), "", "").unwrap(), RestoreOutcome::Restored);
    assert_eq!(
        restore_outcome(false, Some(1), "Restored /p/project.csproj", "error NETSDK1202: EOL").unwrap(),
        RestoreOutcome::Restored
    );
    assert_eq!(
        restore_outcome(false, Some(1), "", "error NU1202: not compatible").unwrap(),
        RestoreOutcome::Skip
    );
    assert_eq!(
        restore_outcome(false, Some(1), "NETSDK1147 workload", "").unwrap(),
        RestoreOutcome::Skip
    );
    match restore_outcome(false, Some(-3), "  out ", "\nbad\n") {
        Err(ZipSourceError::CommandFailed(m)) => {
            assert_eq!(m, "dotnet restore failed (exit -3):\nstdout: out\nstderr: bad")
        }
        other => panic!("unexpected {other:?}"),
    }
    match restore_outcome(false, None, "", "") {
        Err(ZipSourceError::CommandFailed(m)) => {
            assert_eq!(m, "dotnet restore failed (exit -1):\nstdout: \nstderr: ")
        }
        other => panic!("unexpected {other:?}"),
    }
}

#[test]
fn cdxgen_outcomes() {
    assert!(cdxgen_outcome(true, Some(0), "", true, false).is_ok());
    match cdxgen_outcome(false, Some(2147483647), " oops ", true, false) {
        Err(ZipSourceError::CommandFailed(m)) => assert_eq!(m, "cdxgen failed (exit 2147483647): oops"),
        other => panic!("unexpected {other:?}"),
    }
    match cdxgen_outcome(false, Some(i32::MIN), "", true, true) {
        Err(ZipSourceError::CommandFailed(m)) => assert_eq!(m, "cdxgen failed (exit -2147483648): "),
        other => panic!("unexpected {other:?}"),
    }
    match cdxgen_outcome(true, Some(0), "", false, false) {
        Err(ZipSourceError::CommandFailed(m)) => assert_eq!(m, "cdxgen did not produce an output file"),
        other => panic!("unexpected {other:?}"),
    }
    match cdxgen_outcome(true, Some(0), "", false, true) {
        Err(ZipSourceError::CommandFailed(m)) => assert_eq!(m, "cdxgen did not produce cdx.json"),
        other => panic!("unexpected {other:?}"),
    }
    match step_failed("pip install", "  no such file \n") {
        ZipSourceError::CommandFailed(m) => assert_eq!(m, "pip install failed: no such file"),
        other => panic!("unexpected {other:?}"),
    }
}

/// Runs the framework search with the given restore outcomes.
fn search(outcomes: &[RestoreOutcome]) -> FrameworkStep {
    let mut step = first_framework_step();
    loop {
        match step {
            FrameworkStep::Restore(i) => step = next_framework_step(i, outcomes[i]),
            other => return other,
        }
    }
}

#[test]
fn framework_search_stops_at_first_restored() {
    let (r, k) = (RestoreOutcome::Restored, RestoreOutcome::Skip);
    assert_eq!(frameworks().len(), FRAMEWORK_COUNT);
    assert_eq!(search(&[k, k, r, r, k]), FrameworkStep::Sbom(2));
    assert_eq!(search(&[r, k, k, k, k]), FrameworkStep::Sbom(0));
    assert_eq!(search(&[k, k, k, k, r]), FrameworkStep::Sbom(4));
    assert_eq!(search(&[k, k, k, k, k]), FrameworkStep::Done);
}

#[test]
fn framework_step_moves_on_after_unavailable() {
    assert_eq!(first_framework_step(), FrameworkStep::Restore(0));
    assert_eq!(next_framework_step(1, RestoreOutcome::Skip), FrameworkStep::Restore(2));
    assert_eq!(next_framework_step(3, RestoreOutcome::Restored), FrameworkStep::Sbom(3));
    assert_eq!(next_framework_step(4, RestoreOutcome::Skip), FrameworkStep::Done);
}
