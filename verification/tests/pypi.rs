use dependency_scanner::zip_source::pypi::{FileType, PyPiMetadata, PyPiUrl};

fn url(packagetype: &str, url: &str, filename: &str) -> PyPiUrl {
    PyPiUrl {
        packagetype: packagetype.to_string(),
        url: url.to_string(),
        filename: filename.to_string(),
    }
}

#[test]
fn file_type_detects_whl_extension() {
    assert!(matches!(FileType::file_type("torch.2.2.0.whl"), FileType::Wheel));
    assert!(matches!(FileType::file_type("torch.2.2.0.tar.gz"), FileType::TarGz));
}

#[test]
fn best_source_prefers_wheel_over_sdist() {
    let metadata = PyPiMetadata {
        urls: vec![
            url(
                "bdist_wheel",
                "https://example.com/torch-2.2.0-cp311-cp311-linux_x86_64.whl",
                "torch-2.2.0-cp311-cp311-linux_x86_64.whl",
            ),
            url("sdist", "https://example.com/torch-2.2.0.tar.gz", "torch-2.2.0.tar.gz"),
        ],
    };

    let (url, file_type) = metadata.best_source().expect("should find a source");
    assert_eq!(url, "https://example.com/torch-2.2.0-cp311-cp311-linux_x86_64.whl");
    assert!(matches!(file_type, FileType::Wheel));
}

#[test]
fn best_source_prefers_pure_python_wheel() {
    let metadata = PyPiMetadata {
        urls: vec![
            url(
                "bdist_wheel",
                "https://example.com/requests-2.31.0-cp311-cp311-linux_x86_64.whl",
                "requests-2.31.0-cp311-cp311-linux_x86_64.whl",
            ),
            url(
                "bdist_wheel",
                "https://example.com/requests-2.31.0-py3-none-any.whl",
                "requests-2.31.0-py3-none-any.whl",
            ),
        ],
    };

    let (url, _) = metadata.best_source().expect("should find a source");
    assert_eq!(url, "https://example.com/requests-2.31.0-py3-none-any.whl");
}

#[test]
fn best_source_falls_back_to_sdist() {
    let metadata = PyPiMetadata {
        urls: vec![url("sdist", "https://example.com/somelib-1.0.tar.gz", "somelib-1.0.tar.gz")],
    };

    let (url, file_type) = metadata.best_source().expect("should find a source");
    assert_eq!(url, "https://example.com/somelib-1.0.tar.gz");
    assert!(matches!(file_type, FileType::TarGz));
}

#[test]
fn best_source_none_without_wheel_or_sdist() {
    let metadata = PyPiMetadata {
        urls: vec![url("bdist_egg", "https://example.com/x.egg", "x.egg")],
    };
    assert!(metadata.best_source().is_none());
    assert!(metadata.sdist_url().is_none());
    assert!(metadata.wheel_url().is_none());
    let empty = PyPiMetadata { urls: vec![] };
    assert!(empty.best_source().is_none());
}

#[test]
fn sdist_url_takes_the_first_sdist() {
    let metadata = PyPiMetadata {
        urls: vec![
            url("bdist_wheel", "https://example.com/a.whl", "a-py3-none-any.whl"),
            url("sdist", "https://example.com/first.tar.gz", "first.tar.gz"),
            url("sdist", "https://example.com/second.tar.gz", "second.tar.gz"),
        ],
    };
    assert_eq!(metadata.sdist_url(), Some("https://example.com/first.tar.gz"));
    assert_eq!(metadata.wheel_url(), Some("https://example.com/a.whl"));
}

#[test]
fn wheel_url_falls_back_to_first_platform_wheel() {
    let metadata = PyPiMetadata {
        urls: vec![
            url("sdist", "https://example.com/s.tar.gz", "s.tar.gz"),
            url("bdist_wheel", "https://example.com/linux.whl", "x-cp311-linux.whl"),
            url("bdist_wheel", "https://example.com/mac.whl", "x-cp311-macos.whl"),
        ],
    };
    assert_eq!(metadata.wheel_url(), Some("https://example.com/linux.whl"));
}

#[test]
fn file_type_and_extension() {
    assert_eq!(FileType::Wheel.file_extension(), "whl");
    assert_eq!(FileType::TarGz.file_extension(), "tar.gz");
    assert!(matches!(FileType::file_type("/tmp/x/pkg.1.0.whl"), FileType::Wheel));
    assert!(matches!(FileType::file_type("/tmp/x/pkg.1.0.whl/"), FileType::Wheel));
    assert!(matches!(FileType::file_type(".whl"), FileType::TarGz));
    assert!(matches!(FileType::file_type("pkg.WHL"), FileType::TarGz));
    assert!(matches!(FileType::file_type("whl"), FileType::TarGz));
}

#[test]
fn saved_release_file_reads_back_as_its_type() {
    for t in [FileType::Wheel, FileType::TarGz] {
        let name = format!("torch.2.2.0.{}", t.file_extension());
        assert_eq!(FileType::file_type(&name), t);
        let under_dir = format!("/tmp/x/{name}");
        assert_eq!(FileType::file_type(&under_dir), t);
    }
}
