use dependency_scanner::zip_source::decompiler::{
    aar_inner_output, decompile_step, run_result, DecompileStep, RunStatus,
};
use dependency_scanner::zip_source::error::ZipSourceError;
use dependency_scanner::zip_source::file_extractors::{
    path_traversal, should_skip, tar_path_verdict, zip_entry_path, EntryAction, ExtractionBudget,
    PathVerdict,
    MAX_FILE_COUNT, MAX_UNCOMPRESSED_SIZE,
};
use dependency_scanner::zip_source::paths::{extension, file_stem, join_path};

#[test]
fn skip_dirs_are_whole_components() {
    assert!(should_skip(".git"));
    assert!(should_skip("repo/.git/config"));
    assert!(should_skip("a/b/.svn"));
    assert!(!should_skip("repo/.github/workflows"));
    assert!(!should_skip("x.git/y"));
    assert!(!should_skip(""));
}

#[test]
fn zip_entries_are_normalised_and_checked() {
    let (p, v) = zip_entry_path("\\\\dir\\file.txt");
    assert_eq!(p, "dir/file.txt");
    assert_eq!(v, PathVerdict::Keep);
    let (p, v) = zip_entry_path("/a/../../etc/passwd");
    assert_eq!(p, "a/../../etc/passwd");
    assert_eq!(v, PathVerdict::Traversal);
    let (_, v) = zip_entry_path("a\\..\\b");
    assert_eq!(v, PathVerdict::Traversal);
    let (_, v) = zip_entry_path("repo/.git/HEAD");
    assert_eq!(v, PathVerdict::Skip);
    let (_, v) = zip_entry_path(".git/../x");
    assert_eq!(v, PathVerdict::Traversal);
    let (_, v) = zip_entry_path("a/..b/c");
    assert_eq!(v, PathVerdict::Keep);
}

#[test]
fn tar_paths_decide_by_first_marked_component() {
    assert_eq!(tar_path_verdict("package/index.js"), PathVerdict::Keep);
    assert_eq!(tar_path_verdict("../evil"), PathVerdict::Traversal);
    assert_eq!(tar_path_verdict("package/.git/../x"), PathVerdict::Skip);
    assert_eq!(tar_path_verdict("package/../.git"), PathVerdict::Traversal);
    assert_eq!(tar_path_verdict("./.svn/entries"), PathVerdict::Skip);
}

#[test]
fn budget_limits_entries_and_bytes() {
    let mut b = ExtractionBudget::new();
    assert!(b.count_entry().is_ok());
    assert!(b.add_size(MAX_UNCOMPRESSED_SIZE - 1).is_ok());
    assert!(b.add_size(1).is_ok());
    match b.add_size(1) {
        Err(ZipSourceError::Validation(m)) => assert_eq!(m, "File too big"),
        other => panic!("unexpected {other:?}"),
    }
    let mut c = ExtractionBudget { total_size: 0, file_count: MAX_FILE_COUNT - 1 };
    assert!(c.count_entry().is_ok());
    match c.count_entry() {
        Err(ZipSourceError::Validation(m)) => assert_eq!(m, "Too many files"),
        other => panic!("unexpected {other:?}"),
    }
    assert_eq!(MAX_UNCOMPRESSED_SIZE, 500 * 1024 * 1024);
    assert_eq!(MAX_FILE_COUNT, 50_000);
}

#[test]
fn paths_like_std() {
    let cases = [
        "a/b.tar.gz", "a/b", ".bashrc", "a/.", "a/..", "/", "", "x.", "dir/", "..", "a/b.c/",
        "./x.y", "a//b.z",
    ];
    for c in cases {
        let p = std::path::Path::new(c);
        let expected_ext = p.extension().map(|e| e.to_str().unwrap().to_string());
        let got_ext = extension(c).map(|v| v.into_iter().collect::<String>());
        assert_eq!(got_ext, expected_ext, "extension of {c:?}");
        let expected_stem = p
            .file_stem()
            .and_then(|s| s.to_str())
            .unwrap_or("unknown")
            .to_string();
        assert_eq!(file_stem(c), expected_stem, "stem of {c:?}");
    }
}

#[test]
fn join_like_pathbuf() {
    for (d, r) in [("/cache", "Npm/x-1"), ("/cache/", "k"), ("", "k"), ("/cache", "/abs")] {
        let expected = std::path::Path::new(d).join(r).to_string_lossy().to_string();
        assert_eq!(join_path(d, r), expected);
    }
}

#[test]
fn decompile_steps_by_extension() {
    match decompile_step("/x/lib/Foo.Bar.DLL", "/out") {
        DecompileStep::Dotnet { out_dir } => assert_eq!(out_dir, "/out/dotnet_Foo.Bar"),
        _ => panic!("expected dotnet"),
    }
    match decompile_step("/x/a.aar", "/out") {
        DecompileStep::Aar { aar_dir } => assert_eq!(aar_dir, "/out/aar_a"),
        _ => panic!("expected aar"),
    }
    match decompile_step("/x/b.jar", "/out") {
        DecompileStep::Jar { out_dir } => assert_eq!(out_dir, "/out/java_b"),
        _ => panic!("expected jar"),
    }
    assert!(matches!(decompile_step("/x/readme.md", "/out"), DecompileStep::Nothing));
    assert!(matches!(decompile_step("/x/dll", "/out"), DecompileStep::Nothing));
    assert_eq!(aar_inner_output("/o/aar_a/classes.dex", "/o/aar_a"), Some("/o/aar_a/src_classes".to_string()));
    assert_eq!(aar_inner_output("/o/aar_a/libs/x.JAR", "/o/aar_a"), Some("/o/aar_a/src_x".to_string()));
    assert_eq!(aar_inner_output("/o/aar_a/AndroidManifest.xml", "/o/aar_a"), None);
}

#[test]
fn decompiler_outcomes() {
    assert!(run_result(RunStatus::Succeeded, "jadx").is_ok());
    assert!(run_result(RunStatus::ExitedWithFailure, "jadx").is_ok());
    assert!(run_result(RunStatus::FailedToStart, "jadx").is_ok());
    match run_result(RunStatus::NotFound, "jadx") {
        Err(ZipSourceError::DecompilerNotFound(m)) => {
            assert_eq!(m, "'jadx' not found — make sure it is installed")
        }
        other => panic!("unexpected {other:?}"),
    }
}

#[test]
fn error_messages() {
    assert_eq!(ZipSourceError::Validation("Path traversal".to_string()).message(), "Archive validation error: Path traversal");
    assert_eq!(ZipSourceError::RepoRootNotFound.message(), "Repository root not found in extracted archive");
    assert_eq!(ZipSourceError::SourceUrlNotFound.message(), "Source url not found");
    assert_eq!(ZipSourceError::DecompilerNotFound("x".to_string()).message(), "Decompiler not found — x");
    assert_eq!(ZipSourceError::Http("boom".to_string()).message(), "HTTP error: boom");
}

fn validation_message(r: Result<EntryAction, ZipSourceError>) -> String {
    match r {
        Err(ZipSourceError::Validation(m)) => m,
        other => panic!("expected a validation error, got {:?}", other),
    }
}

#[test]
fn take_entry_counts_before_judging_the_path() {
    let mut b = ExtractionBudget::new();
    assert_eq!(b.take_entry(PathVerdict::Keep).unwrap(), EntryAction::Unpack);
    assert_eq!(b.take_entry(PathVerdict::Skip).unwrap(), EntryAction::Skip);
    assert_eq!(b.file_count, 2);
    assert_eq!(b.total_size, 0);
    assert_eq!(validation_message(b.take_entry(PathVerdict::Traversal)), "Path traversal");
    assert_eq!(b.file_count, 3);
}

#[test]
fn take_entry_refuses_one_entry_too_many_even_if_skipped() {
    let mut b = ExtractionBudget::new();
    b.file_count = MAX_FILE_COUNT;
    assert_eq!(validation_message(b.take_entry(PathVerdict::Skip)), "Too many files");
    let mut b = ExtractionBudget::new();
    b.file_count = MAX_FILE_COUNT;
    assert_eq!(validation_message(b.take_entry(PathVerdict::Traversal)), "Too many files");
}

#[test]
fn skipped_entries_add_no_size() {
    let mut b = ExtractionBudget::new();
    assert_eq!(b.take_sized_entry(PathVerdict::Skip, u64::MAX).unwrap(), EntryAction::Skip);
    assert_eq!(b.total_size, 0);
    assert_eq!(b.file_count, 1);
    assert_eq!(b.take_sized_entry(PathVerdict::Keep, 10).unwrap(), EntryAction::Unpack);
    assert_eq!(b.total_size, 10);
    assert_eq!(b.file_count, 2);
}

#[test]
fn kept_entries_add_their_size_up_to_the_limit() {
    let mut b = ExtractionBudget::new();
    assert_eq!(
        b.take_sized_entry(PathVerdict::Keep, MAX_UNCOMPRESSED_SIZE).unwrap(),
        EntryAction::Unpack
    );
    assert_eq!(validation_message(b.take_sized_entry(PathVerdict::Keep, 1)), "File too big");
    assert_eq!(b.total_size, MAX_UNCOMPRESSED_SIZE + 1);
}

#[test]
fn traversal_refuses_before_size_is_added() {
    let mut b = ExtractionBudget::new();
    assert_eq!(validation_message(b.take_sized_entry(PathVerdict::Traversal, 5)), "Path traversal");
    assert_eq!(b.total_size, 0);
    match path_traversal() {
        ZipSourceError::Validation(m) => assert_eq!(m, "Path traversal"),
        other => panic!("unexpected {:?}", other),
    }
}
