//! Errors met while fetching and unpacking a package.
use vstd::prelude::*;

verus! {

/// Why fetching or unpacking a package failed. The errors of HTTP, I/O and the
/// zip reader are carried as their messages.
#[derive(Debug)]
pub enum ZipSourceError {
    Http(String),
    Io(String),
    Zip(String),
    PackageNotFound(String),
    DecompilerNotFound(String),
    Validation(String),
    RepoRootNotFound,
    TokioTaskError(String),
    SourceUrlNotFound,
    CommandFailed(String),
}

/// The message that describes an error.
pub open spec fn zip_source_error_message(e: ZipSourceError) -> Seq<char> {
    match e {
        ZipSourceError::Http(m) => "HTTP error: "@ + m@,
        ZipSourceError::Io(m) => "IO error: "@ + m@,
        ZipSourceError::Zip(m) => "Zip error: "@ + m@,
        ZipSourceError::PackageNotFound(m) => "Package not found: "@ + m@,
        ZipSourceError::DecompilerNotFound(m) => "Decompiler not found — "@ + m@,
        ZipSourceError::Validation(m) => "Archive validation error: "@ + m@,
        ZipSourceError::RepoRootNotFound => "Repository root not found in extracted archive"@,
        ZipSourceError::TokioTaskError(m) => "tokio task error: "@ + m@,
        ZipSourceError::SourceUrlNotFound => "Source url not found"@,
        ZipSourceError::CommandFailed(m) => "Command failed: "@ + m@,
    }
}

impl ZipSourceError {
    /// The message that describes the error.
    pub fn message(&self) -> (r: String)
        ensures
            r@ == zip_source_error_message(*self),
    {
        match self {
            ZipSourceError::Http(m) => String::from_str("HTTP error: ").concat(m.as_str()),
            ZipSourceError::Io(m) => String::from_str("IO error: ").concat(m.as_str()),
            ZipSourceError::Zip(m) => String::from_str("Zip error: ").concat(m.as_str()),
            ZipSourceError::PackageNotFound(m) => String::from_str("Package not found: ").concat(
                m.as_str(),
            ),
            ZipSourceError::DecompilerNotFound(m) => String::from_str(
                "Decompiler not found — ",
            ).concat(m.as_str()),
            ZipSourceError::Validation(m) => String::from_str("Archive validation error: ").concat(
                m.as_str(),
            ),
            ZipSourceError::RepoRootNotFound => String::from_str(
                "Repository root not found in extracted archive",
            ),
            ZipSourceError::TokioTaskError(m) => String::from_str("tokio task error: ").concat(
                m.as_str(),
            ),
            ZipSourceError::SourceUrlNotFound => String::from_str("Source url not found"),
            ZipSourceError::CommandFailed(m) => String::from_str("Command failed: ").concat(
                m.as_str(),
            ),
        }
    }
}

} // verus!
