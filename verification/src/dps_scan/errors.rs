//! How a failed scan is answered.
use vstd::prelude::*;

verus! {

/// The kinds of failure a scan can end in.
#[derive(Debug, Clone, Copy, PartialEq, Eq, Structural)]
pub enum ScanErrorKind {
    Io,
    InvalidJson,
    Http,
    CommandFailed,
    JoinError,
    ZipSource,
    PackageFetchError,
}

/// The HTTP status a failed scan is answered with: 502 (Bad Gateway) when
/// fetching the package failed, 500 (Internal Server Error) otherwise.
pub open spec fn scan_error_status_spec(kind: ScanErrorKind) -> u16 {
    match kind {
        ScanErrorKind::ZipSource | ScanErrorKind::PackageFetchError => 502,
        _ => 500,
    }
}

/// The HTTP status for a failed scan.
pub fn scan_error_status(kind: ScanErrorKind) -> (r: u16)
    ensures
        r == scan_error_status_spec(kind),
{
    match kind {
        ScanErrorKind::ZipSource | ScanErrorKind::PackageFetchError => 502,
        _ => 500,
    }
}

} // verus!
