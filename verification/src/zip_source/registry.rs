//! Where each registry serves a package, and the names its files get locally.
use vstd::prelude::*;

use crate::text::{
    chars_of, has_prefix, lowercase_of, starts_with, string_of, strip_leading,
    strip_leading_chars, to_lowercase, trim, trim_chars, replace_char, replace_char_exec,
};
use crate::zip_source::error::ZipSourceError;

verus! {

/// A package id or version as the registries are asked for it: trimmed and
/// lower-cased.
pub open spec fn normalized(s: Seq<char>) -> Seq<char> {
    lowercase_of(trim(s))
}

/// Trims and lower-cases a package id or version.
pub fn normalize_coordinate(s: &str) -> (r: String)
    ensures
        r@ == normalized(s@),
{
    let c = chars_of(s);
    let t = trim_chars(c.as_slice());
    let ts = string_of(t.as_slice());
    to_lowercase(ts.as_str())
}

/// Trims a version (`str::trim`).
pub fn trim_str(s: &str) -> (r: String)
    ensures
        r@ == trim(s@),
{
    let c = chars_of(s);
    let t = trim_chars(c.as_slice());
    string_of(t.as_slice())
}

/// The npm registry's tarball URL for a (normalised) id and version.
pub fn npm_tarball_url(id: &str, ver: &str) -> (r: String)
    ensures
        r@ == "https://registry.npmjs.org/"@ + id@ + "/-/"@ + id@ + "-"@ + ver@ + ".tgz"@,
{
    String::from_str("https://registry.npmjs.org/").concat(id).concat("/-/").concat(id).concat(
        "-",
    ).concat(ver).concat(".tgz")
}

/// The NuGet flat-container URL of a (normalised) id and version's `.nupkg`.
pub fn nuget_package_url(id: &str, ver: &str) -> (r: String)
    ensures
        r@ == "https://api.nuget.org/v3-flatcontainer/"@ + id@ + "/"@ + ver@ + "/"@ + id@ + "."@
            + ver@ + ".nupkg"@,
{
    String::from_str("https://api.nuget.org/v3-flatcontainer/").concat(id).concat("/").concat(
        ver,
    ).concat("/").concat(id).concat(".").concat(ver).concat(".nupkg")
}

/// The PyPI JSON API URL of a (normalised) id and version.
pub fn pypi_metadata_url(id: &str, ver: &str) -> (r: String)
    ensures
        r@ == "https://pypi.org/pypi/"@ + id@ + "/"@ + ver@ + "/json"@,
{
    String::from_str("https://pypi.org/pypi/").concat(id).concat("/").concat(ver).concat("/json")
}

/// The local name `<id>.<ver>.<ext>` a downloaded file is written to.
pub fn download_file_name(id: &str, ver: &str, ext: &str) -> (r: String)
    ensures
        r@ == id@ + "."@ + ver@ + "."@ + ext@,
{
    String::from_str(id).concat(".").concat(ver).concat(".").concat(ext)
}

/// The directory `<id>-<ver>` a source distribution unpacks to.
pub fn sdist_dir_name(id: &str, ver: &str) -> (r: String)
    ensures
        r@ == id@ + "-"@ + ver@,
{
    String::from_str(id).concat("-").concat(ver)
}

/// The GitHub zipball URL of a repository at a (trimmed) tag; the default
/// branch when the tag is empty.
pub fn github_zipball_url(package_id: &str, version: &str) -> (r: String)
    ensures
        version@.len() == 0 ==> r@ == "https://api.github.com/repos/"@ + package_id@
            + "/zipball"@,
        version@.len() > 0 ==> r@ == "https://api.github.com/repos/"@ + package_id@
            + "/zipball/"@ + version@,
{
    let base = String::from_str("https://api.github.com/repos/").concat(package_id);
    if version.unicode_len() == 0 {
        base.concat("/zipball")
    } else {
        base.concat("/zipball/").concat(version)
    }
}

/// The tag tried when a (trimmed) tag is not found: without its leading `v`s when
/// it starts with `v`, else with a `v` put in front.
pub open spec fn alternate_tag_spec(version: Seq<char>) -> Seq<char> {
    if version.len() > 0 && version[0] == 'v' {
        strip_leading(version, 'v')
    } else {
        seq!['v'] + version
    }
}

/// Whether a failed download is tried again with the other tag spelling: when
/// GitHub answered 404 and a tag was given.
pub fn should_retry_tag(status: u16, version: &str) -> (r: bool)
    ensures
        r == (status == 404 && version@.len() > 0),
{
    status == 404 && version.unicode_len() > 0
}

/// The other spelling of a tag.
pub fn alternate_tag(version: &str) -> (r: String)
    ensures
        r@ == alternate_tag_spec(version@),
{
    let v = chars_of(version);
    if v.len() > 0 && v[0] == 'v' {
        let s = strip_leading_chars(v.as_slice(), 'v');
        string_of(s.as_slice())
    } else {
        let mut s: Vec<char> = vec!['v'];
        crate::text::append_chars(&mut s, v.as_slice());
        string_of(s.as_slice())
    }
}

/// The local name `<id with / as _>-<version>.zip` of a downloaded repository.
pub fn github_archive_name(package_id: &str, version: &str) -> (r: String)
    ensures
        r@ == replace_char(package_id@, '/', '_') + "-"@ + version@ + ".zip"@,
{
    let id = chars_of(package_id);
    let safe = replace_char_exec(id.as_slice(), '/', '_');
    string_of(safe.as_slice()).concat("-").concat(version).concat(".zip")
}

/// The error for a package the registry does not have.
pub fn package_not_found(
    registry: &str,
    status: &str,
    package_id: &str,
    version: &str,
) -> (r: ZipSourceError)
    ensures
        r matches ZipSourceError::PackageNotFound(m) && m@ == registry@ + " returned HTTP "@
            + status@ + ": package '"@ + package_id@ + "' version '"@ + version@
            + "' not found"@,
{
    ZipSourceError::PackageNotFound(
        String::from_str(registry).concat(" returned HTTP ").concat(status).concat(
            ": package '",
        ).concat(package_id).concat("' version '").concat(version).concat("' not found"),
    )
}

} // verus!
