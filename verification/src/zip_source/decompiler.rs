//! Which files of an unpacked package are decompiled, where the decompiled
//! sources go, and what a decompiler run's outcome means.
use vstd::prelude::*;

use crate::text::{chars_eq, chars_of, lowercase_of, string_of, to_lowercase};
use crate::zip_source::error::ZipSourceError;
use crate::zip_source::paths::{extension, file_stem, join_path, join_path_spec, path_extension, path_stem};

verus! {

/// The lower-cased extension of a path, or empty when it has none.
pub open spec fn lower_extension(path: Seq<char>) -> Seq<char> {
    lowercase_of(
        match path_extension(path) {
            Some(e) => e,
            None => Seq::empty(),
        },
    )
}

/// The stem of a path, or `unknown`.
pub open spec fn stem_or_unknown(path: Seq<char>) -> Seq<char> {
    match path_stem(path) {
        Some(s) => s,
        None => "unknown"@,
    }
}

/// What is done with one file of an unpacked package.
pub enum DecompileStep {
    /// A .NET assembly (`.dll`), decompiled into `out_dir`.
    Dotnet { out_dir: String },
    /// An Android archive (`.aar`), unpacked into `aar_dir` and its classes decompiled.
    Aar { aar_dir: String },
    /// A Java archive (`.jar`), decompiled into `out_dir`.
    Jar { out_dir: String },
    /// Anything else is left alone.
    Nothing,
}

/// The step for the file at `path`, with decompiled sources under `decompile_dir`:
/// by the lower-cased extension, `dll` goes to `dotnet_<stem>`, `aar` to
/// `aar_<stem>` and `jar` to `java_<stem>`.
pub open spec fn decompile_step_matches(
    step: DecompileStep,
    path: Seq<char>,
    decompile_dir: Seq<char>,
) -> bool {
    let ext = lower_extension(path);
    let stem = stem_or_unknown(path);
    if ext == "dll"@ {
        step matches DecompileStep::Dotnet { out_dir } && out_dir@ == join_path_spec(
            decompile_dir,
            "dotnet_"@ + stem,
        )
    } else if ext == "aar"@ {
        step matches DecompileStep::Aar { aar_dir } && aar_dir@ == join_path_spec(
            decompile_dir,
            "aar_"@ + stem,
        )
    } else if ext == "jar"@ {
        step matches DecompileStep::Jar { out_dir } && out_dir@ == join_path_spec(
            decompile_dir,
            "java_"@ + stem,
        )
    } else {
        step is Nothing
    }
}

fn lower_extension_exec(path: &str) -> (r: Vec<char>)
    ensures
        r@ == lower_extension(path@),
{
    let ext = match extension(path) {
        Some(e) => e,
        None => Vec::new(),
    };
    let ext_string = string_of(ext.as_slice());
    let lower = to_lowercase(ext_string.as_str());
    chars_of(lower.as_str())
}

fn prefixed_dir(dir: &str, prefix: &str, path: &str) -> (r: String)
    ensures
        r@ == join_path_spec(dir@, prefix@ + stem_or_unknown(path@)),
{
    let stem = file_stem(path);
    let name = String::from_str(prefix).concat(stem.as_str());
    join_path(dir, name.as_str())
}

/// Decides what is done with the file at `path`.
pub fn decompile_step(path: &str, decompile_dir: &str) -> (r: DecompileStep)
    ensures
        decompile_step_matches(r, path@, decompile_dir@),
{
    let ext = lower_extension_exec(path);
    let dll = chars_of("dll");
    let aar = chars_of("aar");
    let jar = chars_of("jar");
    if chars_eq(ext.as_slice(), dll.as_slice()) {
        DecompileStep::Dotnet { out_dir: prefixed_dir(decompile_dir, "dotnet_", path) }
    } else if chars_eq(ext.as_slice(), aar.as_slice()) {
        DecompileStep::Aar { aar_dir: prefixed_dir(decompile_dir, "aar_", path) }
    } else if chars_eq(ext.as_slice(), jar.as_slice()) {
        DecompileStep::Jar { out_dir: prefixed_dir(decompile_dir, "java_", path) }
    } else {
        DecompileStep::Nothing
    }
}

/// Inside an unpacked `.aar`, the classes (`.jar` or `.dex`, by lower-cased
/// extension) are decompiled into `src_<stem>` under the archive's directory;
/// nothing else is.
pub fn aar_inner_output(path: &str, aar_dir: &str) -> (r: Option<String>)
    ensures
        (lower_extension(path@) == "jar"@ || lower_extension(path@) == "dex"@) ==> (r matches Some(
            out,
        ) && out@ == join_path_spec(aar_dir@, "src_"@ + stem_or_unknown(path@))),
        !(lower_extension(path@) == "jar"@ || lower_extension(path@) == "dex"@) ==> r is None,
{
    let ext = lower_extension_exec(path);
    let jar = chars_of("jar");
    let dex = chars_of("dex");
    if chars_eq(ext.as_slice(), jar.as_slice()) || chars_eq(ext.as_slice(), dex.as_slice()) {
        Some(prefixed_dir(aar_dir, "src_", path))
    } else {
        None
    }
}

/// How a decompiler process ended.
#[derive(Debug, Clone, Copy, PartialEq, Eq, Structural)]
pub enum RunStatus {
    /// It ran and succeeded.
    Succeeded,
    /// It ran and exited with a failure status.
    ExitedWithFailure,
    /// It could not be started because the program is not installed.
    NotFound,
    /// It could not be started for another reason.
    FailedToStart,
}

/// The outcome of a decompiler run: only a missing decompiler is an error; a
/// failing run is logged and the scan goes on.
pub fn run_result(status: RunStatus, decompiler: &str) -> (r: Result<(), ZipSourceError>)
    ensures
        status != RunStatus::NotFound ==> r is Ok,
        status == RunStatus::NotFound ==> (r matches Err(ZipSourceError::DecompilerNotFound(m))
            && m@ == "'"@ + decompiler@ + "' not found — make sure it is installed"@),
{
    match status {
        RunStatus::NotFound => Err(
            ZipSourceError::DecompilerNotFound(
                String::from_str("'").concat(decompiler).concat(
                    "' not found — make sure it is installed",
                ),
            ),
        ),
        _ => Ok(()),
    }
}

} // verus!
