//! The external tools run while preparing a package (cdxgen, python3, pip,
//! dotnet): the project file written for `dotnet restore`, and what each tool's
//! outcome means.
use vstd::prelude::*;

use crate::text::{append_chars, chars_of, contains_chars, contains_seq, decimal, decimal_i32,
    string_of, trim, trim_chars};
use crate::zip_source::error::ZipSourceError;

verus! {

/// The target frameworks tried for a NuGet package, in order.
pub fn frameworks() -> (r: Vec<&'static str>)
    ensures
        r@.map_values(|s: &str| s@) == seq![
            "net8.0"@,
            "net8.0-android"@,
            "net6.0"@,
            "netstandard2.1"@,
            "netstandard2.0"@,
        ],
{
    let r: Vec<&'static str> = vec![
        "net8.0",
        "net8.0-android",
        "net6.0",
        "netstandard2.1",
        "netstandard2.0",
    ];
    assert(r@.map_values(|s: &str| s@) =~= seq![
        "net8.0"@,
        "net8.0-android"@,
        "net6.0"@,
        "netstandard2.1"@,
        "netstandard2.0"@,
    ]);
    r
}

/// The files whose presence marks a Python project, whose SBOM is generated
/// from a virtual environment with the package installed.
pub fn python_markers() -> (r: Vec<&'static str>)
    ensures
        r@.map_values(|s: &str| s@) == seq!["setup.py"@, "pyproject.toml"@],
{
    let r: Vec<&'static str> = vec!["setup.py", "pyproject.toml"];
    assert(r@.map_values(|s: &str| s@) =~= seq!["setup.py"@, "pyproject.toml"@]);
    r
}

/// The project file that makes `dotnet restore` resolve one package for one
/// target framework.
pub open spec fn csproj_spec(package_id: Seq<char>, version: Seq<char>, tfm: Seq<char>) -> Seq<char> {
    "<Project Sdk=\"Microsoft.NET.Sdk\">\n        <PropertyGroup>\n            <TargetFramework>"@
        + tfm
        + "</TargetFramework>\n            <Nullable>enable</Nullable>\n        </PropertyGroup>\n        <ItemGroup>\n            <PackageReference Include=\""@
        + package_id + "\" Version=\""@ + version
        + "\" />\n        </ItemGroup>\n        </Project>\n        "@
}

/// Writes the project file for `package_id` at `version` and target framework `tfm`.
pub fn csproj_content(package_id: &str, version: &str, tfm: &str) -> (r: String)
    ensures
        r@ == csproj_spec(package_id@, version@, tfm@),
{
    String::from_str(
        "<Project Sdk=\"Microsoft.NET.Sdk\">\n        <PropertyGroup>\n            <TargetFramework>",
    ).concat(tfm).concat(
        "</TargetFramework>\n            <Nullable>enable</Nullable>\n        </PropertyGroup>\n        <ItemGroup>\n            <PackageReference Include=\"",
    ).concat(package_id).concat("\" Version=\"").concat(version).concat(
        "\" />\n        </ItemGroup>\n        </Project>\n        ",
    )
}

/// The exit code a process reported, or -1 when it was ended by a signal.
pub open spec fn exit_code_or_minus_one(code: Option<i32>) -> int {
    match code {
        Some(c) => c as int,
        None => -1,
    }
}

fn code_text(code: Option<i32>) -> (r: Vec<char>)
    ensures
        r@ == decimal(exit_code_or_minus_one(code)),
{
    match code {
        Some(c) => decimal_i32(c),
        None => decimal_i32(-1),
    }
}

/// The error for a setup step (such as `python3 -m venv` or `pip install`) that
/// failed: its name and its trimmed standard error.
pub fn step_failed(step: &str, stderr: &str) -> (r: ZipSourceError)
    ensures
        r matches ZipSourceError::CommandFailed(m) && m@ == step@ + " failed: "@ + trim(stderr@),
{
    let e = chars_of(stderr);
    let t = trim_chars(e.as_slice());
    ZipSourceError::CommandFailed(
        String::from_str(step).concat(" failed: ").concat(string_of(t.as_slice()).as_str()),
    )
}

/// What a cdxgen run means: a failed run is an error that names the exit code and
/// the trimmed standard error; a run that wrote no SBOM is an error too.
/// `for_python` selects the message of the Python pipeline for a missing file.
pub fn cdxgen_outcome(
    success: bool,
    exit_code: Option<i32>,
    stderr: &str,
    output_exists: bool,
    for_python: bool,
) -> (r: Result<(), ZipSourceError>)
    ensures
        !success ==> (r matches Err(ZipSourceError::CommandFailed(m)) && m@ == "cdxgen failed (exit "@
            + decimal(exit_code_or_minus_one(exit_code)) + "): "@ + trim(stderr@)),
        success && !output_exists && !for_python ==> (r matches Err(
            ZipSourceError::CommandFailed(m),
        ) && m@ == "cdxgen did not produce an output file"@),
        success && !output_exists && for_python ==> (r matches Err(
            ZipSourceError::CommandFailed(m),
        ) && m@ == "cdxgen did not produce cdx.json"@),
        success && output_exists ==> r is Ok,
{
    if !success {
        let code = code_text(exit_code);
        let e = chars_of(stderr);
        let t = trim_chars(e.as_slice());
        return Err(
            ZipSourceError::CommandFailed(
                String::from_str("cdxgen failed (exit ").concat(
                    string_of(code.as_slice()).as_str(),
                ).concat("): ").concat(string_of(t.as_slice()).as_str()),
            ),
        );
    }
    if !output_exists {
        if for_python {
            return Err(
                ZipSourceError::CommandFailed(String::from_str("cdxgen did not produce cdx.json")),
            );
        }
        return Err(
            ZipSourceError::CommandFailed(
                String::from_str("cdxgen did not produce an output file"),
            ),
        );
    }
    Ok(())
}

/// How `dotnet restore` went for one target framework.
#[derive(Debug, Clone, Copy, PartialEq, Eq, Structural)]
pub enum RestoreOutcome {
    /// The packages were restored; generate the SBOM from this project.
    Restored,
    /// The framework is not available; try the next one.
    Skip,
}

/// `stdout`, a line break and `stderr`.
pub open spec fn combined_output(stdout: Seq<char>, stderr: Seq<char>) -> Seq<char> {
    stdout + "\n"@ + stderr
}

/// The framework cannot be used: a missing workload (NETSDK1147) or no
/// compatible framework (NU1202, NU1213, "compatible").
pub open spec fn framework_unavailable(out: Seq<char>) -> bool {
    ||| contains_seq(out, "NETSDK1147"@)
    ||| contains_seq(out, "NU1202"@)
    ||| contains_seq(out, "NU1213"@)
    ||| contains_seq(out, "compatible"@)
}

/// What a `dotnet restore` run means. A run that reports the end-of-life warning
/// NETSDK1202 as an error but did restore counts as a success; a framework that
/// cannot be used is skipped; any other failure is an error that names the exit
/// code and both trimmed outputs.
pub fn restore_outcome(
    success: bool,
    exit_code: Option<i32>,
    stdout: &str,
    stderr: &str,
) -> (r: Result<RestoreOutcome, ZipSourceError>)
    ensures
        success ==> r == Ok::<RestoreOutcome, ZipSourceError>(RestoreOutcome::Restored),
        !success && contains_seq(combined_output(stdout@, stderr@), "NETSDK1202"@)
            && contains_seq(stdout@, "Restored "@) ==> r == Ok::<RestoreOutcome, ZipSourceError>(
            RestoreOutcome::Restored,
        ),
        !success && !(contains_seq(combined_output(stdout@, stderr@), "NETSDK1202"@)
            && contains_seq(stdout@, "Restored "@)) && framework_unavailable(
            combined_output(stdout@, stderr@),
        ) ==> r == Ok::<RestoreOutcome, ZipSourceError>(RestoreOutcome::Skip),
        !success && !(contains_seq(combined_output(stdout@, stderr@), "NETSDK1202"@)
            && contains_seq(stdout@, "Restored "@)) && !framework_unavailable(
            combined_output(stdout@, stderr@),
        ) ==> (r matches Err(ZipSourceError::CommandFailed(m)) && m@
            == "dotnet restore failed (exit "@ + decimal(exit_code_or_minus_one(exit_code))
            + "):\nstdout: "@ + trim(stdout@) + "\nstderr: "@ + trim(stderr@)),
{
    if success {
        return Ok(RestoreOutcome::Restored);
    }
    let out = chars_of(stdout);
    let err = chars_of(stderr);
    let mut combined = chars_of(stdout);
    let newline = chars_of("\n");
    append_chars(&mut combined, newline.as_slice());
    append_chars(&mut combined, err.as_slice());
    let netsdk1202 = chars_of("NETSDK1202");
    let restored = chars_of("Restored ");
    if contains_chars(combined.as_slice(), netsdk1202.as_slice()) && contains_chars(
        out.as_slice(),
        restored.as_slice(),
    ) {
        return Ok(RestoreOutcome::Restored);
    }
    let netsdk1147 = chars_of("NETSDK1147");
    let nu1202 = chars_of("NU1202");
    let nu1213 = chars_of("NU1213");
    let compatible = chars_of("compatible");
    if contains_chars(combined.as_slice(), netsdk1147.as_slice()) || contains_chars(
        combined.as_slice(),
        nu1202.as_slice(),
    ) || contains_chars(combined.as_slice(), nu1213.as_slice()) || contains_chars(
        combined.as_slice(),
        compatible.as_slice(),
    ) {
        return Ok(RestoreOutcome::Skip);
    }
    let code = code_text(exit_code);
    let out_trimmed = trim_chars(out.as_slice());
    let err_trimmed = trim_chars(err.as_slice());
    Err(
        ZipSourceError::CommandFailed(
            String::from_str("dotnet restore failed (exit ").concat(
                string_of(code.as_slice()).as_str(),
            ).concat("):\nstdout: ").concat(string_of(out_trimmed.as_slice()).as_str()).concat(
                "\nstderr: ",
            ).concat(string_of(err_trimmed.as_slice()).as_str()),
        ),
    )
}

/// The number of target frameworks tried.
pub const FRAMEWORK_COUNT: usize = 5;

/// The next step of the search for a target framework to generate the SBOM with.
#[derive(Debug, Clone, Copy, PartialEq, Eq, Structural)]
pub enum FrameworkStep {
    /// Run `dotnet restore` for the framework at this position of `frameworks()`.
    Restore(usize),
    /// Run cdxgen on the project of the framework at this position, then stop.
    Sbom(usize),
    /// Stop: no framework could be restored.
    Done,
}

/// Where the search starts: the first framework.
pub fn first_framework_step() -> (r: FrameworkStep)
    ensures
        r == FrameworkStep::Restore(0),
{
    FrameworkStep::Restore(0)
}

/// The step after the restore of the framework at position `tried` went as
/// `outcome` (a failed restore ends the search with its error before this): a
/// restored framework is the one the SBOM is generated with; an unavailable one
/// passes the search on to the next framework, or ends it after the last.
pub open spec fn framework_step_spec(tried: usize, outcome: RestoreOutcome) -> FrameworkStep {
    match outcome {
        RestoreOutcome::Restored => FrameworkStep::Sbom(tried),
        RestoreOutcome::Skip => if tried + 1 < FRAMEWORK_COUNT {
            FrameworkStep::Restore((tried + 1) as usize)
        } else {
            FrameworkStep::Done
        },
    }
}

/// Decides the step after a framework's restore.
pub fn next_framework_step(tried: usize, outcome: RestoreOutcome) -> (r: FrameworkStep)
    ensures
        r == framework_step_spec(tried, outcome),
{
    match outcome {
        RestoreOutcome::Restored => FrameworkStep::Sbom(tried),
        RestoreOutcome::Skip => if tried < FRAMEWORK_COUNT - 1 {
            FrameworkStep::Restore(tried + 1)
        } else {
            FrameworkStep::Done
        },
    }
}

/// Where the search ends when run from `step` with the given restore outcome of
/// each framework, taking at most `fuel` steps.
pub open spec fn run_framework_search(
    outcomes: Seq<RestoreOutcome>,
    step: FrameworkStep,
    fuel: nat,
) -> FrameworkStep
    decreases fuel,
{
    match step {
        FrameworkStep::Restore(i) => if fuel == 0 {
            step
        } else {
            run_framework_search(
                outcomes,
                framework_step_spec(i, outcomes[i as int]),
                (fuel - 1) as nat,
            )
        },
        _ => step,
    }
}

/// The search, started at the first framework and given each framework's restore
/// outcome, generates the SBOM with the first framework that was restored (every
/// one before it was unavailable), and ends without an SBOM exactly when none was.
pub proof fn lemma_framework_search_picks_first_restored(outcomes: Seq<RestoreOutcome>)
    requires
        outcomes.len() == FRAMEWORK_COUNT,
    ensures
        match run_framework_search(outcomes, FrameworkStep::Restore(0), FRAMEWORK_COUNT as nat) {
            FrameworkStep::Sbom(k) => k < FRAMEWORK_COUNT && outcomes[k as int]
                == RestoreOutcome::Restored && forall|j: int|
                0 <= j < k ==> outcomes[j] == RestoreOutcome::Skip,
            FrameworkStep::Done => forall|j: int|
                0 <= j < FRAMEWORK_COUNT ==> outcomes[j] == RestoreOutcome::Skip,
            FrameworkStep::Restore(_) => false,
        },
{
    lemma_framework_search_from(outcomes, 0);
}

proof fn lemma_framework_search_from(outcomes: Seq<RestoreOutcome>, i: usize)
    requires
        outcomes.len() == FRAMEWORK_COUNT,
        i < FRAMEWORK_COUNT,
    ensures
        match run_framework_search(outcomes, FrameworkStep::Restore(i), (FRAMEWORK_COUNT - i) as nat) {
            FrameworkStep::Sbom(k) => i <= k < FRAMEWORK_COUNT && outcomes[k as int]
                == RestoreOutcome::Restored && forall|j: int|
                i <= j < k ==> outcomes[j] == RestoreOutcome::Skip,
            FrameworkStep::Done => forall|j: int|
                i <= j < FRAMEWORK_COUNT ==> outcomes[j] == RestoreOutcome::Skip,
            FrameworkStep::Restore(_) => false,
        },
    decreases FRAMEWORK_COUNT - i,
{
    let fuel = (FRAMEWORK_COUNT - i) as nat;
    assert(run_framework_search(outcomes, FrameworkStep::Restore(i), fuel) == run_framework_search(
        outcomes,
        framework_step_spec(i, outcomes[i as int]),
        (fuel - 1) as nat,
    ));
    match outcomes[i as int] {
        RestoreOutcome::Restored => {},
        RestoreOutcome::Skip => {
            if i + 1 < FRAMEWORK_COUNT {
                lemma_framework_search_from(outcomes, (i + 1) as usize);
            }
        },
    }
}

} // verus!
