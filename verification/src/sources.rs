//! Where a package comes from.
use vstd::prelude::*;

use crate::text::{chars_eq, chars_of, lowercase_of, to_lowercase};

verus! {

/// The registry a package is fetched from.
#[derive(Debug, Clone, Copy, PartialEq, Eq, Structural)]
pub enum PackageSource {
    Github,
    Nuget,
    Npm,
}

impl Default for PackageSource {
    /// The default source is GitHub.
    fn default() -> (r: Self)
        ensures
            r == PackageSource::Github,
    {
        PackageSource::Github
    }
}

/// The source with the given lower-case name (`github`, `nuget`, `npm`).
pub open spec fn source_named(name: Seq<char>) -> Option<PackageSource> {
    if name == "github"@ {
        Some(PackageSource::Github)
    } else if name == "nuget"@ {
        Some(PackageSource::Nuget)
    } else if name == "npm"@ {
        Some(PackageSource::Npm)
    } else {
        None
    }
}

/// The lower-case name that serialises a source (`github`, `nuget`, `npm`).
pub open spec fn source_name(s: PackageSource) -> Seq<char> {
    match s {
        PackageSource::Github => "github"@,
        PackageSource::Nuget => "nuget"@,
        PackageSource::Npm => "npm"@,
    }
}

/// The variant name, as `{:?}` writes it (`Github`, `Nuget`, `Npm`).
pub open spec fn source_variant_name(s: PackageSource) -> Seq<char> {
    match s {
        PackageSource::Github => "Github"@,
        PackageSource::Nuget => "Nuget"@,
        PackageSource::Npm => "Npm"@,
    }
}

fn source_from_lowercase(l: &[char]) -> (r: Option<PackageSource>)
    ensures
        r == source_named(l@),
{
    let github = chars_of("github");
    let nuget = chars_of("nuget");
    let npm = chars_of("npm");
    if chars_eq(l, github.as_slice()) {
        Some(PackageSource::Github)
    } else if chars_eq(l, nuget.as_slice()) {
        Some(PackageSource::Nuget)
    } else if chars_eq(l, npm.as_slice()) {
        Some(PackageSource::Npm)
    } else {
        None
    }
}

impl PackageSource {
    /// Reads a source name case-insensitively (lower-casing it first); `None` for
    /// any other name.
    pub fn parse_name(s: &str) -> (r: Option<PackageSource>)
        ensures
            r == source_named(lowercase_of(s@)),
    {
        let lower = to_lowercase(s);
        let l = chars_of(lower.as_str());
        source_from_lowercase(l.as_slice())
    }

    /// Converts a source name, case-insensitively. Only the three known names are
    /// accepted.
    pub fn from_string(s: String) -> (r: PackageSource)
        requires
            source_named(lowercase_of(s@)) is Some,
        ensures
            source_named(lowercase_of(s@)) == Some(r),
    {
        match PackageSource::parse_name(s.as_str()) {
            Some(p) => p,
            None => PackageSource::Github,
        }
    }

    /// Converts a source name when it is one of the known names, and gives `None`
    /// (where the plain conversion has no answer) otherwise.
    pub fn try_from_string(s: String) -> (r: Option<PackageSource>)
        ensures
            r == source_named(lowercase_of(s@)),
    {
        if PackageSource::parse_name(s.as_str()).is_some() {
            Some(PackageSource::from_string(s))
        } else {
            None
        }
    }

    /// The lower-case name of the source.
    pub fn name(&self) -> (r: String)
        ensures
            r@ == source_name(*self),
    {
        match self {
            PackageSource::Github => String::from_str("github"),
            PackageSource::Nuget => String::from_str("nuget"),
            PackageSource::Npm => String::from_str("npm"),
        }
    }

    /// The variant name of the source, as its `Debug` form writes it.
    pub fn variant_name(&self) -> (r: String)
        ensures
            r@ == source_variant_name(*self),
    {
        match self {
            PackageSource::Github => String::from_str("Github"),
            PackageSource::Nuget => String::from_str("Nuget"),
            PackageSource::Npm => String::from_str("Npm"),
        }
    }
}

/// Every source reads back from its name.
pub proof fn lemma_source_name_round_trip(s: PackageSource)
    ensures
        source_named(source_name(s)) == Some(s),
{
    reveal_strlit("github");
    reveal_strlit("nuget");
    reveal_strlit("npm");
    assert("nuget"@.len() != "github"@.len());
    assert("npm"@.len() != "github"@.len());
    assert("npm"@.len() != "nuget"@.len());
}

} // verus!
