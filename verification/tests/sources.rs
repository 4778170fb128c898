use dependency_scanner::sources::PackageSource;

#[test]
fn default_source_is_github() {
    assert_eq!(PackageSource::default(), PackageSource::Github);
}

#[test]
fn source_names_are_case_insensitive() {
    assert_eq!(PackageSource::parse_name("GitHub"), Some(PackageSource::Github));
    assert_eq!(PackageSource::parse_name("NUGET"), Some(PackageSource::Nuget));
    assert_eq!(PackageSource::parse_name("npm"), Some(PackageSource::Npm));
    assert_eq!(PackageSource::parse_name("pypi"), None);
    assert_eq!(PackageSource::parse_name(" npm"), None);
    assert_eq!(PackageSource::from_string("Npm".to_string()), PackageSource::Npm);
    assert_eq!(PackageSource::try_from_string("maven".to_string()), None);
    assert_eq!(PackageSource::try_from_string("NuGet".to_string()), Some(PackageSource::Nuget));
}

#[test]
fn source_names_round_trip() {
    for s in [PackageSource::Github, PackageSource::Nuget, PackageSource::Npm] {
        assert_eq!(PackageSource::parse_name(&s.name()), Some(s));
    }
    assert_eq!(PackageSource::Github.name(), "github");
    assert_eq!(PackageSource::Nuget.variant_name(), "Nuget");
    assert_eq!(format!("{:?}", PackageSource::Npm), PackageSource::Npm.variant_name());
}
