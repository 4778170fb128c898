use dependency_scanner::disk_cache::{entry_dir, is_expired};
use dependency_scanner::package_service::models::Package;
use dependency_scanner::package_service::schemas::{GetPackageSchema, PackageResponseSchema};
use dependency_scanner::package_service::service::{
    cache_key, evict_next, over_limit, stored_size_bytes, EvictionAction, MAX_BYTES,
};
use dependency_scanner::sources::PackageSource;

fn package(id: Option<i64>, size: i64) -> Package {
    Package {
        id,
        cache_path: "/cache/Npm/x-1".to_string(),
        package_id: "x".to_string(),
        version: "1".to_string(),
        package_source: PackageSource::Npm,
        fetch_date: "2024-01-01T00:00:00Z".to_string(),
        size_bytes: size,
    }
}

#[test]
fn cache_keys_use_variant_names() {
    assert_eq!(cache_key(PackageSource::Nuget, "Newtonsoft.Json", "13.0.3"), "Nuget/Newtonsoft.Json-13.0.3");
    assert_eq!(cache_key(PackageSource::Github, "o/r", ""), "Github/o/r-");
    assert_eq!(entry_dir("/home/u/.cache/dependency_scanner", "Npm/x-1"), "/home/u/.cache/dependency_scanner/Npm/x-1");
}

#[test]
fn response_from_package() {
    let r: PackageResponseSchema = package(Some(7), 10).into();
    assert_eq!(r.id, 7);
    assert_eq!(r.package_id, "x");
    assert_eq!(r.version, "1");
    assert_eq!(r.package_source, PackageSource::Npm);
    assert_eq!(r.fetch_date, "2024-01-01T00:00:00Z");
    let r: PackageResponseSchema = package(None, 10).into();
    assert_eq!(r.id, 0);
    let g = GetPackageSchema { package_id: "a".to_string(), version: "b".to_string(), package_source: PackageSource::Github };
    assert_eq!(g.package_source, PackageSource::Github);
}

#[test]
fn eviction_steps() {
    assert_eq!(MAX_BYTES, 5 * 1024 * 1024 * 1024);
    assert!(!over_limit(MAX_BYTES));
    assert!(over_limit(MAX_BYTES + 1));
    assert!(matches!(evict_next(MAX_BYTES + 5, None), EvictionAction::Done));
    match evict_next(MAX_BYTES + 5, Some(package(Some(3), 10))) {
        EvictionAction::Evict { id, cache_path, remaining_bytes } => {
            assert_eq!(id, 3);
            assert_eq!(cache_path, "/cache/Npm/x-1");
            assert_eq!(remaining_bytes, MAX_BYTES - 5);
        }
        EvictionAction::Done => panic!("expected eviction"),
    }
    match evict_next(MAX_BYTES + 5, Some(package(None, 1))) {
        EvictionAction::Evict { id, .. } => assert_eq!(id, 0),
        EvictionAction::Done => panic!("expected eviction"),
    }
}

#[test]
fn eviction_loop_removes_oldest_until_within_cap() {
    // Sizes of the cached packages in id order.
    let sizes = [512 * 1024 * 1024i64, 1024, 5 * 1024 * 1024 * 1024, 1];
    let mut total: i64 = sizes.iter().sum();
    let mut evicted = 0;
    while over_limit(total) {
        let oldest = sizes.get(evicted).map(|s| package(Some(evicted as i64), *s));
        match evict_next(total, oldest) {
            EvictionAction::Done => break,
            EvictionAction::Evict { remaining_bytes, .. } => {
                total = remaining_bytes;
                evicted += 1;
            }
        }
    }
    assert_eq!(evicted, 3);
    assert_eq!(total, 1);
    assert!(total <= MAX_BYTES);
}

#[test]
fn stored_sizes() {
    assert_eq!(stored_size_bytes(&vec![]), Some(0));
    assert_eq!(stored_size_bytes(&vec![1, 2, 3]), Some(6));
    assert_eq!(stored_size_bytes(&vec![u64::MAX, 1]), None);
    assert_eq!(stored_size_bytes(&vec![u64::MAX]), Some(-1));
}

#[test]
fn expiry() {
    assert!(is_expired(2, 1));
    assert!(!is_expired(1, 1));
}
