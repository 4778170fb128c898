//! Where a fetched package is cached, and which packages leave the cache when it
//! grows past its cap.
use vstd::prelude::*;

use crate::package_service::models::Package;
use crate::sources::{source_variant_name, PackageSource};

verus! {

/// The most bytes the cached packages may take together (5 GiB).
pub const MAX_BYTES: i64 = 5 * 1024 * 1024 * 1024;

/// The key `<Source>/<id>-<version>` a package is cached under.
pub fn cache_key(source: PackageSource, package_id: &str, version: &str) -> (r: String)
    ensures
        r@ == source_variant_name(source) + "/"@ + package_id@ + "-"@ + version@,
{
    source.variant_name().concat("/").concat(package_id).concat("-").concat(version)
}

/// The total of a list of sizes.
pub open spec fn sum_sizes(s: Seq<u64>) -> int
    decreases s.len(),
{
    if s.len() == 0 {
        0
    } else {
        sum_sizes(s.drop_last()) + s.last()
    }
}

proof fn lemma_sum_sizes_monotone(s: Seq<u64>, i: int)
    requires
        0 <= i <= s.len(),
    ensures
        sum_sizes(s.take(i)) <= sum_sizes(s),
    decreases s.len() - i,
{
    if i < s.len() {
        lemma_sum_sizes_monotone(s, i + 1);
        assert(s.take(i + 1).drop_last() == s.take(i));
    } else {
        assert(s.take(i) == s);
    }
}

/// The size recorded for a cached package: the total of its files' sizes, stored
/// as an `i64` (`as` conversion); `None` when the total does not fit in a `u64`.
pub fn stored_size_bytes(file_sizes: &Vec<u64>) -> (r: Option<i64>)
    ensures
        r is None <==> sum_sizes(file_sizes@) > u64::MAX,
        r matches Some(v) ==> v == (sum_sizes(file_sizes@) as u64) as i64,
{
    let mut total: u64 = 0;
    let n = file_sizes.len();
    for i in 0..n
        invariant
            n == file_sizes@.len(),
            total == sum_sizes(file_sizes@.take(i as int)),
    {
        assert(file_sizes@.take(i + 1).drop_last() == file_sizes@.take(i as int));
        if total > u64::MAX - file_sizes[i] {
            proof {
                lemma_sum_sizes_monotone(file_sizes@, i + 1);
            }
            return None;
        }
        total = total + file_sizes[i];
    }
    assert(file_sizes@.take(n as int) == file_sizes@);
    Some(total as i64)
}

/// Whether the cache holds more than `MAX_BYTES`.
pub fn over_limit(total_bytes: i64) -> (r: bool)
    ensures
        r == (total_bytes > MAX_BYTES),
{
    total_bytes > MAX_BYTES
}

/// What the eviction loop does next.
pub enum EvictionAction {
    /// Stop: nothing is left to evict.
    Done,
    /// Delete the package's cache directory and row, and go on with the
    /// remaining total.
    Evict { id: i64, cache_path: String, remaining_bytes: i64 },
}

/// One step of eviction while the cache is over its cap: the oldest package (the
/// first by id) leaves, and its size is taken off the total; with no package
/// left, eviction stops.
pub fn evict_next(total_bytes: i64, oldest: Option<Package>) -> (r: EvictionAction)
    requires
        oldest matches Some(p) ==> i64::MIN <= total_bytes - p.size_bytes <= i64::MAX,
    ensures
        oldest is None ==> r is Done,
        oldest matches Some(p) ==> (r matches EvictionAction::Evict { id, cache_path, remaining_bytes }
            && id == (match p.id {
            Some(i) => i,
            None => 0,
        }) && cache_path == p.cache_path && remaining_bytes == total_bytes - p.size_bytes),
{
    match oldest {
        None => EvictionAction::Done,
        Some(p) => EvictionAction::Evict {
            id: match p.id {
                Some(i) => i,
                None => 0,
            },
            cache_path: p.cache_path,
            remaining_bytes: total_bytes - p.size_bytes,
        },
    }
}

/// The number of packages the eviction loop removes, starting from `total` bytes
/// with the packages' sizes in id order.
pub open spec fn evicted_count(total: int, sizes: Seq<int>) -> nat
    decreases sizes.len(),
{
    if total <= MAX_BYTES || sizes.len() == 0 {
        0
    } else {
        1 + evicted_count(total - sizes[0], sizes.skip(1))
    }
}

/// The total of a list of sizes (as integers).
pub open spec fn sum_ints(s: Seq<int>) -> int
    decreases s.len(),
{
    if s.len() == 0 {
        0
    } else {
        s[0] + sum_ints(s.skip(1))
    }
}

/// Eviction is oldest first and stops as soon as it can: the packages removed are
/// the shortest run of oldest packages after which the total is within the cap,
/// or all of them when no such run exists.
pub proof fn lemma_eviction_removes_shortest_oldest_prefix(total: int, sizes: Seq<int>)
    ensures
        evicted_count(total, sizes) <= sizes.len(),
        total - sum_ints(sizes.take(evicted_count(total, sizes) as int)) <= MAX_BYTES
            || evicted_count(total, sizes) == sizes.len(),
        forall|j: int|
            0 <= j < evicted_count(total, sizes) ==> total - sum_ints(#[trigger] sizes.take(j))
                > MAX_BYTES,
    decreases sizes.len(),
{
    let k = evicted_count(total, sizes);
    if total <= MAX_BYTES || sizes.len() == 0 {
        assert(sizes.take(0) =~= Seq::<int>::empty());
    } else {
        let rest = sizes.skip(1);
        let t2 = total - sizes[0];
        lemma_eviction_removes_shortest_oldest_prefix(t2, rest);
        let k2 = evicted_count(t2, rest);
        assert(k == k2 + 1);
        assert forall|j: int| 0 <= j <= sizes.len() implies #[trigger] sum_ints(sizes.take(j))
            == if j == 0 { 0 } else { sizes[0] + sum_ints(rest.take(j - 1)) } by {
            if j > 0 {
                assert(sizes.take(j)[0] == sizes[0]);
                assert(sizes.take(j).skip(1) =~= rest.take(j - 1));
            } else {
                assert(sizes.take(0) =~= Seq::<int>::empty());
            }
        }
        assert forall|j: int| 0 <= j < k implies total - sum_ints(#[trigger] sizes.take(j))
            > MAX_BYTES by {
            if j > 0 {
                assert(t2 - sum_ints(rest.take(j - 1)) > MAX_BYTES);
            }
        }
    }
}

} // verus!
