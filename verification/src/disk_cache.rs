//! The on-disk cache's layout and expiry rule.
use vstd::prelude::*;

use crate::zip_source::paths::{join_path, join_path_spec};

verus! {

/// The directory an entry is stored in: the key joined onto the cache root.
pub fn entry_dir(root: &str, key: &str) -> (r: String)
    ensures
        r@ == join_path_spec(root@, key@),
{
    join_path(root, key)
}

/// An entry is removed once it is older than the maximum age.
pub fn is_expired(age_nanos: u128, max_age_nanos: u128) -> (r: bool)
    ensures
        r == (age_nanos > max_age_nanos),
{
    age_nanos > max_age_nanos
}

} // verus!
