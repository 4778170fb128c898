//! Lists of `(key, value)` pairs read as maps from the key's characters, a later
//! entry for a key replacing an earlier one (as when such a list is collected
//! into a hash map).
use vstd::prelude::*;

use crate::text::str_eq;

verus! {

/// The map that a list of entries denotes: a later entry for a key replaces an
/// earlier one.
pub open spec fn keyed_view<V>(e: Seq<(String, V)>) -> Map<Seq<char>, V>
    decreases e.len(),
{
    if e.len() == 0 {
        Map::empty()
    } else {
        keyed_view(e.drop_last()).insert(e.last().0@, e.last().1)
    }
}

/// Looks a key up: the value of the last entry for `key`.
pub fn keyed_get<'a, V>(e: &'a Vec<(String, V)>, key: &str) -> (r: Option<&'a V>)
    ensures
        match r {
            Some(v) => keyed_view(e@).contains_key(key@) && keyed_view(e@)[key@] == *v,
            None => !keyed_view(e@).contains_key(key@),
        },
{
    let ghost s = e@;
    let mut m = e.len();
    assert(s.take(m as int) == s);
    while m > 0
        invariant
            m <= s.len(),
            s == e@,
            keyed_view(s).contains_key(key@) == keyed_view(s.take(m as int)).contains_key(key@),
            keyed_view(s.take(m as int)).contains_key(key@) ==> keyed_view(s)[key@]
                == keyed_view(s.take(m as int))[key@],
        decreases m,
    {
        assert(s.take(m as int).drop_last() == s.take(m - 1));
        assert(s.take(m as int).last() == s[m - 1]);
        if str_eq(e[m - 1].0.as_str(), key) {
            return Some(&e[m - 1].1);
        }
        m = m - 1;
    }
    None
}

} // verus!
