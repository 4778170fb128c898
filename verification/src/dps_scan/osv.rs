//! What the scanner asks OSV and how it reads the answers.
use vstd::prelude::*;

use crate::dps_scan::pipeline::ids_view;
use crate::dps_scan::sbom::strings_view;
use crate::text::str_eq;

verus! {

/// The largest number of queries OSV accepts in one batch request.
pub const OSV_BATCH_LIMIT: usize = 999;

/// The OSV endpoint that answers a batch of queries.
pub fn osv_batch_url() -> (r: &'static str)
    ensures
        r@ == "https://api.osv.dev/v1/querybatch"@,
{
    "https://api.osv.dev/v1/querybatch"
}

/// The OSV URL of one vulnerability's full record.
pub fn osv_vuln_url(id: &str) -> (r: String)
    ensures
        r@ == "https://api.osv.dev/v1/vulns/"@ + id@,
{
    String::from_str("https://api.osv.dev/v1/vulns/").concat(id)
}

/// `s` cut into consecutive pieces of `size` elements, the last one possibly
/// shorter (`slice::chunks`).
pub open spec fn chunks_of<A>(s: Seq<A>, size: nat) -> Seq<Seq<A>>
    decreases s.len(),
{
    if s.len() == 0 || size == 0 {
        Seq::empty()
    } else if s.len() <= size {
        seq![s]
    } else {
        seq![s.take(size as int)] + chunks_of(s.skip(size as int), size)
    }
}

/// Cuts the package URLs into batches of at most `OSV_BATCH_LIMIT`, in order.
pub fn osv_batches(purls: &Vec<String>) -> (r: Vec<Vec<String>>)
    ensures
        r@.map_values(|b: Vec<String>| strings_view(b@)) == chunks_of(
            strings_view(purls@),
            OSV_BATCH_LIMIT as nat,
        ),
{
    let ghost pv = strings_view(purls@);
    let ghost size = OSV_BATCH_LIMIT as nat;
    let n = purls.len();
    let mut r: Vec<Vec<String>> = Vec::new();
    let mut i: usize = 0;
    assert(pv.skip(0) == pv);
    while i < n
        invariant
            n == purls@.len(),
            pv == strings_view(purls@),
            size == OSV_BATCH_LIMIT as nat,
            i <= n,
            r@.map_values(|b: Vec<String>| strings_view(b@)) + chunks_of(pv.skip(i as int), size)
                == chunks_of(pv, size),
        decreases n - i,
    {
        let end = if n - i <= OSV_BATCH_LIMIT {
            n
        } else {
            i + OSV_BATCH_LIMIT
        };
        let mut batch: Vec<String> = Vec::new();
        let mut j = i;
        while j < end
            invariant
                i <= j <= end <= n,
                n == purls@.len(),
                strings_view(batch@) == pv.subrange(i as int, j as int),
                pv == strings_view(purls@),
            decreases end - j,
        {
            let ghost before = strings_view(batch@);
            batch.push(purls[j].clone());
            assert(pv[j as int] == purls@[j as int]@);
            assert(strings_view(batch@) =~= before.push(pv[j as int]));
            assert(strings_view(batch@) =~= pv.subrange(i as int, j + 1));
            j = j + 1;
        }
        let ghost rest = pv.skip(i as int);
        let ghost before = r@.map_values(|b: Vec<String>| strings_view(b@));
        proof {
            if n - i <= OSV_BATCH_LIMIT {
                assert(pv.subrange(i as int, n as int) == rest);
                assert(pv.skip(n as int).len() == 0);
                assert(chunks_of(pv.skip(n as int), size) == Seq::<Seq<Seq<char>>>::empty());
            } else {
                assert(pv.subrange(i as int, end as int) == rest.take(size as int));
                assert(rest.skip(size as int) == pv.skip(end as int));
            }
        }
        r.push(batch);
        assert(r@.map_values(|b: Vec<String>| strings_view(b@)) == before.push(
            pv.subrange(i as int, end as int),
        ));
        i = end;
        assert(r@.map_values(|b: Vec<String>| strings_view(b@)) + chunks_of(pv.skip(i as int), size)
            == chunks_of(pv, size));
    }
    assert(pv.skip(n as int).len() == 0);
    assert(r@.map_values(|b: Vec<String>| strings_view(b@)) + Seq::<Seq<Seq<char>>>::empty()
        == r@.map_values(|b: Vec<String>| strings_view(b@)));
    r
}

/// Cutting into pieces loses nothing and reorders nothing: the pieces put back
/// together give the sequence, and each piece has between one and `size` elements.
pub proof fn lemma_chunks_of_partition<A>(s: Seq<A>, size: nat)
    requires
        size > 0,
    ensures
        chunks_of(s, size).flatten() == s,
        forall|k: int|
            0 <= k < chunks_of(s, size).len() ==> 0 < (#[trigger] chunks_of(s, size)[k]).len()
                <= size,
    decreases s.len(),
{
    let c = chunks_of(s, size);
    if s.len() == 0 {
    } else if s.len() <= size {
        assert(c.drop_first() == Seq::<Seq<A>>::empty());
        assert(c.drop_first().flatten() == Seq::<A>::empty());
        assert(c.flatten() == c.first() + c.drop_first().flatten());
        assert(s + Seq::<A>::empty() == s);
    } else {
        let rest = s.skip(size as int);
        lemma_chunks_of_partition(rest, size);
        assert(c.first() == s.take(size as int));
        assert(c.drop_first() == chunks_of(rest, size));
        assert(s.take(size as int) + rest == s);
        assert forall|k: int| 0 <= k < c.len() implies 0 < (#[trigger] c[k]).len() <= size by {
            if k > 0 {
                assert(c[k] == chunks_of(rest, size)[k - 1]);
            }
        }
    }
}

/// What OSV answered for one query: the ids when there are any.
pub fn ids_or_none(ids: Vec<String>) -> (r: Option<Vec<String>>)
    ensures
        r == (if ids@.len() == 0 {
            None
        } else {
            Some(ids)
        }),
{
    if ids.len() == 0 {
        None
    } else {
        Some(ids)
    }
}

/// All vulnerability ids reported for any package, in order, with repetitions.
pub open spec fn reported_ids(per: Seq<Option<Seq<Seq<char>>>>) -> Seq<Seq<char>>
    decreases per.len(),
{
    if per.len() == 0 {
        Seq::empty()
    } else {
        reported_ids(per.drop_last()) + match per.last() {
            Some(v) => v,
            None => Seq::empty(),
        }
    }
}

/// Whether a list of strings holds `s`.
pub fn contains_string(v: &Vec<String>, s: &str) -> (r: bool)
    ensures
        r == strings_view(v@).contains(s@),
{
    let n = v.len();
    for i in 0..n
        invariant
            n == v@.len(),
            forall|k: int| 0 <= k < i ==> v@[k]@ != s@,
    {
        if str_eq(v[i].as_str(), s) {
            assert(strings_view(v@)[i as int] == s@);
            return true;
        }
    }
    assert forall|k: int| 0 <= k < strings_view(v@).len() implies strings_view(v@)[k] != s@ by {
        assert(strings_view(v@)[k] == v@[k]@);
    }
    false
}

/// The distinct vulnerability ids reported for any package.
pub fn unique_vuln_ids(per_purl: &Vec<Option<Vec<String>>>) -> (r: Vec<String>)
    ensures
        strings_view(r@).no_duplicates(),
        forall|x: Seq<char>|
            strings_view(r@).contains(x) <==> reported_ids(ids_view(per_purl@)).contains(x),
{
    let ghost iv = ids_view(per_purl@);
    let mut r: Vec<String> = Vec::new();
    let n = per_purl.len();
    for i in 0..n
        invariant
            n == per_purl@.len(),
            iv == ids_view(per_purl@),
            strings_view(r@).no_duplicates(),
            forall|x: Seq<char>|
                strings_view(r@).contains(x) <==> reported_ids(iv.take(i as int)).contains(x),
    {
        let ghost prefix = reported_ids(iv.take(i as int));
        assert(iv.take(i + 1).drop_last() == iv.take(i as int));
        match &per_purl[i] {
            Some(ids) => {
                let ghost idv = strings_view(ids@);
                assert(iv.take(i + 1).last() == Some(idv));
                let m = ids.len();
                for j in 0..m
                    invariant
                        m == ids@.len(),
                        idv == strings_view(ids@),
                        strings_view(r@).no_duplicates(),
                        forall|x: Seq<char>|
                            strings_view(r@).contains(x) <==> (prefix + idv.take(j as int)).contains(
                                x,
                            ),
                {
                    let ghost old_r = strings_view(r@);
                    let ghost a = prefix + idv.take(j as int);
                    let ghost b = prefix + idv.take(j + 1);
                    assert(b == a.push(idv[j as int]));
                    assert(idv[j as int] == ids@[j as int]@);
                    if !contains_string(&r, ids[j].as_str()) {
                        r.push(ids[j].clone());
                        assert(strings_view(r@) == old_r.push(idv[j as int]));
                        assert forall|x: Seq<char>| strings_view(r@).contains(x) <==> b.contains(x) by {
                            crate::dps_scan::sbom::lemma_push_contains(old_r, idv[j as int], x);
                            crate::dps_scan::sbom::lemma_push_contains(a, idv[j as int], x);
                        }
                        assert forall|p: int, q: int|
                            0 <= p < q < strings_view(r@).len() implies strings_view(r@)[p]
                            != strings_view(r@)[q] by {
                            if q == old_r.len() {
                                assert(strings_view(r@)[p] == old_r[p]);
                            } else {
                                assert(strings_view(r@)[p] == old_r[p]);
                                assert(strings_view(r@)[q] == old_r[q]);
                            }
                        }
                    } else {
                        assert forall|x: Seq<char>| strings_view(r@).contains(x) <==> b.contains(x) by {
                            crate::dps_scan::sbom::lemma_push_contains(a, idv[j as int], x);
                        }
                    }
                }
                assert(idv.take(m as int) == idv);
            },
            None => {
                assert(iv.take(i + 1).last() == None::<Seq<Seq<char>>>);
                assert(prefix + Seq::<Seq<char>>::empty() == prefix);
            },
        }
    }
    assert(iv.take(n as int) == iv);
    r
}

} // verus!
