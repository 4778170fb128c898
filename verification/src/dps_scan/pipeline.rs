//! Assembling the scan report from the SBOM's packages and what OSV says of them.
use vstd::prelude::*;

use crate::dps_scan::models::{
    clone_json, DependencyFinding, DependencyType, DpsScanResult,
};
use crate::dps_scan::purl::{parse_purl, purl_ecosystem, purl_name, purl_version};
use crate::dps_scan::sbom::{strings_view, DependencyTypes};
use crate::keyed::{keyed_get, keyed_view};
use crate::text::{chars_less, chars_lt, chars_of, lemma_chars_lt_irreflexive,
    lemma_chars_lt_lexicographic, lemma_chars_lt_total, lemma_chars_lt_transitive};

verus! {

/// The abstract content of a finding.
pub struct FindingView {
    pub purl: Seq<char>,
    pub name: Seq<char>,
    pub version: Seq<char>,
    pub ecosystem: Seq<char>,
    pub dependency_type: DependencyType,
    pub vulnerabilities: Seq<serde_json::Value>,
}

impl View for DependencyFinding {
    type V = FindingView;

    open spec fn view(&self) -> FindingView {
        FindingView {
            purl: self.purl@,
            name: self.name@,
            version: self.version@,
            ecosystem: self.ecosystem@,
            dependency_type: self.dependency_type,
            vulnerabilities: self.vulnerabilities@,
        }
    }
}

/// The abstract content of a list of findings.
pub open spec fn findings_view(v: Seq<DependencyFinding>) -> Seq<FindingView> {
    v.map_values(|f: DependencyFinding| f@)
}

/// The vulnerability ids OSV reported for each package, by view.
pub open spec fn ids_view(v: Seq<Option<Vec<String>>>) -> Seq<Option<Seq<Seq<char>>>> {
    v.map_values(
        |o: Option<Vec<String>>|
            match o {
                Some(ids) => Some(strings_view(ids@)),
                None => None,
            },
    )
}

/// The full OSV records of the given ids, in order, leaving out ids without a record.
pub open spec fn vulns_for(
    ids: Seq<Seq<char>>,
    details: Map<Seq<char>, serde_json::Value>,
) -> Seq<serde_json::Value>
    decreases ids.len(),
{
    if ids.len() == 0 {
        Seq::empty()
    } else {
        vulns_for(ids.drop_last(), details) + if details.contains_key(ids.last()) {
            seq![details[ids.last()]]
        } else {
            Seq::empty()
        }
    }
}

/// The finding for one package: there is one when OSV reported ids for it and at
/// least one of them has a record. A package without a dependency type counts as
/// transitive.
pub open spec fn finding_for(
    purl: Seq<char>,
    ids: Option<Seq<Seq<char>>>,
    types: Map<Seq<char>, DependencyType>,
    details: Map<Seq<char>, serde_json::Value>,
) -> Option<FindingView> {
    match ids {
        None => None,
        Some(ids) => {
            let vulns = vulns_for(ids, details);
            if ids.len() == 0 || vulns.len() == 0 {
                None
            } else {
                Some(
                    FindingView {
                        purl,
                        name: purl_name(purl),
                        version: purl_version(purl),
                        ecosystem: purl_ecosystem(purl),
                        dependency_type: if types.contains_key(purl) {
                            types[purl]
                        } else {
                            DependencyType::Transitive
                        },
                        vulnerabilities: vulns,
                    },
                )
            }
        },
    }
}

/// An optional value as a sequence of none or one element.
pub open spec fn opt_seq<A>(o: Option<A>) -> Seq<A> {
    match o {
        Some(a) => seq![a],
        None => Seq::empty(),
    }
}

/// The findings of the first `n` packages, in package order.
pub open spec fn collect_findings(
    purls: Seq<Seq<char>>,
    ids: Seq<Option<Seq<Seq<char>>>>,
    types: Map<Seq<char>, DependencyType>,
    details: Map<Seq<char>, serde_json::Value>,
    n: nat,
) -> Seq<FindingView>
    decreases n,
{
    if n == 0 {
        Seq::empty()
    } else {
        collect_findings(purls, ids, types, details, (n - 1) as nat) + opt_seq(
            finding_for(purls[n - 1], ids[n - 1], types, details),
        )
    }
}

/// The findings of all packages that have an OSV answer (packages and answers are
/// paired by position), in package order.
pub open spec fn all_findings(
    purls: Seq<Seq<char>>,
    ids: Seq<Option<Seq<Seq<char>>>>,
    types: Map<Seq<char>, DependencyType>,
    details: Map<Seq<char>, serde_json::Value>,
) -> Seq<FindingView> {
    let n = if purls.len() <= ids.len() {
        purls.len()
    } else {
        ids.len()
    };
    collect_findings(purls, ids, types, details, n)
}

/// The report order: direct dependencies first, then by name.
pub open spec fn finding_lt(a: FindingView, b: FindingView) -> bool {
    let ad = a.dependency_type == DependencyType::Direct;
    let bd = b.dependency_type == DependencyType::Direct;
    (ad && !bd) || (ad == bd && chars_lt(a.name, b.name))
}

/// Inserts `x` into a sorted list after every element that does not come after it.
pub open spec fn insert_sorted(t: Seq<FindingView>, x: FindingView) -> Seq<FindingView>
    decreases t.len(),
{
    if t.len() == 0 {
        seq![x]
    } else if finding_lt(x, t.last()) {
        insert_sorted(t.drop_last(), x).push(t.last())
    } else {
        t.push(x)
    }
}

/// The stable sort of a list of findings in report order.
pub open spec fn sort_findings(s: Seq<FindingView>) -> Seq<FindingView>
    decreases s.len(),
{
    if s.len() == 0 {
        s
    } else {
        insert_sorted(sort_findings(s.drop_last()), s.last())
    }
}

/// The number of direct findings.
pub open spec fn count_direct(s: Seq<FindingView>) -> nat
    decreases s.len(),
{
    if s.len() == 0 {
        0
    } else {
        count_direct(s.drop_last()) + if s.last().dependency_type == DependencyType::Direct {
            1nat
        } else {
            0nat
        }
    }
}

/// No element of the list comes before an earlier one.
pub open spec fn is_sorted(s: Seq<FindingView>) -> bool {
    forall|i: int, j: int| 0 <= i < j < s.len() ==> !finding_lt(#[trigger] s[j], #[trigger] s[i])
}

proof fn lemma_count_direct_le(s: Seq<FindingView>)
    ensures
        count_direct(s) <= s.len(),
    decreases s.len(),
{
    if s.len() > 0 {
        lemma_count_direct_le(s.drop_last());
    }
}

/// Inserting at the position the scan from the back stops at.
proof fn lemma_insert_sorted_at(t: Seq<FindingView>, x: FindingView, pos: int)
    requires
        0 <= pos <= t.len(),
        forall|k: int| pos <= k < t.len() ==> finding_lt(x, #[trigger] t[k]),
        pos == 0 || !finding_lt(x, t[pos - 1]),
    ensures
        insert_sorted(t, x) == t.take(pos) + seq![x] + t.skip(pos),
    decreases t.len(),
{
    if t.len() == 0 {
        assert(t.take(pos) + seq![x] + t.skip(pos) =~= seq![x]);
    } else if pos == t.len() {
        assert(!finding_lt(x, t.last()));
        assert(t.take(pos) + seq![x] + t.skip(pos) =~= t.push(x));
    } else {
        assert(finding_lt(x, t[t.len() - 1]));
        let t2 = t.drop_last();
        assert forall|k: int| pos <= k < t2.len() implies finding_lt(x, #[trigger] t2[k]) by {
            assert(t2[k] == t[k]);
        }
        if pos > 0 {
            assert(t2[pos - 1] == t[pos - 1]);
        }
        lemma_insert_sorted_at(t2, x, pos);
        assert((t2.take(pos) + seq![x] + t2.skip(pos)).push(t.last()) =~= t.take(pos) + seq![x]
            + t.skip(pos));
    }
}

/// Orders two findings in report order.
fn finding_less(a: &DependencyFinding, b: &DependencyFinding) -> (r: bool)
    ensures
        r == finding_lt(a@, b@),
{
    let ad = match a.dependency_type {
        DependencyType::Direct => true,
        DependencyType::Transitive => false,
    };
    let bd = match b.dependency_type {
        DependencyType::Direct => true,
        DependencyType::Transitive => false,
    };
    if ad && !bd {
        true
    } else if ad == bd {
        let an = chars_of(a.name.as_str());
        let bn = chars_of(b.name.as_str());
        chars_less(an.as_slice(), bn.as_slice())
    } else {
        false
    }
}

/// Inserts a finding into a list kept in report order.
fn insert_finding(sorted: &mut Vec<DependencyFinding>, x: DependencyFinding)
    ensures
        findings_view(final(sorted)@) == insert_sorted(findings_view(old(sorted)@), x@),
{
    let ghost t = findings_view(sorted@);
    let mut pos = sorted.len();
    while pos > 0 && finding_less(&x, &sorted[pos - 1])
        invariant
            pos <= sorted@.len(),
            t == findings_view(sorted@),
            forall|k: int| pos <= k < t.len() ==> finding_lt(x@, #[trigger] t[k]),
        decreases pos,
    {
        pos = pos - 1;
    }
    proof {
        lemma_insert_sorted_at(t, x@, pos as int);
    }
    let ghost xv = x@;
    sorted.insert(pos, x);
    assert(findings_view(sorted@) =~= t.take(pos as int) + seq![xv] + t.skip(pos as int));
}

/// The OSV records for a list of ids, in order.
fn vulns_exec(ids: &Vec<String>, details: &Vec<(String, serde_json::Value)>) -> (r: Vec<
    serde_json::Value,
>)
    ensures
        r@ == vulns_for(strings_view(ids@), keyed_view(details@)),
{
    let ghost iv = strings_view(ids@);
    let ghost dm = keyed_view(details@);
    let mut r: Vec<serde_json::Value> = Vec::new();
    let n = ids.len();
    for i in 0..n
        invariant
            n == ids@.len(),
            iv == strings_view(ids@),
            dm == keyed_view(details@),
            r@ == vulns_for(iv.take(i as int), dm),
    {
        assert(iv.take(i + 1).drop_last() == iv.take(i as int));
        assert(iv.take(i + 1).last() == ids@[i as int]@);
        match keyed_get(details, ids[i].as_str()) {
            Some(v) => {
                r.push(clone_json(v));
            },
            None => {},
        }
        assert(r@ == vulns_for(iv.take(i + 1), dm));
    }
    assert(iv.take(n as int) == iv);
    r
}

/// The finding for one package, if it has one.
fn finding_exec(
    purl: &String,
    ids: &Option<Vec<String>>,
    types: &DependencyTypes,
    details: &Vec<(String, serde_json::Value)>,
) -> (r: Option<DependencyFinding>)
    ensures
        match r {
            Some(f) => finding_for(
                purl@,
                match ids {
                    Some(v) => Some(strings_view(v@)),
                    None => None,
                },
                types@,
                keyed_view(details@),
            ) == Some(f@),
            None => finding_for(
                purl@,
                match ids {
                    Some(v) => Some(strings_view(v@)),
                    None => None,
                },
                types@,
                keyed_view(details@),
            ) is None,
        },
{
    match ids {
        None => None,
        Some(v) => {
            if v.len() == 0 {
                return None;
            }
            let vulns = vulns_exec(v, details);
            if vulns.len() == 0 {
                return None;
            }
            let (name, version, ecosystem) = parse_purl(purl.as_str());
            let dependency_type = match types.get(purl.as_str()) {
                Some(t) => t,
                None => DependencyType::Transitive,
            };
            Some(
                DependencyFinding {
                    purl: purl.clone(),
                    name,
                    version,
                    ecosystem,
                    dependency_type,
                    vulnerabilities: vulns,
                },
            )
        },
    }
}

/// Builds the scan report. `purls` are the scanned packages and `vuln_ids` what
/// OSV answered for each of them, paired by position; `details` are the full
/// OSV records by id. A package is reported when OSV gave it ids of which at
/// least one has a record; the findings are sorted direct first, then by name,
/// keeping the package order among equals.
pub fn assemble_scan_result(
    purls: &Vec<String>,
    dep_types: &DependencyTypes,
    vuln_ids: &Vec<Option<Vec<String>>>,
    details: &Vec<(String, serde_json::Value)>,
) -> (r: DpsScanResult)
    ensures
        findings_view(r.findings@) == sort_findings(
            all_findings(
                strings_view(purls@),
                ids_view(vuln_ids@),
                dep_types@,
                keyed_view(details@),
            ),
        ),
        r.total_scanned == purls@.len(),
        r.vulnerable_count == r.findings@.len(),
        r.direct_count == count_direct(findings_view(r.findings@)),
        r.transitive_count == r.vulnerable_count - r.direct_count,
{
    let ghost pv = strings_view(purls@);
    let ghost iv = ids_view(vuln_ids@);
    let ghost types = dep_types@;
    let ghost dm = keyed_view(details@);
    let n = if purls.len() <= vuln_ids.len() {
        purls.len()
    } else {
        vuln_ids.len()
    };
    let mut findings: Vec<DependencyFinding> = Vec::new();
    for k in 0..n
        invariant
            n <= purls@.len(),
            n <= vuln_ids@.len(),
            pv == strings_view(purls@),
            iv == ids_view(vuln_ids@),
            types == dep_types@,
            dm == keyed_view(details@),
            findings_view(findings@) == sort_findings(
                collect_findings(pv, iv, types, dm, k as nat),
            ),
    {
        let ghost before = collect_findings(pv, iv, types, dm, k as nat);
        let f = finding_exec(&purls[k], &vuln_ids[k], dep_types, details);
        assert(pv[k as int] == purls@[k as int]@);
        assert(iv[k as int] == match vuln_ids@[k as int] {
            Some(v) => Some(strings_view(v@)),
            None => None,
        });
        match f {
            Some(f) => {
                let ghost fv = f@;
                insert_finding(&mut findings, f);
                assert(collect_findings(pv, iv, types, dm, (k + 1) as nat) == before.push(fv));
                assert(before.push(fv).drop_last() == before);
            },
            None => {
                assert(collect_findings(pv, iv, types, dm, (k + 1) as nat) == before);
            },
        }
    }
    let total_scanned = purls.len();
    let vulnerable_count = findings.len();
    let mut direct_count: usize = 0;
    let ghost fv = findings_view(findings@);
    for i in 0..vulnerable_count
        invariant
            vulnerable_count == findings@.len(),
            fv == findings_view(findings@),
            direct_count == count_direct(fv.take(i as int)),
            direct_count <= i,
    {
        assert(fv.take(i + 1).drop_last() == fv.take(i as int));
        assert(fv.take(i + 1).last() == findings@[i as int]@);
        match findings[i].dependency_type {
            DependencyType::Direct => {
                direct_count = direct_count + 1;
            },
            DependencyType::Transitive => {},
        }
    }
    assert(fv.take(vulnerable_count as int) == fv);
    DpsScanResult {
        total_scanned,
        vulnerable_count,
        direct_count,
        transitive_count: vulnerable_count - direct_count,
        findings,
    }
}

/// Where `insert_sorted` puts the new element.
pub open spec fn insert_pos(t: Seq<FindingView>, x: FindingView) -> int
    decreases t.len(),
{
    if t.len() == 0 {
        0
    } else if finding_lt(x, t.last()) {
        insert_pos(t.drop_last(), x)
    } else {
        t.len() as int
    }
}

proof fn lemma_insert_pos(t: Seq<FindingView>, x: FindingView)
    ensures
        0 <= insert_pos(t, x) <= t.len(),
        insert_sorted(t, x) == t.insert(insert_pos(t, x), x),
        forall|k: int| insert_pos(t, x) <= k < t.len() ==> finding_lt(x, #[trigger] t[k]),
        insert_pos(t, x) == 0 || !finding_lt(x, t[insert_pos(t, x) - 1]),
    decreases t.len(),
{
    let p = insert_pos(t, x);
    if t.len() > 0 && finding_lt(x, t.last()) {
        let t2 = t.drop_last();
        lemma_insert_pos(t2, x);
        assert forall|k: int| p <= k < t.len() implies finding_lt(x, #[trigger] t[k]) by {
            if k < t2.len() {
                assert(t2[k] == t[k]);
            }
        }
        if p > 0 {
            assert(t2[p - 1] == t[p - 1]);
        }
        assert(t2.insert(p, x).push(t.last()) =~= t.insert(p, x));
    } else if t.len() > 0 {
        assert(t.push(x) =~= t.insert(p, x));
    } else {
        assert(seq![x] =~= t.insert(0, x));
    }
}

proof fn lemma_finding_lt_asymmetric(a: FindingView, b: FindingView)
    requires
        finding_lt(a, b),
    ensures
        !finding_lt(b, a),
{
    if a.dependency_type == b.dependency_type && chars_lt(b.name, a.name) {
        lemma_chars_lt_transitive(a.name, b.name, a.name);
        lemma_chars_lt_irreflexive(a.name);
    }
}

proof fn lemma_finding_lt_negative_transitive(a: FindingView, b: FindingView, c: FindingView)
    requires
        !finding_lt(a, b),
        !finding_lt(b, c),
    ensures
        !finding_lt(a, c),
{
    if finding_lt(a, c) {
        let ad = a.dependency_type == DependencyType::Direct;
        let bd = b.dependency_type == DependencyType::Direct;
        let cd = c.dependency_type == DependencyType::Direct;
        if ad == bd && bd == cd {
            if !chars_lt(a.name, b.name) && !chars_lt(b.name, c.name) {
                if chars_lt(b.name, a.name) {
                    lemma_chars_lt_transitive(b.name, a.name, c.name);
                } else {
                    lemma_chars_lt_total(a.name, b.name);
                }
            }
        }
    }
}

/// Inserting into a list in report order keeps it in report order.
proof fn lemma_insert_sorted_sorted(t: Seq<FindingView>, x: FindingView)
    requires
        is_sorted(t),
    ensures
        is_sorted(insert_sorted(t, x)),
{
    lemma_insert_pos(t, x);
    let p = insert_pos(t, x);
    let r = insert_sorted(t, x);
    assert forall|i: int, j: int| 0 <= i < j < r.len() implies !finding_lt(
        #[trigger] r[j],
        #[trigger] r[i],
    ) by {
        if j < p {
            assert(r[i] == t[i] && r[j] == t[j]);
        } else if j == p {
            assert(r[j] == x && r[i] == t[i]);
            assert(!finding_lt(x, t[p - 1]));
            if i < p - 1 {
                assert(!finding_lt(t[p - 1], t[i]));
                lemma_finding_lt_negative_transitive(x, t[p - 1], t[i]);
            }
        } else if i == p {
            assert(r[i] == x && r[j] == t[j - 1]);
            lemma_finding_lt_asymmetric(x, t[j - 1]);
        } else if i < p {
            assert(r[i] == t[i] && r[j] == t[j - 1]);
        } else {
            assert(r[i] == t[i - 1] && r[j] == t[j - 1]);
        }
    }
}

/// Sorting the findings puts them in report order (direct first, then by name)
/// and keeps exactly the same findings.
pub proof fn lemma_sort_findings_sorted_permutation(s: Seq<FindingView>)
    ensures
        is_sorted(sort_findings(s)),
        sort_findings(s).to_multiset() == s.to_multiset(),
    decreases s.len(),
{
    broadcast use vstd::seq_lib::group_to_multiset_ensures;

    if s.len() > 0 {
        let s2 = s.drop_last();
        lemma_sort_findings_sorted_permutation(s2);
        let t = sort_findings(s2);
        lemma_insert_sorted_sorted(t, s.last());
        lemma_insert_pos(t, s.last());
        vstd::seq_lib::to_multiset_insert(t, insert_pos(t, s.last()), s.last());
        vstd::seq_lib::to_multiset_build(s2, s.last());
        assert(s2.push(s.last()) == s);
    }
}

/// The report order, stated for any two findings of the sorted report, the one
/// at `i` before the one at `j`: a direct finding never comes after a transitive
/// one, and between findings of the same type the names follow `String::cmp`:
/// the later name is never a proper prefix of the earlier one, and where the two
/// names first differ, the earlier one has the smaller character.
pub proof fn lemma_report_order(s: Seq<FindingView>, i: int, j: int)
    requires
        0 <= i < j < sort_findings(s).len(),
    ensures
        sort_findings(s)[i].dependency_type == DependencyType::Transitive
            ==> sort_findings(s)[j].dependency_type == DependencyType::Transitive,
        sort_findings(s)[i].dependency_type == sort_findings(s)[j].dependency_type
            && sort_findings(s)[i].name.len() > sort_findings(s)[j].name.len() ==> sort_findings(
            s,
        )[i].name.take(sort_findings(s)[j].name.len() as int) != sort_findings(s)[j].name,
        forall|k: int|
            sort_findings(s)[i].dependency_type == sort_findings(s)[j].dependency_type && 0 <= k
                < sort_findings(s)[i].name.len() && k < sort_findings(s)[j].name.len()
                && sort_findings(s)[i].name.take(k) == sort_findings(s)[j].name.take(k)
                && sort_findings(s)[i].name[k] != sort_findings(s)[j].name[k] ==> (
            #[trigger] sort_findings(s)[i].name[k] as int) < (sort_findings(s)[j].name[k] as int),
{
    lemma_sort_findings_sorted_permutation(s);
    let r = sort_findings(s);
    let a = r[i].name;
    let b = r[j].name;
    assert(!finding_lt(r[j], r[i]));
    lemma_chars_lt_lexicographic(b, a);
    assert forall|k: int|
        r[i].dependency_type == r[j].dependency_type && 0 <= k < a.len() && k < b.len() && a.take(k)
            == b.take(k) && a[k] != b[k] implies (#[trigger] a[k] as int) < (b[k] as int) by {
        if (b[k] as int) < (a[k] as int) {
            assert(b.take(k) == a.take(k));
            assert(chars_lt(b, a));
        }
    }
}

/// Every reported finding is one of the scanned packages and carries at least
/// one vulnerability record.
pub proof fn lemma_findings_are_vulnerable_packages(
    purls: Seq<Seq<char>>,
    ids: Seq<Option<Seq<Seq<char>>>>,
    types: Map<Seq<char>, DependencyType>,
    details: Map<Seq<char>, serde_json::Value>,
    n: nat,
)
    requires
        n <= purls.len(),
        n <= ids.len(),
    ensures
        forall|i: int|
            0 <= i < collect_findings(purls, ids, types, details, n).len() ==> {
                let f = #[trigger] collect_findings(purls, ids, types, details, n)[i];
                &&& f.vulnerabilities.len() > 0
                &&& purls.take(n as int).contains(f.purl)
            },
    decreases n,
{
    if n > 0 {
        lemma_findings_are_vulnerable_packages(purls, ids, types, details, (n - 1) as nat);
        let prev = collect_findings(purls, ids, types, details, (n - 1) as nat);
        let cur = collect_findings(purls, ids, types, details, n);
        assert forall|i: int| 0 <= i < cur.len() implies {
            let f = #[trigger] cur[i];
            &&& f.vulnerabilities.len() > 0
            &&& purls.take(n as int).contains(f.purl)
        } by {
            if i < prev.len() {
                assert(cur[i] == prev[i]);
                let f = prev[i];
                let pt = purls.take(n - 1);
                let w = choose|w: int| 0 <= w < pt.len() && #[trigger] pt[w] == f.purl;
                assert(purls.take(n as int)[w] == f.purl);
            } else {
                assert(purls.take(n as int)[n - 1] == purls[n - 1]);
            }
        }
    }
}

} // verus!
