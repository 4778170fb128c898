//! CycloneDX SBOMs: which library packages they list, and which of those the
//! scanned package depends on directly.
use vstd::prelude::*;

use crate::dps_scan::models::DependencyType;
use vstd::hash_map::StringHashMap;
use crate::text::{chars_of, has_prefix, starts_with, str_eq};

verus! {

/// A component of the SBOM.
pub struct CdxComponent {
    /// The component's `bom-ref`.
    pub bom_ref: Option<String>,
    /// The component's `type` (`library`, `application`, ...).
    pub component_type: Option<String>,
    pub purl: Option<String>,
}

/// The SBOM's metadata: the component that was scanned.
pub struct CdxMetadata {
    pub component: Option<CdxComponent>,
}

/// One entry of the SBOM's dependency graph.
pub struct CdxDependency {
    /// The `ref` of the component whose dependencies this entry lists.
    pub reference: String,
    /// The `dependsOn` list.
    pub depends_on: Vec<String>,
}

/// A CycloneDX SBOM, as far as the scanner reads it.
pub struct CycloneDxBom {
    pub metadata: Option<CdxMetadata>,
    pub components: Vec<CdxComponent>,
    pub dependencies: Vec<CdxDependency>,
}

/// The character views of a sequence of strings.
pub open spec fn strings_view(v: Seq<String>) -> Seq<Seq<char>> {
    v.map_values(|s: String| s@)
}

/// The `bom-ref` of the scanned component, if the SBOM names one.
pub open spec fn root_ref(bom: CycloneDxBom) -> Option<Seq<char>> {
    match bom.metadata {
        Some(m) => match m.component {
            Some(c) => match c.bom_ref {
                Some(r) => Some(r@),
                None => None,
            },
            None => None,
        },
        None => None,
    }
}

/// `i` is the first dependency entry whose `ref` is `root`.
pub open spec fn is_root_entry(deps: Seq<CdxDependency>, root: Seq<char>, i: int) -> bool {
    &&& 0 <= i < deps.len()
    &&& deps[i].reference@ == root
    &&& forall|k: int| 0 <= k < i ==> deps[k].reference@ != root
}

/// The SBOM has a dependency entry for `root`.
pub open spec fn has_root_entry(deps: Seq<CdxDependency>, root: Seq<char>) -> bool {
    exists|i: int| is_root_entry(deps, root, i)
}

/// The position of the first dependency entry for `root`.
pub open spec fn root_entry_index(deps: Seq<CdxDependency>, root: Seq<char>) -> int {
    choose|i: int| is_root_entry(deps, root, i)
}

/// The packages the scanned component depends on directly: the `dependsOn` list
/// of the first dependency entry of the scanned component (empty when there is none).
pub open spec fn direct_refs(bom: CycloneDxBom) -> Seq<Seq<char>> {
    match root_ref(bom) {
        Some(root) => if has_root_entry(bom.dependencies@, root) {
            strings_view(bom.dependencies@[root_entry_index(bom.dependencies@, root)].depends_on@)
        } else {
            Seq::empty()
        },
        None => Seq::empty(),
    }
}

/// A component without a type counts as a library.
pub open spec fn is_library(c: CdxComponent) -> bool {
    match c.component_type {
        Some(t) => t@ == "library"@,
        None => true,
    }
}

/// Package URLs that are not scanned: GitHub Actions and Python build tools.
pub open spec fn is_excluded_purl(p: Seq<char>) -> bool {
    ||| has_prefix(p, "pkg:github/"@)
    ||| has_prefix(p, "pkg:pypi/pip@"@)
    ||| has_prefix(p, "pkg:pypi/wheel@"@)
    ||| has_prefix(p, "pkg:pypi/setuptools@"@)
}

/// The package URL a component contributes to the scan (none, or one).
pub open spec fn listed_purl(c: CdxComponent) -> Seq<Seq<char>> {
    match c.purl {
        Some(p) => if is_library(c) && !is_excluded_purl(p@) {
            seq![p@]
        } else {
            Seq::empty()
        },
        None => Seq::empty(),
    }
}

/// The package URLs of the library components, in SBOM order.
pub open spec fn library_purls(comps: Seq<CdxComponent>) -> Seq<Seq<char>>
    decreases comps.len(),
{
    if comps.len() == 0 {
        Seq::empty()
    } else {
        library_purls(comps.drop_last()) + listed_purl(comps.last())
    }
}

/// The dependency type of every package: direct when the scanned component
/// depends on it, transitive when the SBOM lists it as a library otherwise.
pub open spec fn expected_dependency_types(bom: CycloneDxBom) -> Map<Seq<char>, DependencyType> {
    let direct = direct_refs(bom);
    let listed = library_purls(bom.components@);
    Map::new(
        |k: Seq<char>| direct.contains(k) || listed.contains(k),
        |k: Seq<char>|
            if direct.contains(k) {
                DependencyType::Direct
            } else {
                DependencyType::Transitive
            },
    )
}

/// A map from package URL to dependency type.
pub struct DependencyTypes {
    map: StringHashMap<DependencyType>,
}

impl View for DependencyTypes {
    type V = Map<Seq<char>, DependencyType>;

    closed spec fn view(&self) -> Map<Seq<char>, DependencyType> {
        self.map@
    }
}

impl DependencyTypes {
    /// An empty map.
    pub fn new() -> (r: DependencyTypes)
        ensures
            r@ == Map::<Seq<char>, DependencyType>::empty(),
    {
        DependencyTypes { map: StringHashMap::new() }
    }

    /// Sets the type of `purl`.
    pub fn insert(&mut self, purl: String, t: DependencyType)
        ensures
            final(self)@ == old(self)@.insert(purl@, t),
    {
        self.map.insert(purl, t);
    }

    /// The type of `purl`, if it has one.
    pub fn get(&self, purl: &str) -> (r: Option<DependencyType>)
        ensures
            r == (if self@.contains_key(purl@) {
                Some(self@[purl@])
            } else {
                None
            }),
    {
        match self.map.get(purl) {
            Some(t) => Some(*t),
            None => None,
        }
    }

    /// Whether `purl` has a type.
    pub fn contains_key(&self, purl: &str) -> (r: bool)
        ensures
            r == self@.contains_key(purl@),
    {
        self.map.contains_key(purl)
    }
}

/// `x` is in `s.push(a)` when it is in `s` or is `a`.
pub proof fn lemma_push_contains<A>(s: Seq<A>, a: A, x: A)
    ensures
        s.push(a).contains(x) <==> (s.contains(x) || x == a),
{
    if s.contains(x) {
        let i = choose|i: int| 0 <= i < s.len() && s[i] == x;
        assert(s.push(a)[i] == x);
    }
    if x == a {
        assert(s.push(a)[s.len() as int] == a);
    }
    if s.push(a).contains(x) {
        let i = choose|i: int| 0 <= i < s.push(a).len() && s.push(a)[i] == x;
        if i < s.len() {
            assert(s[i] == x);
        }
    }
}

/// The URL `pkg:pypi/<name>@<version>` of a Python package.
pub open spec fn pypi_purl(name: Seq<char>, version: Seq<char>) -> Seq<char> {
    "pkg:pypi/"@ + name + "@"@ + version
}

/// A Python package URL starts with the URL prefix of a package named `tool`
/// only when its own name is `tool`.
proof fn lemma_pypi_prefix_names(n: Seq<char>, v: Seq<char>, tool: Seq<char>)
    requires
        !n.contains('@'),
        !tool.contains('@'),
        has_prefix(pypi_purl(n, v), "pkg:pypi/"@ + tool + "@"@),
    ensures
        n == tool,
{
    reveal_strlit("pkg:pypi/");
    reveal_strlit("@");
    let p = pypi_purl(n, v);
    let q = "pkg:pypi/"@ + tool + "@"@;
    let t = tool.len() as int;
    let m = n.len() as int;
    assert(p.take(q.len() as int) == q);
    if m < t {
        assert(p[9 + m] == '@');
        assert(p.take(q.len() as int)[9 + m] == p[9 + m]);
        assert(q[9 + m] == tool[m]);
    } else if m > t {
        assert(q[9 + t] == '@');
        assert(p.take(q.len() as int)[9 + t] == p[9 + t]);
        assert(p[9 + t] == n[t]);
    } else {
        assert forall|k: int| 0 <= k < m implies n[k] == tool[k] by {
            assert(p.take(q.len() as int)[9 + k] == p[9 + k]);
            assert(p[9 + k] == n[k]);
            assert(q[9 + k] == tool[k]);
        }
        assert(n =~= tool);
    }
}

/// Only GitHub Actions and the Python build tools themselves are left out: the
/// URL of a Python package whose name (with no `@` in it) is not exactly `pip`,
/// `wheel` or `setuptools` is not excluded, whatever the name starts with.
pub proof fn lemma_only_build_tools_excluded(n: Seq<char>, v: Seq<char>)
    requires
        !n.contains('@'),
        n != "pip"@,
        n != "wheel"@,
        n != "setuptools"@,
    ensures
        !is_excluded_purl(pypi_purl(n, v)),
{
    reveal_strlit("pkg:pypi/");
    reveal_strlit("pkg:github/");
    reveal_strlit("pkg:pypi/pip@");
    reveal_strlit("pkg:pypi/wheel@");
    reveal_strlit("pkg:pypi/setuptools@");
    reveal_strlit("pip");
    reveal_strlit("wheel");
    reveal_strlit("setuptools");
    reveal_strlit("@");
    let p = pypi_purl(n, v);
    if has_prefix(p, "pkg:github/"@) {
        assert(p.take(11)[4] == p[4]);
    }
    assert("pkg:pypi/pip@"@ =~= "pkg:pypi/"@ + "pip"@ + "@"@);
    assert("pkg:pypi/wheel@"@ =~= "pkg:pypi/"@ + "wheel"@ + "@"@);
    assert("pkg:pypi/setuptools@"@ =~= "pkg:pypi/"@ + "setuptools"@ + "@"@);
    if has_prefix(p, "pkg:pypi/pip@"@) {
        lemma_pypi_prefix_names(n, v, "pip"@);
    }
    if has_prefix(p, "pkg:pypi/wheel@"@) {
        lemma_pypi_prefix_names(n, v, "wheel"@);
    }
    if has_prefix(p, "pkg:pypi/setuptools@"@) {
        lemma_pypi_prefix_names(n, v, "setuptools"@);
    }
}

/// The build tools themselves are excluded: `pip`, `wheel` and `setuptools`
/// at any version, and every GitHub Action.
pub proof fn lemma_build_tools_excluded(v: Seq<char>, p: Seq<char>)
    ensures
        is_excluded_purl(pypi_purl("pip"@, v)),
        is_excluded_purl(pypi_purl("wheel"@, v)),
        is_excluded_purl(pypi_purl("setuptools"@, v)),
        has_prefix(p, "pkg:github/"@) ==> is_excluded_purl(p),
{
    reveal_strlit("pkg:pypi/");
    reveal_strlit("pkg:pypi/pip@");
    reveal_strlit("pkg:pypi/wheel@");
    reveal_strlit("pkg:pypi/setuptools@");
    reveal_strlit("pip");
    reveal_strlit("wheel");
    reveal_strlit("setuptools");
    reveal_strlit("@");
    assert(pypi_purl("pip"@, v).take(13) =~= "pkg:pypi/pip@"@);
    assert(pypi_purl("wheel"@, v).take(15) =~= "pkg:pypi/wheel@"@);
    assert(pypi_purl("setuptools"@, v).take(20) =~= "pkg:pypi/setuptools@"@);
}

/// A component listed by `listed_purl` shows up in the SBOM's library list.
proof fn lemma_listed_in_library_purls(comps: Seq<CdxComponent>, k: int, x: Seq<char>)
    requires
        0 <= k < comps.len(),
        listed_purl(comps[k]) == seq![x],
    ensures
        library_purls(comps).contains(x),
    decreases comps.len(),
{
    let prev = library_purls(comps.drop_last());
    if k == comps.len() - 1 {
        assert(library_purls(comps)[prev.len() as int] == x);
    } else {
        assert(comps.drop_last()[k] == comps[k]);
        lemma_listed_in_library_purls(comps.drop_last(), k, x);
        let i = choose|i: int| 0 <= i < prev.len() && prev[i] == x;
        assert(library_purls(comps)[i] == x);
    }
}

/// Every element of the library list is the URL of some library component that
/// is not excluded.
proof fn lemma_library_purls_sources(comps: Seq<CdxComponent>, x: Seq<char>)
    requires
        library_purls(comps).contains(x),
    ensures
        !is_excluded_purl(x),
    decreases comps.len(),
{
    let prev = library_purls(comps.drop_last());
    let i = choose|i: int| 0 <= i < library_purls(comps).len() && library_purls(comps)[i] == x;
    if i < prev.len() {
        assert(prev[i] == x);
        lemma_library_purls_sources(comps.drop_last(), x);
    }
}

/// The scan list of an SBOM holds the URL of every library component (one with
/// no type or the type `library`) that is a Python package whose name is not
/// exactly `pip`, `wheel` or `setuptools`; it never holds a URL of those build
/// tools or of a GitHub Action.
pub proof fn lemma_library_purls_membership(
    comps: Seq<CdxComponent>,
    k: int,
    n: Seq<char>,
    v: Seq<char>,
)
    requires
        0 <= k < comps.len(),
        ({
            let t = comps[k].component_type;
            t is None || t.unwrap()@ == "library"@
        }),
        comps[k].purl matches Some(p) && p@ == pypi_purl(n, v),
        !n.contains('@'),
        n != "pip"@,
        n != "wheel"@,
        n != "setuptools"@,
    ensures
        library_purls(comps).contains(pypi_purl(n, v)),
        !library_purls(comps).contains(pypi_purl("pip"@, v)),
        !library_purls(comps).contains(pypi_purl("wheel"@, v)),
        !library_purls(comps).contains(pypi_purl("setuptools"@, v)),
        forall|p: Seq<char>|
            has_prefix(p, "pkg:github/"@) ==> !#[trigger] library_purls(comps).contains(p),
{
    lemma_only_build_tools_excluded(n, v);
    lemma_listed_in_library_purls(comps, k, pypi_purl(n, v));
    lemma_build_tools_excluded(v, Seq::empty());
    if library_purls(comps).contains(pypi_purl("pip"@, v)) {
        lemma_library_purls_sources(comps, pypi_purl("pip"@, v));
    }
    if library_purls(comps).contains(pypi_purl("wheel"@, v)) {
        lemma_library_purls_sources(comps, pypi_purl("wheel"@, v));
    }
    if library_purls(comps).contains(pypi_purl("setuptools"@, v)) {
        lemma_library_purls_sources(comps, pypi_purl("setuptools"@, v));
    }
    assert forall|p: Seq<char>| has_prefix(p, "pkg:github/"@) implies !#[trigger] library_purls(
        comps,
    ).contains(p) by {
        lemma_build_tools_excluded(v, p);
        if library_purls(comps).contains(p) {
            lemma_library_purls_sources(comps, p);
        }
    }
}

/// A library component (one with no type or the type `library`) whose URL is
/// neither a GitHub Action's nor a Python package's is always in the scan list.
pub proof fn lemma_other_libraries_listed(comps: Seq<CdxComponent>, k: int, p: Seq<char>)
    requires
        0 <= k < comps.len(),
        ({
            let t = comps[k].component_type;
            t is None || t.unwrap()@ == "library"@
        }),
        comps[k].purl matches Some(q) && q@ == p,
        !has_prefix(p, "pkg:github/"@),
        !has_prefix(p, "pkg:pypi/"@),
    ensures
        library_purls(comps).contains(p),
{
    reveal_strlit("pkg:pypi/");
    reveal_strlit("pkg:pypi/pip@");
    reveal_strlit("pkg:pypi/wheel@");
    reveal_strlit("pkg:pypi/setuptools@");
    if has_prefix(p, "pkg:pypi/pip@"@) {
        assert(p.take(9) =~= p.take(13).take(9));
        assert("pkg:pypi/pip@"@.take(9) =~= "pkg:pypi/"@);
        assert(has_prefix(p, "pkg:pypi/"@));
    }
    if has_prefix(p, "pkg:pypi/wheel@"@) {
        assert(p.take(9) =~= p.take(15).take(9));
        assert("pkg:pypi/wheel@"@.take(9) =~= "pkg:pypi/"@);
        assert(has_prefix(p, "pkg:pypi/"@));
    }
    if has_prefix(p, "pkg:pypi/setuptools@"@) {
        assert(p.take(9) =~= p.take(20).take(9));
        assert("pkg:pypi/setuptools@"@.take(9) =~= "pkg:pypi/"@);
        assert(has_prefix(p, "pkg:pypi/"@));
    }
    assert(!is_excluded_purl(p));
    lemma_listed_in_library_purls(comps, k, p);
}

fn is_excluded_purl_exec(p: &str) -> (r: bool)
    ensures
        r == is_excluded_purl(p@),
{
    let pc = chars_of(p);
    let github = chars_of("pkg:github/");
    let pip = chars_of("pkg:pypi/pip@");
    let wheel = chars_of("pkg:pypi/wheel@");
    let setuptools = chars_of("pkg:pypi/setuptools@");
    starts_with(pc.as_slice(), github.as_slice()) || starts_with(pc.as_slice(), pip.as_slice())
        || starts_with(pc.as_slice(), wheel.as_slice()) || starts_with(
        pc.as_slice(),
        setuptools.as_slice(),
    )
}

fn root_ref_exec(bom: &CycloneDxBom) -> (r: Option<&String>)
    ensures
        match r {
            Some(s) => root_ref(*bom) == Some(s@),
            None => root_ref(*bom) is None,
        },
{
    match &bom.metadata {
        Some(m) => match &m.component {
            Some(c) => match &c.bom_ref {
                Some(r) => Some(r),
                None => None,
            },
            None => None,
        },
        None => None,
    }
}

/// Lists the library package URLs of the SBOM, in order, leaving out GitHub
/// Actions and Python build tools, and gives each listed or directly required
/// package its dependency type.
pub fn classify_dependencies(bom: &CycloneDxBom) -> (r: (Vec<String>, DependencyTypes))
    ensures
        strings_view(r.0@) == library_purls(bom.components@),
        r.1@ == expected_dependency_types(*bom),
{
    let mut types = DependencyTypes::new();
    let ghost direct = direct_refs(*bom);
    match root_ref_exec(bom) {
        Some(root) => {
            let n = bom.dependencies.len();
            let mut i: usize = 0;
            while i < n && bom.dependencies[i].reference != *root
                invariant
                    n == bom.dependencies@.len(),
                    i <= n,
                    forall|k: int| 0 <= k < i ==> bom.dependencies@[k].reference@ != root@,
                decreases n - i,
            {
                i = i + 1;
            }
            if i < n {
                assert(is_root_entry(bom.dependencies@, root@, i as int));
                let deps = &bom.dependencies[i].depends_on;
                let ghost dv = strings_view(deps@);
                proof {
                    let w = root_entry_index(bom.dependencies@, root@);
                    assert(is_root_entry(bom.dependencies@, root@, w));
                    if w < i {
                        assert(bom.dependencies@[w].reference@ != root@);
                    } else if w > i {
                        assert(bom.dependencies@[i as int].reference@ != root@);
                    }
                    assert(deps@ == bom.dependencies@[i as int].depends_on@);
                }
                assert(direct == dv);
                let m = deps.len();
                for j in 0..m
                    invariant
                        m == deps@.len(),
                        dv == strings_view(deps@),
                        types@ == Map::new(
                            |k: Seq<char>| dv.take(j as int).contains(k),
                            |k: Seq<char>| DependencyType::Direct,
                        ),
                {
                    let ghost before = types@;
                    types.insert(deps[j].clone(), DependencyType::Direct);
                    proof {
                        let a = dv.take(j as int);
                        let b = dv.take(j + 1);
                        let x = dv[j as int];
                        assert(x == deps@[j as int]@);
                        assert(b == a.push(x));
                        assert forall|k: Seq<char>| #[trigger] b.contains(k) == (a.contains(k) || k == x) by {
                            lemma_push_contains(a, x, k);
                        }
                        assert(types@ =~= Map::new(
                            |k: Seq<char>| b.contains(k),
                            |k: Seq<char>| DependencyType::Direct,
                        ));
                    }
                }
                assert(dv.take(m as int) == dv);
            } else {
                assert(!has_root_entry(bom.dependencies@, root@));
                assert(types@ =~= Map::new(
                    |k: Seq<char>| direct.contains(k),
                    |k: Seq<char>| DependencyType::Direct,
                ));
            }
        },
        None => {
            assert(types@ =~= Map::new(
                |k: Seq<char>| direct.contains(k),
                |k: Seq<char>| DependencyType::Direct,
            ));
        },
    }
    assert(types@ == Map::new(
        |k: Seq<char>| direct.contains(k),
        |k: Seq<char>| DependencyType::Direct,
    ));
    let comps = &bom.components;
    let nc = comps.len();
    let mut purls: Vec<String> = Vec::new();
    for i in 0..nc
        invariant
            nc == comps@.len(),
            comps == &bom.components,
            strings_view(purls@) == library_purls(comps@.take(i as int)),
    {
        let c = &comps[i];
        assert(comps@.take(i + 1).drop_last() == comps@.take(i as int));
        assert(comps@.take(i + 1).last() == comps@[i as int]);
        let library = match &c.component_type {
            Some(t) => str_eq(t.as_str(), "library"),
            None => true,
        };
        let ghost before = purls@;
        if library {
            match &c.purl {
                Some(p) => {
                    if !is_excluded_purl_exec(p.as_str()) {
                        purls.push(p.clone());
                        assert(strings_view(purls@) == strings_view(before) + seq![p@]);
                    }
                },
                None => {},
            }
        }
        assert(strings_view(purls@) == library_purls(comps@.take(i + 1)));
    }
    assert(comps@.take(nc as int) == comps@);
    let ghost pv = strings_view(purls@);
    let np = purls.len();
    for j in 0..np
        invariant
            np == purls@.len(),
            pv == strings_view(purls@),
            types@ == Map::new(
                |k: Seq<char>| direct.contains(k) || pv.take(j as int).contains(k),
                |k: Seq<char>|
                    if direct.contains(k) {
                        DependencyType::Direct
                    } else {
                        DependencyType::Transitive
                    },
            ),
    {
        let p = &purls[j];
        assert(pv[j as int] == p@);
        if !types.contains_key(p.as_str()) {
            types.insert(p.clone(), DependencyType::Transitive);
        }
        proof {
            let a = pv.take(j as int);
            let b = pv.take(j + 1);
            let x = pv[j as int];
            assert(b == a.push(x));
            assert forall|k: Seq<char>| #[trigger] b.contains(k) == (a.contains(k) || k == x) by {
                lemma_push_contains(a, x, k);
            }
            assert(types@ =~= Map::new(
                |k: Seq<char>| direct.contains(k) || b.contains(k),
                |k: Seq<char>|
                    if direct.contains(k) {
                        DependencyType::Direct
                    } else {
                        DependencyType::Transitive
                    },
            ));
        }
    }
    assert(pv.take(np as int) == pv);
    assert(types@ =~= expected_dependency_types(*bom));
    (purls, types)
}

} // verus!
