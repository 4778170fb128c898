//! PyPI release files: which one to download, and how to unpack it.
use vstd::prelude::*;

use crate::text::{chars_eq, chars_of, contains_chars, contains_seq, str_eq};
use crate::text::{is_last_index, lemma_last_index_unique};
use crate::zip_source::paths::{
    extension, extension_of_name, lemma_extension_of_last_piece, path_extension,
};

verus! {

/// The kind of a release file.
#[derive(Debug, Clone, Copy, PartialEq, Eq, Structural)]
pub enum FileType {
    /// A wheel (`.whl`, a zip archive).
    Wheel,
    /// A source distribution (`.tar.gz`).
    TarGz,
}

/// The file type a path names: a wheel exactly when its extension is `whl`.
pub open spec fn file_type_spec(path: Seq<char>) -> FileType {
    if path_extension(path) == Some("whl"@) {
        FileType::Wheel
    } else {
        FileType::TarGz
    }
}

/// The extension a file of the given type is stored with.
pub open spec fn file_extension_spec(t: FileType) -> Seq<char> {
    match t {
        FileType::Wheel => "whl"@,
        FileType::TarGz => "tar.gz"@,
    }
}

impl FileType {
    /// The type of the file at `file_path`: a wheel when the extension is `whl`,
    /// a source archive otherwise.
    pub fn file_type(file_path: &str) -> (r: FileType)
        ensures
            r == file_type_spec(file_path@),
    {
        let whl = chars_of("whl");
        match extension(file_path) {
            Some(e) => if chars_eq(e.as_slice(), whl.as_slice()) {
                FileType::Wheel
            } else {
                FileType::TarGz
            },
            None => FileType::TarGz,
        }
    }

    /// The extension files of this type are stored with.
    pub fn file_extension(&self) -> (r: String)
        ensures
            r@ == file_extension_spec(*self),
    {
        match self {
            FileType::Wheel => String::from_str("whl"),
            FileType::TarGz => String::from_str("tar.gz"),
        }
    }
}

/// One downloadable file of a release.
pub struct PyPiUrl {
    pub packagetype: String,
    pub url: String,
    pub filename: String,
}

/// A release's metadata from the PyPI JSON API.
pub struct PyPiMetadata {
    pub urls: Vec<PyPiUrl>,
}

/// A source distribution.
pub open spec fn is_sdist(u: PyPiUrl) -> bool {
    u.packagetype@ == "sdist"@
}

/// A wheel.
pub open spec fn is_wheel(u: PyPiUrl) -> bool {
    u.packagetype@ == "bdist_wheel"@
}

/// A pure-Python wheel (built for any platform).
pub open spec fn is_pure_wheel(u: PyPiUrl) -> bool {
    is_wheel(u) && contains_seq(u.filename@, "py3-none-any"@)
}

/// The kinds of file searched for.
pub enum UrlKind {
    Sdist,
    Wheel,
    PureWheel,
}

/// The property a kind of file has.
pub open spec fn has_kind(u: PyPiUrl, k: UrlKind) -> bool {
    match k {
        UrlKind::Sdist => is_sdist(u),
        UrlKind::Wheel => is_wheel(u),
        UrlKind::PureWheel => is_pure_wheel(u),
    }
}

/// The position of the first file of the given kind.
pub open spec fn first_of_kind(urls: Seq<PyPiUrl>, k: UrlKind) -> Option<int>
    decreases urls.len(),
{
    if urls.len() == 0 {
        None
    } else {
        match first_of_kind(urls.drop_last(), k) {
            Some(i) => Some(i),
            None => if has_kind(urls.last(), k) {
                Some(urls.len() - 1)
            } else {
                None
            },
        }
    }
}

/// The URL of the first file of the given kind.
pub open spec fn url_of_kind(urls: Seq<PyPiUrl>, k: UrlKind) -> Option<Seq<char>> {
    match first_of_kind(urls, k) {
        Some(i) => Some(urls[i].url@),
        None => None,
    }
}

/// The source distribution's URL: the first `sdist` file.
pub open spec fn sdist_url_spec(urls: Seq<PyPiUrl>) -> Option<Seq<char>> {
    url_of_kind(urls, UrlKind::Sdist)
}

/// The wheel's URL: the first pure-Python wheel, else the first wheel.
pub open spec fn wheel_url_spec(urls: Seq<PyPiUrl>) -> Option<Seq<char>> {
    match url_of_kind(urls, UrlKind::PureWheel) {
        Some(u) => Some(u),
        None => url_of_kind(urls, UrlKind::Wheel),
    }
}

/// The file to download: a wheel when there is one, else the source distribution.
pub open spec fn best_source_spec(urls: Seq<PyPiUrl>) -> Option<(Seq<char>, FileType)> {
    match wheel_url_spec(urls) {
        Some(u) => Some((u, FileType::Wheel)),
        None => match sdist_url_spec(urls) {
            Some(u) => Some((u, FileType::TarGz)),
            None => None,
        },
    }
}

fn has_kind_exec(u: &PyPiUrl, k: &UrlKind) -> (r: bool)
    ensures
        r == has_kind(*u, *k),
{
    match k {
        UrlKind::Sdist => str_eq(u.packagetype.as_str(), "sdist"),
        UrlKind::Wheel => str_eq(u.packagetype.as_str(), "bdist_wheel"),
        UrlKind::PureWheel => {
            if !str_eq(u.packagetype.as_str(), "bdist_wheel") {
                return false;
            }
            let f = chars_of(u.filename.as_str());
            let pat = chars_of("py3-none-any");
            contains_chars(f.as_slice(), pat.as_slice())
        },
    }
}

fn find_kind(urls: &Vec<PyPiUrl>, k: UrlKind) -> (r: Option<usize>)
    ensures
        match r {
            Some(i) => first_of_kind(urls@, k) == Some(i as int) && i < urls@.len(),
            None => first_of_kind(urls@, k) is None,
        },
{
    let n = urls.len();
    for i in 0..n
        invariant
            n == urls@.len(),
            first_of_kind(urls@.take(i as int), k) is None,
    {
        assert(urls@.take(i + 1).drop_last() == urls@.take(i as int));
        if has_kind_exec(&urls[i], &k) {
            assert(first_of_kind(urls@.take(i + 1), k) == Some(i as int));
            proof {
                lemma_first_of_kind_prefix(urls@, k, (i + 1) as int);
            }
            return Some(i);
        }
    }
    assert(urls@.take(n as int) == urls@);
    None
}

/// A first match found in a prefix is the first match of the whole list.
proof fn lemma_first_of_kind_prefix(urls: Seq<PyPiUrl>, k: UrlKind, m: int)
    requires
        0 <= m <= urls.len(),
        first_of_kind(urls.take(m), k) is Some,
    ensures
        first_of_kind(urls, k) == first_of_kind(urls.take(m), k),
    decreases urls.len() - m,
{
    if m < urls.len() {
        assert(urls.take(m + 1).drop_last() == urls.take(m));
        lemma_first_of_kind_prefix(urls, k, m + 1);
    } else {
        assert(urls.take(m) == urls);
    }
}

impl PyPiMetadata {
    /// The URL of the first source distribution.
    pub fn sdist_url(&self) -> (r: Option<&str>)
        ensures
            match r {
                Some(u) => sdist_url_spec(self.urls@) == Some(u@),
                None => sdist_url_spec(self.urls@) is None,
            },
    {
        match find_kind(&self.urls, UrlKind::Sdist) {
            Some(i) => Some(self.urls[i].url.as_str()),
            None => None,
        }
    }

    /// The URL of the first pure-Python wheel, or else of the first wheel.
    pub fn wheel_url(&self) -> (r: Option<&str>)
        ensures
            match r {
                Some(u) => wheel_url_spec(self.urls@) == Some(u@),
                None => wheel_url_spec(self.urls@) is None,
            },
    {
        match find_kind(&self.urls, UrlKind::PureWheel) {
            Some(i) => Some(self.urls[i].url.as_str()),
            None => match find_kind(&self.urls, UrlKind::Wheel) {
                Some(i) => Some(self.urls[i].url.as_str()),
                None => None,
            },
        }
    }

    /// The file to download: a wheel is preferred over the source distribution
    /// (which can be very large).
    pub fn best_source(&self) -> (r: Option<(&str, FileType)>)
        ensures
            match r {
                Some((u, t)) => best_source_spec(self.urls@) == Some((u@, t)),
                None => best_source_spec(self.urls@) is None,
            },
    {
        if let Some(url) = self.wheel_url() {
            return Some((url, FileType::Wheel));
        }
        if let Some(url) = self.sdist_url() {
            return Some((url, FileType::TarGz));
        }
        None
    }
}

/// The first file of a kind is a file of that kind with none before it, and
/// there is one exactly when some file has that kind.
pub proof fn lemma_first_of_kind(urls: Seq<PyPiUrl>, k: UrlKind)
    ensures
        first_of_kind(urls, k) is Some <==> exists|i: int| 0 <= i < urls.len() && #[trigger] has_kind(urls[i], k),
        first_of_kind(urls, k) matches Some(i) ==> {
            &&& 0 <= i < urls.len()
            &&& has_kind(urls[i], k)
            &&& forall|j: int| 0 <= j < i ==> !has_kind(#[trigger] urls[j], k)
        },
    decreases urls.len(),
{
    if urls.len() > 0 {
        let t = urls.drop_last();
        lemma_first_of_kind(t, k);
        if exists|i: int| 0 <= i < urls.len() && #[trigger] has_kind(urls[i], k) {
            let i = choose|i: int| 0 <= i < urls.len() && #[trigger] has_kind(urls[i], k);
            if i < t.len() {
                assert(has_kind(t[i], k));
            }
        }
        if first_of_kind(t, k) is Some {
            let i = first_of_kind(t, k)->0;
            assert(urls[i] == t[i]);
            assert forall|j: int| 0 <= j < i implies !has_kind(#[trigger] urls[j], k) by {
                assert(urls[j] == t[j]);
            }
        } else {
            assert forall|j: int| 0 <= j < t.len() implies !has_kind(#[trigger] urls[j], k) by {
                assert(urls[j] == t[j]);
                if has_kind(urls[j], k) {
                    assert(has_kind(t[j], k));
                }
            }
        }
    }
}

/// The download preference: a wheel whenever there is one (the first
/// pure-Python wheel when there is such), else a source distribution when there
/// is one, else nothing.
pub proof fn lemma_best_source_preference(urls: Seq<PyPiUrl>)
    ensures
        (exists|i: int| 0 <= i < urls.len() && #[trigger] is_wheel(urls[i])) ==> (best_source_spec(
            urls,
        ) matches Some((_, t)) && t == FileType::Wheel),
        (exists|i: int| 0 <= i < urls.len() && #[trigger] is_pure_wheel(urls[i])) ==> (exists|
            i: int,
        |
            0 <= i < urls.len() && #[trigger] is_pure_wheel(urls[i]) && (forall|j: int|
                0 <= j < i ==> !is_pure_wheel(#[trigger] urls[j])) && best_source_spec(urls)
                == Some((urls[i].url@, FileType::Wheel))),
        !(exists|i: int| 0 <= i < urls.len() && #[trigger] is_wheel(urls[i])) && (exists|i: int|
            0 <= i < urls.len() && #[trigger] is_sdist(urls[i])) ==> (best_source_spec(urls) matches Some(
            (_, t),
        ) && t == FileType::TarGz),
        !(exists|i: int| 0 <= i < urls.len() && #[trigger] is_wheel(urls[i])) && !(exists|i: int|
            0 <= i < urls.len() && #[trigger] is_sdist(urls[i])) ==> best_source_spec(urls) is None,
{
    lemma_first_of_kind(urls, UrlKind::Wheel);
    lemma_first_of_kind(urls, UrlKind::PureWheel);
    lemma_first_of_kind(urls, UrlKind::Sdist);
    if exists|i: int| 0 <= i < urls.len() && #[trigger] is_wheel(urls[i]) {
        let i = choose|i: int| 0 <= i < urls.len() && #[trigger] is_wheel(urls[i]);
        assert(has_kind(urls[i], UrlKind::Wheel));
    }
    if exists|i: int| 0 <= i < urls.len() && #[trigger] is_pure_wheel(urls[i]) {
        let i = choose|i: int| 0 <= i < urls.len() && #[trigger] is_pure_wheel(urls[i]);
        assert(has_kind(urls[i], UrlKind::PureWheel));
        let f = first_of_kind(urls, UrlKind::PureWheel)->0;
        assert(is_pure_wheel(urls[f]));
        assert forall|j: int| 0 <= j < f implies !is_pure_wheel(#[trigger] urls[j]) by {
            assert(!has_kind(urls[j], UrlKind::PureWheel));
        }
    }
    if exists|i: int| 0 <= i < urls.len() && #[trigger] is_sdist(urls[i]) {
        let i = choose|i: int| 0 <= i < urls.len() && #[trigger] is_sdist(urls[i]);
        assert(has_kind(urls[i], UrlKind::Sdist));
    }
    if first_of_kind(urls, UrlKind::PureWheel) is Some {
        let f = first_of_kind(urls, UrlKind::PureWheel)->0;
        assert(is_wheel(urls[f]));
    }
    if first_of_kind(urls, UrlKind::Wheel) is Some {
        let f = first_of_kind(urls, UrlKind::Wheel)->0;
        assert(is_wheel(urls[f]));
    }
    if first_of_kind(urls, UrlKind::Sdist) is Some {
        let f = first_of_kind(urls, UrlKind::Sdist)->0;
        assert(is_sdist(urls[f]));
    }
}

/// A release file saved as `<id>.<version>.<extension of its type>`, directly or
/// under a directory, is read back as the same type, when the id and the
/// version hold no `/`.
pub proof fn lemma_file_type_round_trip(
    dir: Option<Seq<char>>,
    id: Seq<char>,
    ver: Seq<char>,
    t: FileType,
)
    requires
        !id.contains('/'),
        !ver.contains('/'),
    ensures
        file_type_spec(
            match dir {
                Some(d) => d + seq!['/'] + (id + "."@ + ver + "."@ + file_extension_spec(t)),
                None => id + "."@ + ver + "."@ + file_extension_spec(t),
            },
        ) == t,
{
    reveal_strlit(".");
    reveal_strlit("whl");
    reveal_strlit("tar.gz");
    reveal_strlit("gz");
    let name = id + "."@ + ver + "."@ + file_extension_spec(t);
    let head = id + "."@ + ver;
    let h = head.len() as int;
    assert forall|k: int| 0 <= k < name.len() implies name[k] != '/' by {
        if k < id.len() {
            assert(name[k] == id[k]);
        } else if id.len() < k < h {
            assert(name[k] == ver[k - id.len() - 1]);
        }
    }
    lemma_extension_of_last_piece(dir, name);
    match t {
        FileType::Wheel => {
            assert(name[h] == '.');
            assert(is_last_index(name, '.', h));
            lemma_last_index_unique(name, '.', h);
            assert(name.skip(h + 1) =~= "whl"@);
            assert(extension_of_name(name) == Some("whl"@));
        },
        FileType::TarGz => {
            let d = h + 4;
            assert(name[d] == '.');
            assert(is_last_index(name, '.', d));
            lemma_last_index_unique(name, '.', d);
            assert(name.skip(d + 1) =~= "gz"@);
            assert(extension_of_name(name) == Some("gz"@));
            assert("gz"@.len() != "whl"@.len());
        },
    }
}

/// The wheel downloaded when a release has a pure-Python 3 wheel: the first
/// `bdist_wheel` whose file name contains `py3-none-any`, whatever wheels come
/// before it whose names do not (a `py2-none-any` one, say).
pub proof fn lemma_best_source_first_py3_wheel(urls: Seq<PyPiUrl>, i: int)
    requires
        0 <= i < urls.len(),
        urls[i].packagetype@ == "bdist_wheel"@,
        contains_seq(urls[i].filename@, "py3-none-any"@),
        forall|j: int|
            0 <= j < i ==> !((#[trigger] urls[j]).packagetype@ == "bdist_wheel"@ && contains_seq(
                urls[j].filename@,
                "py3-none-any"@,
            )),
    ensures
        wheel_url_spec(urls) == Some(urls[i].url@),
        best_source_spec(urls) == Some((urls[i].url@, FileType::Wheel)),
{
    lemma_first_of_kind(urls, UrlKind::PureWheel);
    assert(has_kind(urls[i], UrlKind::PureWheel));
    let f = first_of_kind(urls, UrlKind::PureWheel)->0;
    if f < i {
        assert(has_kind(urls[f], UrlKind::PureWheel));
    } else if f > i {
        assert(!has_kind(urls[i], UrlKind::PureWheel));
    }
}

} // verus!
