//! The safety rules applied to every archive entry before it is unpacked: no
//! path may climb out of the output directory, version-control directories are
//! left out, and an archive may hold at most `MAX_FILE_COUNT` entries and
//! `MAX_UNCOMPRESSED_SIZE` bytes.
use vstd::prelude::*;

use crate::text::{
    chars_eq, chars_of, replace_char, replace_char_exec, string_of, strip_leading,
    strip_leading_chars,
};
use crate::zip_source::error::ZipSourceError;

verus! {

/// The most bytes an archive may unpack to (500 MiB).
pub const MAX_UNCOMPRESSED_SIZE: u64 = 500 * 1024 * 1024;

/// The most entries an archive may hold.
pub const MAX_FILE_COUNT: usize = 50_000;

/// `p[i..j]` is one of the pieces of `p.split('/')`.
pub open spec fn is_segment(p: Seq<char>, i: int, j: int) -> bool {
    &&& 0 <= i <= j <= p.len()
    &&& i == 0 || p[i - 1] == '/'
    &&& j == p.len() || p[j] == '/'
    &&& forall|k: int| i <= k < j ==> p[k] != '/'
}

/// One of the pieces of `p.split('/')` is `name`.
pub open spec fn has_segment(p: Seq<char>, name: Seq<char>) -> bool {
    exists|i: int, j: int| #[trigger] is_segment(p, i, j) && p.subrange(i, j) == name
}

/// A version-control directory, left out of every extraction.
pub open spec fn is_skip_dir(s: Seq<char>) -> bool {
    s == ".git"@ || s == ".svn"@
}

/// A path component that decides an entry's fate: `..` or a skipped directory.
pub open spec fn is_marked(s: Seq<char>) -> bool {
    s == ".."@ || is_skip_dir(s)
}

/// `p[i..j]` is the first piece of `p.split('/')` that is `..` or a skipped
/// directory.
pub open spec fn is_first_marked(p: Seq<char>, i: int, j: int) -> bool {
    &&& is_segment(p, i, j)
    &&& is_marked(p.subrange(i, j))
    &&& forall|i2: int, j2: int|
        #[trigger] is_segment(p, i2, j2) && i2 < i ==> !is_marked(p.subrange(i2, j2))
}

/// Some piece of the path is `.git` or `.svn`.
pub open spec fn should_skip_spec(p: Seq<char>) -> bool {
    has_segment(p, ".git"@) || has_segment(p, ".svn"@)
}

/// What to do with an archive entry's path.
#[derive(Debug, Clone, Copy, PartialEq, Eq, Structural)]
pub enum PathVerdict {
    /// Unpack the entry.
    Keep,
    /// Leave the entry out.
    Skip,
    /// Refuse the archive: the path climbs out of the output directory.
    Traversal,
}

/// A segment boundary found by a left-to-right scan is the only segment ending there.
proof fn lemma_segment_start_unique(p: Seq<char>, start: int, i: int, j: int)
    requires
        is_segment(p, i, j),
        0 <= start <= j,
        start == 0 || p[start - 1] == '/',
        forall|k: int| start <= k < j ==> p[k] != '/',
    ensures
        i == start,
{
    if i < start {
        assert(p[start - 1] != '/');
    } else if i > start {
        assert(p[i - 1] != '/');
    }
}

/// Finds the first piece of the path that is `..` or a skipped directory.
fn first_marked_segment(p: &[char]) -> (r: Option<(usize, usize)>)
    ensures
        match r {
            Some((i, j)) => is_first_marked(p@, i as int, j as int),
            None => forall|i: int, j: int|
                #[trigger] is_segment(p@, i, j) ==> !is_marked(p@.subrange(i, j)),
        },
{
    let dotdot: Vec<char> = chars_of("..");
    let git: Vec<char> = chars_of(".git");
    let svn: Vec<char> = chars_of(".svn");
    let n = p.len();
    let mut start: usize = 0;
    for idx in 0..n
        invariant
            n == p@.len(),
            dotdot@ == ".."@,
            git@ == ".git"@,
            svn@ == ".svn"@,
            start <= idx,
            start == 0 || p@[start - 1] == '/',
            forall|k: int| start <= k < idx ==> p@[k] != '/',
            forall|i: int, j: int|
                #[trigger] is_segment(p@, i, j) && j < idx ==> !is_marked(p@.subrange(i, j)),
    {
        if p[idx] == '/' {
            let seg = crate::text::slice_range(p, start, idx);
            assert(is_segment(p@, start as int, idx as int));
            if chars_eq(seg.as_slice(), dotdot.as_slice()) || chars_eq(
                seg.as_slice(),
                git.as_slice(),
            ) || chars_eq(seg.as_slice(), svn.as_slice()) {
                assert forall|i2: int, j2: int|
                    #[trigger] is_segment(p@, i2, j2) && i2 < start implies !is_marked(
                    p@.subrange(i2, j2),
                ) by {
                    if j2 >= start {
                        assert(p@[start - 1] != '/');
                    }
                }
                return Some((start, idx));
            }
            assert forall|i: int, j: int|
                #[trigger] is_segment(p@, i, j) && j < idx + 1 implies !is_marked(
                p@.subrange(i, j),
            ) by {
                if j == idx {
                    lemma_segment_start_unique(p@, start as int, i, j);
                }
            }
            start = idx + 1;
        }
    }
    let seg = crate::text::slice_range(p, start, n);
    assert(is_segment(p@, start as int, n as int));
    if chars_eq(seg.as_slice(), dotdot.as_slice()) || chars_eq(seg.as_slice(), git.as_slice())
        || chars_eq(seg.as_slice(), svn.as_slice()) {
        assert forall|i2: int, j2: int|
            #[trigger] is_segment(p@, i2, j2) && i2 < start implies !is_marked(
            p@.subrange(i2, j2),
        ) by {
            if j2 >= start {
                assert(p@[start - 1] != '/');
            }
        }
        return Some((start, n));
    }
    assert forall|i: int, j: int| #[trigger] is_segment(p@, i, j) implies !is_marked(
        p@.subrange(i, j),
    ) by {
        if j == n {
            lemma_segment_start_unique(p@, start as int, i, j);
        }
    }
    None
}

/// Whether some piece of the path is `name`.
fn has_segment_exec(p: &[char], name: &[char]) -> (r: bool)
    ensures
        r == has_segment(p@, name@),
{
    let n = p.len();
    let mut start: usize = 0;
    for idx in 0..n
        invariant
            n == p@.len(),
            start <= idx,
            start == 0 || p@[start - 1] == '/',
            forall|k: int| start <= k < idx ==> p@[k] != '/',
            forall|i: int, j: int|
                #[trigger] is_segment(p@, i, j) && j < idx ==> p@.subrange(i, j) != name@,
    {
        if p[idx] == '/' {
            let seg = crate::text::slice_range(p, start, idx);
            assert(is_segment(p@, start as int, idx as int));
            if chars_eq(seg.as_slice(), name) {
                return true;
            }
            assert forall|i: int, j: int|
                #[trigger] is_segment(p@, i, j) && j < idx + 1 implies p@.subrange(i, j)
                != name@ by {
                if j == idx {
                    lemma_segment_start_unique(p@, start as int, i, j);
                }
            }
            start = idx + 1;
        }
    }
    let seg = crate::text::slice_range(p, start, n);
    assert(is_segment(p@, start as int, n as int));
    if chars_eq(seg.as_slice(), name) {
        return true;
    }
    assert forall|i: int, j: int| #[trigger] is_segment(p@, i, j) implies p@.subrange(i, j)
        != name@ by {
        if j == n {
            lemma_segment_start_unique(p@, start as int, i, j);
        }
    }
    false
}

/// Whether some piece of the `/`-separated path is `.git` or `.svn`.
pub fn should_skip(path: &str) -> (r: bool)
    ensures
        r == should_skip_spec(path@),
{
    let p = chars_of(path);
    let git = chars_of(".git");
    let svn = chars_of(".svn");
    has_segment_exec(p.as_slice(), git.as_slice()) || has_segment_exec(
        p.as_slice(),
        svn.as_slice(),
    )
}

/// The verdict on a tar entry's path: its pieces are read in order, and the first
/// one that is `..` refuses the archive while the first one that is `.git` or
/// `.svn` leaves the entry out, whichever comes first.
pub open spec fn tar_path_verdict_spec(p: Seq<char>) -> PathVerdict {
    if exists|i: int, j: int| #[trigger] is_first_marked(p, i, j) && p.subrange(i, j) == ".."@ {
        PathVerdict::Traversal
    } else if exists|i: int, j: int| #[trigger] is_first_marked(p, i, j) {
        PathVerdict::Skip
    } else {
        PathVerdict::Keep
    }
}

/// The first marked piece of a path is unique.
proof fn lemma_first_marked_unique(p: Seq<char>, i: int, j: int, i2: int, j2: int)
    requires
        is_first_marked(p, i, j),
        is_first_marked(p, i2, j2),
    ensures
        i == i2 && j == j2,
{
    if i2 < i {
        assert(!is_marked(p.subrange(i2, j2)));
    } else if i < i2 {
        assert(!is_marked(p.subrange(i, j)));
    } else {
        if j < j2 {
            assert(p[j] != '/');
        } else if j2 < j {
            assert(p[j2] != '/');
        }
    }
}

/// Decides what to do with a tar entry given its path.
pub fn tar_path_verdict(path: &str) -> (r: PathVerdict)
    ensures
        r == tar_path_verdict_spec(path@),
{
    let p = chars_of(path);
    let dotdot = chars_of("..");
    match first_marked_segment(p.as_slice()) {
        Some((i, j)) => {
            let seg = crate::text::slice_range(p.as_slice(), i, j);
            if chars_eq(seg.as_slice(), dotdot.as_slice()) {
                PathVerdict::Traversal
            } else {
                assert forall|i2: int, j2: int|
                    #[trigger] is_first_marked(path@, i2, j2) implies path@.subrange(i2, j2)
                    != ".."@ by {
                    lemma_first_marked_unique(path@, i as int, j as int, i2, j2);
                }
                PathVerdict::Skip
            }
        },
        None => PathVerdict::Keep,
    }
}

/// A zip entry's name as a `/`-separated relative path: backslashes become
/// slashes and leading slashes are dropped.
pub open spec fn zip_entry_path_spec(raw: Seq<char>) -> Seq<char> {
    strip_leading(replace_char(raw, '\\', '/'), '/')
}

/// The verdict on a zip entry's (normalised) name: a `..` piece anywhere refuses
/// the archive; otherwise a `.git` or `.svn` piece leaves the entry out.
pub open spec fn zip_path_verdict_spec(p: Seq<char>) -> PathVerdict {
    if has_segment(p, ".."@) {
        PathVerdict::Traversal
    } else if should_skip_spec(p) {
        PathVerdict::Skip
    } else {
        PathVerdict::Keep
    }
}

/// Normalises a zip entry's name and decides what to do with the entry.
pub fn zip_entry_path(raw_name: &str) -> (r: (String, PathVerdict))
    ensures
        r.0@ == zip_entry_path_spec(raw_name@),
        r.1 == zip_path_verdict_spec(r.0@),
{
    let raw = chars_of(raw_name);
    let replaced = replace_char_exec(raw.as_slice(), '\\', '/');
    let name = strip_leading_chars(replaced.as_slice(), '/');
    let dotdot = chars_of("..");
    let git = chars_of(".git");
    let svn = chars_of(".svn");
    let verdict = if has_segment_exec(name.as_slice(), dotdot.as_slice()) {
        PathVerdict::Traversal
    } else if has_segment_exec(name.as_slice(), git.as_slice()) || has_segment_exec(
        name.as_slice(),
        svn.as_slice(),
    ) {
        PathVerdict::Skip
    } else {
        PathVerdict::Keep
    };
    (string_of(name.as_slice()), verdict)
}

/// What to do with an archive entry that passed the checks.
#[derive(Debug, Clone, Copy, PartialEq, Eq, Structural)]
pub enum EntryAction {
    /// Write the entry out.
    Unpack,
    /// Leave the entry out and go on with the next one.
    Skip,
}

/// The error for an entry whose path climbs out of the output directory.
pub fn path_traversal() -> (r: ZipSourceError)
    ensures
        r matches ZipSourceError::Validation(m) && m@ == "Path traversal"@,
{
    ZipSourceError::Validation(String::from_str("Path traversal"))
}

/// The running totals of one extraction.
pub struct ExtractionBudget {
    /// Bytes of the entries unpacked so far.
    pub total_size: u64,
    /// Entries seen so far.
    pub file_count: usize,
}

impl ExtractionBudget {
    /// Nothing seen yet.
    pub fn new() -> (r: ExtractionBudget)
        ensures
            r.total_size == 0,
            r.file_count == 0,
    {
        ExtractionBudget { total_size: 0, file_count: 0 }
    }

    /// Counts one more entry; fails when the archive holds more than
    /// `MAX_FILE_COUNT` entries.
    pub fn count_entry(&mut self) -> (r: Result<(), ZipSourceError>)
        requires
            old(self).file_count <= MAX_FILE_COUNT,
        ensures
            final(self).file_count == old(self).file_count + 1,
            final(self).total_size == old(self).total_size,
            r is Ok <==> final(self).file_count <= MAX_FILE_COUNT,
            r is Err ==> (r matches Err(ZipSourceError::Validation(m)) && m@ == "Too many files"@),
    {
        self.file_count = self.file_count + 1;
        if self.file_count > MAX_FILE_COUNT {
            return Err(ZipSourceError::Validation(String::from_str("Too many files")));
        }
        Ok(())
    }

    /// Adds an unpacked entry's size; fails when the archive unpacks to more than
    /// `MAX_UNCOMPRESSED_SIZE` bytes.
    pub fn add_size(&mut self, size: u64) -> (r: Result<(), ZipSourceError>)
        requires
            old(self).total_size + size <= u64::MAX,
        ensures
            final(self).total_size == old(self).total_size + size,
            final(self).file_count == old(self).file_count,
            r is Ok <==> final(self).total_size <= MAX_UNCOMPRESSED_SIZE,
            r is Err ==> (r matches Err(ZipSourceError::Validation(m)) && m@ == "File too big"@),
    {
        self.total_size = self.total_size + size;
        if self.total_size > MAX_UNCOMPRESSED_SIZE {
            return Err(ZipSourceError::Validation(String::from_str("File too big")));
        }
        Ok(())
    }
    /// Takes in the next entry of an archive: the entry is counted first, then
    /// its path's verdict applies. Every entry counts toward the entry limit,
    /// skipped ones included; no entry adds to the size here.
    pub fn take_entry(&mut self, verdict: PathVerdict) -> (r: Result<EntryAction, ZipSourceError>)
        requires
            old(self).file_count <= MAX_FILE_COUNT,
        ensures
            final(self).file_count == old(self).file_count + 1,
            final(self).total_size == old(self).total_size,
            old(self).file_count + 1 > MAX_FILE_COUNT ==> (r matches Err(
                ZipSourceError::Validation(m),
            ) && m@ == "Too many files"@),
            old(self).file_count + 1 <= MAX_FILE_COUNT ==> match verdict {
                PathVerdict::Traversal => r matches Err(ZipSourceError::Validation(m)) && m@
                    == "Path traversal"@,
                PathVerdict::Skip => r == Ok::<EntryAction, ZipSourceError>(EntryAction::Skip),
                PathVerdict::Keep => r == Ok::<EntryAction, ZipSourceError>(EntryAction::Unpack),
            },
    {
        match self.count_entry() {
            Err(e) => return Err(e),
            Ok(()) => {},
        }
        match verdict {
            PathVerdict::Traversal => Err(path_traversal()),
            PathVerdict::Skip => Ok(EntryAction::Skip),
            PathVerdict::Keep => Ok(EntryAction::Unpack),
        }
    }

    /// Takes in the next entry of an archive whose size is known up front: it is
    /// counted, its path's verdict applies, and only an entry that is kept adds
    /// its size.
    pub fn take_sized_entry(&mut self, verdict: PathVerdict, size: u64) -> (r: Result<
        EntryAction,
        ZipSourceError,
    >)
        requires
            old(self).file_count <= MAX_FILE_COUNT,
            old(self).file_count < MAX_FILE_COUNT && verdict == PathVerdict::Keep ==> old(
                self,
            ).total_size + size <= u64::MAX,
        ensures
            final(self).file_count == old(self).file_count + 1,
            old(self).file_count + 1 > MAX_FILE_COUNT ==> (r matches Err(
                ZipSourceError::Validation(m),
            ) && m@ == "Too many files"@ && final(self).total_size == old(self).total_size),
            old(self).file_count + 1 <= MAX_FILE_COUNT ==> match verdict {
                PathVerdict::Traversal => r matches Err(ZipSourceError::Validation(m)) && m@
                    == "Path traversal"@ && final(self).total_size == old(self).total_size,
                PathVerdict::Skip => r == Ok::<EntryAction, ZipSourceError>(EntryAction::Skip)
                    && final(self).total_size == old(self).total_size,
                PathVerdict::Keep => final(self).total_size == old(self).total_size + size && (
                final(self).total_size <= MAX_UNCOMPRESSED_SIZE ==> r == Ok::<
                    EntryAction,
                    ZipSourceError,
                >(EntryAction::Unpack)) && (final(self).total_size > MAX_UNCOMPRESSED_SIZE ==> (
                r matches Err(ZipSourceError::Validation(m)) && m@ == "File too big"@)),
            },
    {
        let action = match self.take_entry(verdict) {
            Err(e) => return Err(e),
            Ok(a) => a,
        };
        match action {
            EntryAction::Skip => Ok(EntryAction::Skip),
            EntryAction::Unpack => match self.add_size(size) {
                Err(e) => Err(e),
                Ok(()) => Ok(EntryAction::Unpack),
            },
        }
    }
}

} // verus!
