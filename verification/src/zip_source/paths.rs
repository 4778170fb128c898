//! File names, stems and extensions of `/`-separated paths, as `std::path::Path`
//! reads them on Unix, and joining a relative path onto a directory.
use vstd::prelude::*;

use crate::text::{
    append_chars, chars_eq, chars_of, find_last, last_index, lemma_last_index_exists, slice_range,
    slice_take,
};

verus! {

/// The characters after the last `/` of `p` (all of `p` when it has none).
pub open spec fn trailing_segment(p: Seq<char>) -> Seq<char>
    decreases p.len(),
{
    if p.len() == 0 || p.last() == '/' {
        Seq::empty()
    } else {
        trailing_segment(p.drop_last()).push(p.last())
    }
}

/// `Path::file_name`: the last component of the path, ignoring trailing `/`
/// and `.` components; none when the path ends in `..` or has no such component.
pub open spec fn file_name_of(p: Seq<char>) -> Option<Seq<char>>
    decreases p.len(),
{
    if p.len() == 0 {
        None
    } else if p.last() == '/' {
        file_name_of(p.drop_last())
    } else {
        let seg = trailing_segment(p);
        if seg.len() == 1 && seg[0] == '.' {
            file_name_of(p.take(p.len() - 1))
        } else if seg.len() == 2 && seg[0] == '.' && seg[1] == '.' {
            None
        } else {
            Some(seg)
        }
    }
}

/// The extension of a file name: what follows its last `.`, unless there is no
/// `.` or the only `.` opens the name.
pub open spec fn extension_of_name(name: Seq<char>) -> Option<Seq<char>> {
    if name.contains('.') && last_index(name, '.') > 0 {
        Some(name.skip(last_index(name, '.') + 1))
    } else {
        None
    }
}

/// The stem of a file name: what precedes its last `.`, or the whole name when
/// there is no `.` or the only `.` opens the name.
pub open spec fn stem_of_name(name: Seq<char>) -> Seq<char> {
    if name.contains('.') && last_index(name, '.') > 0 {
        name.take(last_index(name, '.'))
    } else {
        name
    }
}

/// `Path::extension`.
pub open spec fn path_extension(p: Seq<char>) -> Option<Seq<char>> {
    match file_name_of(p) {
        Some(n) => extension_of_name(n),
        None => None,
    }
}

/// `Path::file_stem`.
pub open spec fn path_stem(p: Seq<char>) -> Option<Seq<char>> {
    match file_name_of(p) {
        Some(n) => Some(stem_of_name(n)),
        None => None,
    }
}

proof fn lemma_trailing_segment(p: Seq<char>, start: int)
    requires
        0 <= start <= p.len(),
        start == 0 || p[start - 1] == '/',
        forall|k: int| start <= k < p.len() ==> p[k] != '/',
    ensures
        trailing_segment(p) == p.skip(start),
    decreases p.len(),
{
    if p.len() == start {
        assert(p.skip(start) =~= Seq::<char>::empty());
        if p.len() > 0 {
            assert(p.last() == '/');
        }
    } else {
        lemma_trailing_segment(p.drop_last(), start);
        assert(p.drop_last().skip(start).push(p.last()) =~= p.skip(start));
    }
}

/// The extension of a path whose last piece, after an optional directory and a
/// `/`, is `name`: that of `name`, when `name` holds no `/` and is at least three
/// characters long (so it is neither `.` nor `..`).
pub proof fn lemma_extension_of_last_piece(dir: Option<Seq<char>>, name: Seq<char>)
    requires
        name.len() >= 3,
        !name.contains('/'),
    ensures
        path_extension(match dir {
            Some(d) => d + seq!['/'] + name,
            None => name,
        }) == extension_of_name(name),
{
    let (p, start) = match dir {
        Some(d) => (d + seq!['/'] + name, d.len() + 1int),
        None => (name, 0int),
    };
    assert(p.skip(start) =~= name);
    assert forall|k: int| start <= k < p.len() implies p[k] != '/' by {
        assert(p[k] == name[k - start]);
    }
    if start > 0 {
        assert(p[start - 1] == '/');
    }
    lemma_trailing_segment(p, start);
    assert(p.last() == name.last());
    assert(file_name_of(p) == Some(name));
}

/// The file name of a path.
pub fn file_name(p: &[char]) -> (r: Option<Vec<char>>)
    ensures
        match r {
            Some(n) => file_name_of(p@) == Some(n@),
            None => file_name_of(p@) is None,
        },
{
    let dot: Vec<char> = vec!['.'];
    let dotdot: Vec<char> = vec!['.', '.'];
    let mut end = p.len();
    assert(p@.take(end as int) == p@);
    loop
        invariant
            end <= p@.len(),
            file_name_of(p@.take(end as int)) == file_name_of(p@),
            dot@ == seq!['.'],
            dotdot@ == seq!['.', '.'],
        decreases end,
    {
        let ghost e0 = end;
        while end > 0 && p[end - 1] == '/'
            invariant
                end <= e0,
                end <= p@.len(),
                file_name_of(p@.take(end as int)) == file_name_of(p@),
            decreases end,
        {
            assert(p@.take(end as int).drop_last() == p@.take(end - 1));
            end = end - 1;
        }
        if end == 0 {
            return None;
        }
        let mut start = end;
        while start > 0 && p[start - 1] != '/'
            invariant
                start <= end <= p@.len(),
                forall|k: int| start <= k < end ==> p@[k] != '/',
            decreases start,
        {
            start = start - 1;
        }
        let ghost q = p@.take(end as int);
        proof {
            lemma_trailing_segment(q, start as int);
            assert(q.last() == p@[end - 1]);
            assert(q.skip(start as int) == p@.subrange(start as int, end as int));
            assert(q.take(q.len() - (end - start)) == p@.take(start as int));
        }
        assert(start < end);
        let seg = slice_range(p, start, end);
        assert(trailing_segment(q) == seg@);
        assert(q.len() > 0 && q.last() != '/');
        if chars_eq(seg.as_slice(), dot.as_slice()) {
            assert(seg@.len() == 1 && seg@[0] == '.');
            assert(file_name_of(q) == file_name_of(q.take(q.len() - 1)));
            end = start;
        } else if chars_eq(seg.as_slice(), dotdot.as_slice()) {
            assert(seg@.len() == 2 && seg@[0] == '.' && seg@[1] == '.');
            assert(file_name_of(q) is None);
            return None;
        } else {
            proof {
                if seg@.len() == 1 && seg@[0] == '.' {
                    assert(seg@ =~= dot@);
                }
                if seg@.len() == 2 && seg@[0] == '.' && seg@[1] == '.' {
                    assert(seg@ =~= dotdot@);
                }
            }
            assert(file_name_of(q) == Some(seg@));
            return Some(seg);
        }
    }
}

/// The extension of a file name.
pub fn name_extension(name: &[char]) -> (r: Option<Vec<char>>)
    ensures
        match r {
            Some(e) => extension_of_name(name@) == Some(e@),
            None => extension_of_name(name@) is None,
        },
{
    let n = name.len();
    match find_last(name, '.') {
        Some(i) => {
            if i > 0 {
                Some(slice_range(name, i + 1, n))
            } else {
                None
            }
        },
        None => None,
    }
}

/// The stem of a file name.
pub fn name_stem(name: &[char]) -> (r: Vec<char>)
    ensures
        r@ == stem_of_name(name@),
{
    match find_last(name, '.') {
        Some(i) => {
            if i > 0 {
                slice_take(name, i)
            } else {
                slice_take(name, name.len())
            }
        },
        None => slice_take(name, name.len()),
    }
}

/// `Path::extension` on a path given as text.
pub fn extension(p: &str) -> (r: Option<Vec<char>>)
    ensures
        match r {
            Some(e) => path_extension(p@) == Some(e@),
            None => path_extension(p@) is None,
        },
{
    let pc = chars_of(p);
    match file_name(pc.as_slice()) {
        Some(n) => name_extension(n.as_slice()),
        None => None,
    }
}

/// `path.file_stem()` as text, or `unknown` when the path has no file name.
pub fn file_stem(p: &str) -> (r: String)
    ensures
        r@ == match path_stem(p@) {
            Some(s) => s,
            None => "unknown"@,
        },
{
    let pc = chars_of(p);
    match file_name(pc.as_slice()) {
        Some(n) => {
            let s = name_stem(n.as_slice());
            crate::text::string_of(s.as_slice())
        },
        None => String::from_str("unknown"),
    }
}

/// `PathBuf::join` of a directory and a path given as text: an absolute path
/// replaces the directory; otherwise a `/` is put between them unless the
/// directory is empty or already ends with one.
pub open spec fn join_path_spec(dir: Seq<char>, rel: Seq<char>) -> Seq<char> {
    if rel.len() > 0 && rel[0] == '/' {
        rel
    } else if dir.len() == 0 || dir.last() == '/' {
        dir + rel
    } else {
        dir + seq!['/'] + rel
    }
}

/// Joins a path onto a directory.
pub fn join_path(dir: &str, rel: &str) -> (r: String)
    ensures
        r@ == join_path_spec(dir@, rel@),
{
    let d = chars_of(dir);
    let q = chars_of(rel);
    if q.len() > 0 && q[0] == '/' {
        return crate::text::string_of(q.as_slice());
    }
    let mut out = d;
    let dl = out.len();
    if dl > 0 && out[dl - 1] != '/' {
        out.push('/');
    }
    append_chars(&mut out, q.as_slice());
    crate::text::string_of(out.as_slice())
}

/// A file name is its stem, a `.` and its extension when it has one, and is its
/// stem alone otherwise.
pub proof fn lemma_stem_and_extension(name: Seq<char>)
    ensures
        extension_of_name(name) matches Some(e) ==> name == stem_of_name(name) + seq!['.'] + e,
        extension_of_name(name) is None ==> stem_of_name(name) == name,
{
    if name.contains('.') {
        lemma_last_index_exists(name, '.');
        let i = last_index(name, '.');
        assert(name.take(i) + seq!['.'] + name.skip(i + 1) =~= name);
    }
}

} // verus!
