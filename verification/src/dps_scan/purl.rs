//! Package URLs (`pkg:<ecosystem>/<name>@<version>[?qualifiers][#subpath]`).
use vstd::prelude::*;

use crate::text::{
    before_first, chars_of, find_first, find_last, first_index, has_prefix, is_first_index,
    is_last_index, last_index, lemma_first_index_unique, lemma_last_index_unique,
    lemma_replace_all_absent, replace_all, replace_chars, slice_skip, slice_take, starts_with,
    string_of, take_before_first,
};

verus! {

/// The purl without its `pkg:` scheme, when it has one.
pub open spec fn without_scheme(purl: Seq<char>) -> Seq<char> {
    if has_prefix(purl, "pkg:"@) {
        purl.skip("pkg:"@.len() as int)
    } else {
        purl
    }
}

/// The ecosystem: what stands before the first `/`, or `unknown` when there is no `/`.
pub open spec fn purl_ecosystem(purl: Seq<char>) -> Seq<char> {
    let ws = without_scheme(purl);
    if ws.contains('/') {
        ws.take(first_index(ws, '/'))
    } else {
        "unknown"@
    }
}

/// What follows the first `/` (all of it when there is none), with qualifiers
/// (from `?`) and subpath (from `#`) cut off.
pub open spec fn purl_coordinates(purl: Seq<char>) -> Seq<char> {
    let ws = without_scheme(purl);
    let rest = if ws.contains('/') {
        ws.skip(first_index(ws, '/') + 1)
    } else {
        ws
    };
    before_first(before_first(rest, '?'), '#')
}

/// The version: what follows the last `@` of the coordinates, or empty.
pub open spec fn purl_version(purl: Seq<char>) -> Seq<char> {
    let rest = purl_coordinates(purl);
    if rest.contains('@') {
        rest.skip(last_index(rest, '@') + 1)
    } else {
        Seq::empty()
    }
}

/// The raw name: the coordinates before the last `@` (all of them when there is none).
pub open spec fn purl_raw_name(purl: Seq<char>) -> Seq<char> {
    let rest = purl_coordinates(purl);
    if rest.contains('@') {
        rest.take(last_index(rest, '@'))
    } else {
        rest
    }
}

/// The name, with `%40` decoded to `@` and then `%2F` decoded to `/`.
pub open spec fn purl_name(purl: Seq<char>) -> Seq<char> {
    replace_all(replace_all(purl_raw_name(purl), "%40"@, "@"@), "%2F"@, "/"@)
}

/// Splits a package URL into `(name, version, ecosystem)`, e.g.
/// `pkg:npm/%40angular/core@15.0.0` gives `("@angular/core", "15.0.0", "npm")`.
pub fn parse_purl(purl: &str) -> (r: (String, String, String))
    ensures
        r.0@ == purl_name(purl@),
        r.1@ == purl_version(purl@),
        r.2@ == purl_ecosystem(purl@),
{
    let p = chars_of(purl);
    let scheme = chars_of("pkg:");
    let ws = if starts_with(p.as_slice(), scheme.as_slice()) {
        slice_skip(p.as_slice(), scheme.len())
    } else {
        p
    };
    assert(ws@ == without_scheme(purl@));
    let _ws_len = ws.len();
    let (ecosystem, rest) = match find_first(ws.as_slice(), '/') {
        Some(i) => (slice_take(ws.as_slice(), i), slice_skip(ws.as_slice(), i + 1)),
        None => (chars_of("unknown"), ws),
    };
    let rest = take_before_first(rest.as_slice(), '?');
    let rest = take_before_first(rest.as_slice(), '#');
    assert(rest@ == purl_coordinates(purl@));
    let _rest_len = rest.len();
    let (name_raw, version) = match find_last(rest.as_slice(), '@') {
        Some(j) => (slice_take(rest.as_slice(), j), slice_skip(rest.as_slice(), j + 1)),
        None => (rest, Vec::new()),
    };
    let at_encoded = chars_of("%40");
    let at = chars_of("@");
    let slash_encoded = chars_of("%2F");
    let slash = chars_of("/");
    proof {
        reveal_strlit("%40");
        reveal_strlit("%2F");
    }
    let name = replace_chars(name_raw.as_slice(), at_encoded.as_slice(), at.as_slice());
    let name = replace_chars(name.as_slice(), slash_encoded.as_slice(), slash.as_slice());
    (string_of(name.as_slice()), string_of(version.as_slice()), string_of(ecosystem.as_slice()))
}

/// A package URL written as `pkg:<ecosystem>/<name>@<version>` is read back as
/// those three parts, when the ecosystem holds no `/`, the name no `%`, `?` or
/// `#`, and the version no `@`, `?` or `#`.
pub proof fn lemma_parse_purl_round_trip(eco: Seq<char>, name: Seq<char>, ver: Seq<char>)
    requires
        !eco.contains('/'),
        !name.contains('%'),
        !name.contains('?'),
        !name.contains('#'),
        !ver.contains('@'),
        !ver.contains('?'),
        !ver.contains('#'),
    ensures
        purl_name("pkg:"@ + eco + "/"@ + name + "@"@ + ver) == name,
        purl_version("pkg:"@ + eco + "/"@ + name + "@"@ + ver) == ver,
        purl_ecosystem("pkg:"@ + eco + "/"@ + name + "@"@ + ver) == eco,
{
    reveal_strlit("pkg:");
    reveal_strlit("/");
    reveal_strlit("@");
    reveal_strlit("%40");
    reveal_strlit("%2F");
    let p = "pkg:"@ + eco + "/"@ + name + "@"@ + ver;
    let ws = eco + "/"@ + name + "@"@ + ver;
    assert(p.take(4) =~= "pkg:"@);
    assert(p.skip(4) =~= ws);
    assert(without_scheme(p) == ws);
    let e = eco.len() as int;
    assert(ws[e] == '/');
    assert forall|k: int| 0 <= k < e implies ws[k] != '/' by {
        assert(ws[k] == eco[k]);
    }
    assert(is_first_index(ws, '/', e));
    lemma_first_index_unique(ws, '/', e);
    assert(ws.contains('/'));
    assert(ws.take(e) =~= eco);
    let rest = name + "@"@ + ver;
    assert(ws.skip(e + 1) =~= rest);
    let n = name.len() as int;
    assert forall|k: int| 0 <= k < rest.len() implies rest[k] != '?' && rest[k] != '#' by {
        if k < n {
            assert(rest[k] == name[k]);
        } else if k > n {
            assert(rest[k] == ver[k - n - 1]);
        }
    }
    assert(!rest.contains('?'));
    assert(before_first(rest, '?') == rest);
    assert(!rest.contains('#'));
    assert(before_first(rest, '#') == rest);
    assert(purl_coordinates(p) == rest);
    assert(rest[n] == '@');
    assert forall|k: int| n < k < rest.len() implies rest[k] != '@' by {
        assert(rest[k] == ver[k - n - 1]);
    }
    assert(is_last_index(rest, '@', n));
    lemma_last_index_unique(rest, '@', n);
    assert(rest.contains('@'));
    assert(rest.take(n) =~= name);
    assert(rest.skip(n + 1) =~= ver);
    assert(purl_raw_name(p) == name);
    lemma_replace_all_absent(name, "%40"@, "@"@);
    lemma_replace_all_absent(name, "%2F"@, "/"@);
}

} // verus!
