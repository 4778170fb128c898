//! Character-level text operations with exact specifications.
//!
//! Strings are modelled by their view, a `Seq<char>`. The executable helpers here
//! work on `&[char]` / `Vec<char>` and on `&str` / `String` and are proved against
//! the spec functions of this module.
use vstd::prelude::*;

verus! {

// ---------------------------------------------------------------------------
// Conversions between strings and character vectors
// ---------------------------------------------------------------------------

/// Appends one character at the end of a string.
///
/// Trusted: calls `String::push`, which std documents as appending the given
/// `char` to the end of the `String`.
#[verifier::external_body]
fn push_char(s: &mut String, c: char)
    ensures
        final(s)@ == old(s)@.push(c),
{
    s.push(c);
}

/// Collects the characters of `s` into a vector.
pub fn chars_of(s: &str) -> (v: Vec<char>)
    ensures
        v@ == s@,
{
    let mut v: Vec<char> = Vec::new();
    for c in it: s.chars()
        invariant
            v@ == it.seq().take(it.index() as int),
            it.seq() == s@,
    {
        v.push(c);
    }
    v
}

/// Builds a string from a sequence of characters.
pub fn string_of(cs: &[char]) -> (s: String)
    ensures
        s@ == cs@,
{
    let mut s = String::new();
    let n = cs.len();
    for i in 0..n
        invariant
            n == cs@.len(),
            s@ == cs@.take(i as int),
    {
        push_char(&mut s, cs[i]);
        assert(cs@.take(i + 1) == cs@.take(i as int).push(cs@[i as int]));
    }
    assert(cs@.take(n as int) == cs@);
    s
}

/// Character-wise equality of two character slices.
pub fn chars_eq(a: &[char], b: &[char]) -> (r: bool)
    ensures
        r == (a@ == b@),
{
    if a.len() != b.len() {
        return false;
    }
    let n = a.len();
    for i in 0..n
        invariant
            n == a@.len(),
            n == b@.len(),
            forall|k: int| 0 <= k < i ==> a@[k] == b@[k],
    {
        if a[i] != b[i] {
            return false;
        }
    }
    assert(a@ == b@);
    true
}

/// Equality of the character views of two string slices.
pub fn str_eq(a: &str, b: &str) -> (r: bool)
    ensures
        r == (a@ == b@),
{
    let va = chars_of(a);
    let vb = chars_of(b);
    chars_eq(va.as_slice(), vb.as_slice())
}

// ---------------------------------------------------------------------------
// Searching for a character
// ---------------------------------------------------------------------------

/// `i` is the position of the first occurrence of `c` in `s`.
pub open spec fn is_first_index(s: Seq<char>, c: char, i: int) -> bool {
    &&& 0 <= i < s.len()
    &&& s[i] == c
    &&& forall|k: int| 0 <= k < i ==> s[k] != c
}

/// `i` is the position of the last occurrence of `c` in `s`.
pub open spec fn is_last_index(s: Seq<char>, c: char, i: int) -> bool {
    &&& 0 <= i < s.len()
    &&& s[i] == c
    &&& forall|k: int| i < k < s.len() ==> s[k] != c
}

/// The position of the first occurrence of `c` (meaningful when `s` contains `c`).
pub open spec fn first_index(s: Seq<char>, c: char) -> int {
    choose|i: int| is_first_index(s, c, i)
}

/// The position of the last occurrence of `c` (meaningful when `s` contains `c`).
pub open spec fn last_index(s: Seq<char>, c: char) -> int {
    choose|i: int| is_last_index(s, c, i)
}

/// The first occurrence of a character is unique.
pub proof fn lemma_first_index_unique(s: Seq<char>, c: char, i: int)
    requires
        is_first_index(s, c, i),
    ensures
        first_index(s, c) == i,
{
    let j = first_index(s, c);
    assert(is_first_index(s, c, j));
    if j < i {
        assert(s[j] != c);
    } else if i < j {
        assert(s[i] != c);
    }
}

/// The last occurrence of a character is unique.
pub proof fn lemma_last_index_unique(s: Seq<char>, c: char, i: int)
    requires
        is_last_index(s, c, i),
    ensures
        last_index(s, c) == i,
{
    let j = last_index(s, c);
    assert(is_last_index(s, c, j));
    if j < i {
        assert(s[i] != c);
    } else if i < j {
        assert(s[j] != c);
    }
}

/// A character that occurs has a last occurrence.
pub proof fn lemma_last_index_exists(s: Seq<char>, c: char)
    requires
        s.contains(c),
    ensures
        is_last_index(s, c, last_index(s, c)),
    decreases s.len(),
{
    if s.last() == c {
        assert(is_last_index(s, c, s.len() - 1));
    } else {
        let k = choose|k: int| 0 <= k < s.len() && s[k] == c;
        let t = s.drop_last();
        assert(t[k] == c);
        lemma_last_index_exists(t, c);
        let j = last_index(t, c);
        assert(s[j] == t[j]);
        assert forall|m: int| j < m < s.len() implies s[m] != c by {
            if m < s.len() - 1 {
                assert(s[m] == t[m]);
            }
        }
        assert(is_last_index(s, c, j));
    }
}

/// A character that occurs has a first occurrence.
pub proof fn lemma_first_index_exists(s: Seq<char>, c: char)
    requires
        s.contains(c),
    ensures
        is_first_index(s, c, first_index(s, c)),
    decreases s.len(),
{
    if s[0] == c {
        assert(is_first_index(s, c, 0));
    } else {
        let k = choose|k: int| 0 <= k < s.len() && s[k] == c;
        let t = s.drop_first();
        assert(t[k - 1] == c);
        lemma_first_index_exists(t, c);
        let j = first_index(t, c);
        assert(s[j + 1] == t[j]);
        assert forall|m: int| 0 <= m < j + 1 implies s[m] != c by {
            if m > 0 {
                assert(s[m] == t[m - 1]);
            }
        }
        assert(is_first_index(s, c, j + 1));
    }
}

/// Finds the first occurrence of `c`.
pub fn find_first(s: &[char], c: char) -> (r: Option<usize>)
    ensures
        match r {
            Some(i) => is_first_index(s@, c, i as int) && first_index(s@, c) == i,
            None => !s@.contains(c),
        },
{
    let n = s.len();
    for i in 0..n
        invariant
            n == s@.len(),
            forall|k: int| 0 <= k < i ==> s@[k] != c,
    {
        if s[i] == c {
            proof {
                lemma_first_index_unique(s@, c, i as int);
            }
            return Some(i);
        }
    }
    None
}

/// Finds the last occurrence of `c`.
pub fn find_last(s: &[char], c: char) -> (r: Option<usize>)
    ensures
        match r {
            Some(i) => is_last_index(s@, c, i as int) && last_index(s@, c) == i,
            None => !s@.contains(c),
        },
{
    let mut i = s.len();
    while i > 0
        invariant
            i <= s@.len(),
            forall|k: int| i <= k < s@.len() ==> s@[k] != c,
        decreases i,
    {
        if s[i - 1] == c {
            proof {
                lemma_last_index_unique(s@, c, i - 1);
            }
            return Some(i - 1);
        }
        i = i - 1;
    }
    None
}

/// The characters before the first `c`, or all of `s` when `c` does not occur
/// (the first piece of `s.split(c)`).
pub open spec fn before_first(s: Seq<char>, c: char) -> Seq<char> {
    if s.contains(c) {
        s.take(first_index(s, c))
    } else {
        s
    }
}

/// Returns the characters before the first `c` (all of `s` when there is none).
pub fn take_before_first(s: &[char], c: char) -> (r: Vec<char>)
    ensures
        r@ == before_first(s@, c),
{
    match find_first(s, c) {
        Some(i) => slice_take(s, i),
        None => slice_take(s, s.len()),
    }
}

/// Copies the first `n` characters.
pub fn slice_take(s: &[char], n: usize) -> (r: Vec<char>)
    requires
        n <= s@.len(),
    ensures
        r@ == s@.take(n as int),
{
    slice_range(s, 0, n)
}

/// Copies the characters from position `n` on.
pub fn slice_skip(s: &[char], n: usize) -> (r: Vec<char>)
    requires
        n <= s@.len(),
    ensures
        r@ == s@.skip(n as int),
{
    slice_range(s, n, s.len())
}

/// Copies the characters in positions `from .. to`.
pub fn slice_range(s: &[char], from: usize, to: usize) -> (r: Vec<char>)
    requires
        from <= to <= s@.len(),
    ensures
        r@ == s@.subrange(from as int, to as int),
{
    let mut r: Vec<char> = Vec::new();
    let mut i = from;
    while i < to
        invariant
            from <= i <= to <= s@.len(),
            r@ == s@.subrange(from as int, i as int),
        decreases to - i,
    {
        r.push(s[i]);
        i = i + 1;
    }
    r
}

// ---------------------------------------------------------------------------
// Prefixes and sub-sequences
// ---------------------------------------------------------------------------

/// `p` is a prefix of `s`.
pub open spec fn has_prefix(s: Seq<char>, p: Seq<char>) -> bool {
    p.len() <= s.len() && s.take(p.len() as int) == p
}

/// `p` occurs in `s` starting at position `i`.
pub open spec fn occurs_at(s: Seq<char>, p: Seq<char>, i: int) -> bool {
    0 <= i && i + p.len() <= s.len() && s.subrange(i, i + p.len()) == p
}

/// `p` occurs somewhere in `s` (`str::contains` with a string pattern).
pub open spec fn contains_seq(s: Seq<char>, p: Seq<char>) -> bool {
    exists|i: int| occurs_at(s, p, i)
}

/// Checks whether `p` occurs in `s` at position `i`.
pub fn occurs_at_exec(s: &[char], p: &[char], i: usize) -> (r: bool)
    ensures
        r == occurs_at(s@, p@, i as int),
{
    if i > s.len() || p.len() > s.len() - i {
        return false;
    }
    let n = p.len();
    let slen = s.len();
    for k in 0..n
        invariant
            n == p@.len(),
            slen == s@.len(),
            i + n <= s@.len(),
            k <= n,
            forall|j: int| 0 <= j < k ==> s@[i + j] == p@[j],
    {
        if s[i + k] != p[k] {
            assert(s@.subrange(i as int, i + p@.len())[k as int] != p@[k as int]);
            return false;
        }
    }
    assert(s@.subrange(i as int, i + p@.len()) == p@);
    true
}

/// `str::starts_with` on character slices.
pub fn starts_with(s: &[char], p: &[char]) -> (r: bool)
    ensures
        r == has_prefix(s@, p@),
{
    let r = occurs_at_exec(s, p, 0);
    proof {
        if p@.len() <= s@.len() {
            assert(s@.subrange(0, p@.len() as int) == s@.take(p@.len() as int));
        }
    }
    r
}

/// `str::contains` with a string pattern, on character slices.
pub fn contains_chars(s: &[char], p: &[char]) -> (r: bool)
    ensures
        r == contains_seq(s@, p@),
{
    if p.len() > s.len() {
        return false;
    }
    if p.len() == 0 {
        assert(s@.subrange(0, 0) =~= p@);
        assert(occurs_at(s@, p@, 0));
        return true;
    }
    let slen = s.len();
    let last = slen - p.len();
    let mut i: usize = 0;
    while i <= last
        invariant
            slen == s@.len(),
            last + p@.len() == s@.len(),
            p@.len() > 0,
            i <= last + 1,
            forall|j: int| 0 <= j < i ==> !occurs_at(s@, p@, j),
        decreases last + 1 - i,
    {
        if occurs_at_exec(s, p, i) {
            return true;
        }
        i = i + 1;
    }
    assert forall|j: int| !occurs_at(s@, p@, j) by {
        if 0 <= j && j + p@.len() <= s@.len() {
            assert(j < i);
        }
    }
    false
}

// ---------------------------------------------------------------------------
// Replacing
// ---------------------------------------------------------------------------

/// `str::replace(pat, rep)`: every non-overlapping occurrence of `pat`, scanning
/// from the left, is replaced by `rep`. A pattern that is empty leaves `s` as it is
/// here (the callers only use non-empty patterns).
pub open spec fn replace_all(s: Seq<char>, pat: Seq<char>, rep: Seq<char>) -> Seq<char>
    decreases s.len(),
{
    if pat.len() == 0 || s.len() < pat.len() {
        s
    } else if s.take(pat.len() as int) == pat {
        rep + replace_all(s.skip(pat.len() as int), pat, rep)
    } else {
        seq![s[0]] + replace_all(s.skip(1), pat, rep)
    }
}

/// Replacing a pattern whose first character does not occur leaves the text as it is.
pub proof fn lemma_replace_all_absent(s: Seq<char>, pat: Seq<char>, rep: Seq<char>)
    requires
        pat.len() > 0,
        !s.contains(pat[0]),
    ensures
        replace_all(s, pat, rep) == s,
    decreases s.len(),
{
    if s.len() >= pat.len() {
        assert(s.take(pat.len() as int)[0] == s[0]);
        assert(s.take(pat.len() as int) != pat);
        let t = s.skip(1);
        assert forall|k: int| 0 <= k < t.len() implies t[k] != pat[0] by {
            assert(t[k] == s[k + 1]);
        }
        lemma_replace_all_absent(t, pat, rep);
        assert(seq![s[0]] + t =~= s);
    }
}

/// Appends the characters of `add` to `r`.
pub fn append_chars(r: &mut Vec<char>, add: &[char])
    ensures
        final(r)@ == old(r)@ + add@,
{
    let n = add.len();
    for k in 0..n
        invariant
            n == add@.len(),
            r@ == old(r)@ + add@.take(k as int),
    {
        r.push(add[k]);
        assert(add@.take(k + 1) == add@.take(k as int).push(add@[k as int]));
    }
    assert(add@.take(n as int) == add@);
}

/// Replaces every occurrence of `pat` by `rep`, left to right.
pub fn replace_chars(s: &[char], pat: &[char], rep: &[char]) -> (r: Vec<char>)
    requires
        pat@.len() > 0,
    ensures
        r@ == replace_all(s@, pat@, rep@),
{
    let mut r: Vec<char> = Vec::new();
    let mut i: usize = 0;
    let n = s.len();
    assert(s@.skip(0) == s@);
    while i < n
        invariant
            n == s@.len(),
            i <= n,
            pat@.len() > 0,
            r@ + replace_all(s@.skip(i as int), pat@, rep@) == replace_all(s@, pat@, rep@),
        decreases n - i,
    {
        let ghost rest = s@.skip(i as int);
        let ghost old_r = r@;
        if occurs_at_exec(s, pat, i) {
            assert(rest.take(pat@.len() as int) == s@.subrange(i as int, i + pat@.len()));
            assert(rest.skip(pat@.len() as int) == s@.skip(i + pat@.len()));
            append_chars(&mut r, rep);
            i = i + pat.len();
            assert(old_r + (rep@ + replace_all(s@.skip(i as int), pat@, rep@))
                == r@ + replace_all(s@.skip(i as int), pat@, rep@));
        } else {
            proof {
                if rest.len() >= pat@.len() {
                    assert(rest.take(pat@.len() as int) == s@.subrange(i as int, i + pat@.len()));
                }
                assert(rest.skip(1) == s@.skip(i + 1));
                assert(rest[0] == s@[i as int]);
            }
            r.push(s[i]);
            i = i + 1;
            assert(old_r + (seq![s@[i - 1]] + replace_all(s@.skip(i as int), pat@, rep@))
                == r@ + replace_all(s@.skip(i as int), pat@, rep@));
        }
    }
    assert(s@.skip(n as int).len() == 0);
    assert(r@ + s@.skip(n as int) == r@);
    r
}

// ---------------------------------------------------------------------------
// Trimming
// ---------------------------------------------------------------------------

/// `char::is_whitespace`: the Unicode `White_Space` property.
pub open spec fn is_whitespace(c: char) -> bool {
    let u = c as int;
    ||| 0x09 <= u <= 0x0d
    ||| u == 0x20
    ||| u == 0x85
    ||| u == 0xa0
    ||| u == 0x1680
    ||| 0x2000 <= u <= 0x200a
    ||| u == 0x2028
    ||| u == 0x2029
    ||| u == 0x202f
    ||| u == 0x205f
    ||| u == 0x3000
}

/// Decides `is_whitespace`.
pub fn is_whitespace_exec(c: char) -> (r: bool)
    ensures
        r == is_whitespace(c),
{
    let u = c as u32;
    (0x09 <= u && u <= 0x0d) || u == 0x20 || u == 0x85 || u == 0xa0 || u == 0x1680 || (0x2000
        <= u && u <= 0x200a) || u == 0x2028 || u == 0x2029 || u == 0x202f || u == 0x205f || u
        == 0x3000
}

/// `s` without its leading whitespace.
pub open spec fn trim_start(s: Seq<char>) -> Seq<char>
    decreases s.len(),
{
    if s.len() > 0 && is_whitespace(s[0]) {
        trim_start(s.drop_first())
    } else {
        s
    }
}

/// `s` without its trailing whitespace.
pub open spec fn trim_end(s: Seq<char>) -> Seq<char>
    decreases s.len(),
{
    if s.len() > 0 && is_whitespace(s.last()) {
        trim_end(s.drop_last())
    } else {
        s
    }
}

/// `str::trim`: `s` without leading and trailing whitespace.
pub open spec fn trim(s: Seq<char>) -> Seq<char> {
    trim_end(trim_start(s))
}

/// Removes leading and trailing whitespace.
pub fn trim_chars(s: &[char]) -> (r: Vec<char>)
    ensures
        r@ == trim(s@),
{
    let n = s.len();
    let mut a: usize = 0;
    assert(s@.skip(0) == s@);
    while a < n && is_whitespace_exec(s[a])
        invariant
            n == s@.len(),
            a <= n,
            trim_start(s@.skip(a as int)) == trim_start(s@),
        decreases n - a,
    {
        assert(s@.skip(a as int).drop_first() == s@.skip(a + 1));
        a = a + 1;
    }
    let ghost t = s@.skip(a as int);
    assert(trim_start(t) == t);
    let mut b: usize = n;
    assert(t.subrange(0, (n - a) as int) == t);
    while b > a && is_whitespace_exec(s[b - 1])
        invariant
            n == s@.len(),
            a <= b <= n,
            t == s@.skip(a as int),
            trim_end(s@.subrange(a as int, b as int)) == trim_end(t),
        decreases b - a,
    {
        assert(s@.subrange(a as int, b as int).drop_last() == s@.subrange(a as int, b - 1));
        b = b - 1;
    }
    assert(s@.subrange(a as int, b as int) == t.subrange(0, (b - a) as int));
    slice_range(s, a, b)
}

/// `s` without its leading occurrences of `c` (`str::trim_start_matches(c)`).
pub open spec fn strip_leading(s: Seq<char>, c: char) -> Seq<char>
    decreases s.len(),
{
    if s.len() > 0 && s[0] == c {
        strip_leading(s.drop_first(), c)
    } else {
        s
    }
}

/// Removes the leading occurrences of `c`.
pub fn strip_leading_chars(s: &[char], c: char) -> (r: Vec<char>)
    ensures
        r@ == strip_leading(s@, c),
{
    let n = s.len();
    let mut a: usize = 0;
    assert(s@.skip(0) == s@);
    while a < n && s[a] == c
        invariant
            n == s@.len(),
            a <= n,
            strip_leading(s@.skip(a as int), c) == strip_leading(s@, c),
        decreases n - a,
    {
        assert(s@.skip(a as int).drop_first() == s@.skip(a + 1));
        a = a + 1;
    }
    slice_skip(s, a)
}

/// `s` with every `from` replaced by `to` (`str::replace` with one-character
/// pattern and replacement).
pub open spec fn replace_char(s: Seq<char>, from: char, to: char) -> Seq<char> {
    s.map_values(|ch: char| if ch == from { to } else { ch })
}

/// Replaces every `from` by `to`.
pub fn replace_char_exec(s: &[char], from: char, to: char) -> (r: Vec<char>)
    ensures
        r@ == replace_char(s@, from, to),
{
    let mut r: Vec<char> = Vec::new();
    let n = s.len();
    for i in 0..n
        invariant
            n == s@.len(),
            r@ == replace_char(s@.take(i as int), from, to),
    {
        let ch = s[i];
        r.push(if ch == from { to } else { ch });
        assert(s@.take(i + 1) == s@.take(i as int).push(ch));
    }
    assert(s@.take(n as int) == s@);
    r
}

// ---------------------------------------------------------------------------
// Lower case
// ---------------------------------------------------------------------------

/// What `str::to_lowercase` returns for a string.
pub uninterp spec fn lowercase_of(s: Seq<char>) -> Seq<char>;

/// ASCII lower-casing of one character.
pub open spec fn ascii_lower(c: char) -> char {
    if 'A' <= c <= 'Z' {
        ((c as int) + 32) as char
    } else {
        c
    }
}

/// All characters are ASCII.
pub open spec fn all_ascii(s: Seq<char>) -> bool {
    forall|i: int| 0 <= i < s.len() ==> (s[i] as int) < 128
}

/// Lower-cases a string.
///
/// Trusted: calls `str::to_lowercase`. The contract names its result
/// `lowercase_of` (the Unicode lower-case mapping, a function of the string alone)
/// and states what std's documentation and the Unicode tables give for ASCII
/// input: each ASCII upper-case letter maps to its lower-case letter and every
/// other ASCII character stays. Nothing is stated for non-ASCII input beyond the name.
#[verifier::external_body]
pub(crate) fn to_lowercase(s: &str) -> (r: String)
    ensures
        r@ == lowercase_of(s@),
        all_ascii(s@) ==> r@ == s@.map_values(|c: char| ascii_lower(c)),
{
    s.to_lowercase()
}

// ---------------------------------------------------------------------------
// Ordering
// ---------------------------------------------------------------------------

/// Lexicographic order of strings by code point. For Rust strings this is the
/// order of `String::cmp` (UTF-8 preserves the code-point order byte-wise).
pub open spec fn chars_lt(a: Seq<char>, b: Seq<char>) -> bool
    decreases a.len(),
{
    if a.len() == 0 {
        b.len() > 0
    } else if b.len() == 0 {
        false
    } else if a[0] != b[0] {
        (a[0] as int) < (b[0] as int)
    } else {
        chars_lt(a.drop_first(), b.drop_first())
    }
}

/// `chars_lt` is transitive.
pub proof fn lemma_chars_lt_transitive(a: Seq<char>, b: Seq<char>, c: Seq<char>)
    requires
        chars_lt(a, b),
        chars_lt(b, c),
    ensures
        chars_lt(a, c),
    decreases a.len(),
{
    if a.len() > 0 && b.len() > 0 && c.len() > 0 && a[0] == b[0] && b[0] == c[0] {
        lemma_chars_lt_transitive(a.drop_first(), b.drop_first(), c.drop_first());
    }
}

/// Two strings that are not ordered either way are equal.
pub proof fn lemma_chars_lt_total(a: Seq<char>, b: Seq<char>)
    requires
        !chars_lt(a, b),
        !chars_lt(b, a),
    ensures
        a == b,
    decreases a.len(),
{
    if a.len() > 0 && b.len() > 0 {
        if a[0] == b[0] {
            lemma_chars_lt_total(a.drop_first(), b.drop_first());
            assert(a == seq![a[0]] + a.drop_first());
            assert(b == seq![b[0]] + b.drop_first());
        } else {
            assert((a[0] as int) != (b[0] as int));
        }
    } else if a.len() == 0 && b.len() == 0 {
        assert(a =~= b);
    }
}

/// No string precedes itself.
pub proof fn lemma_chars_lt_irreflexive(a: Seq<char>)
    ensures
        !chars_lt(a, a),
    decreases a.len(),
{
    if a.len() > 0 {
        lemma_chars_lt_irreflexive(a.drop_first());
    }
}

/// No two strings precede each other.
pub proof fn lemma_chars_lt_asymmetric(a: Seq<char>, b: Seq<char>)
    requires
        chars_lt(a, b),
    ensures
        !chars_lt(b, a),
{
    if chars_lt(b, a) {
        lemma_chars_lt_transitive(a, b, a);
        lemma_chars_lt_irreflexive(a);
    }
}

/// A proper prefix, or a string with the smaller character where the two first
/// differ, comes first.
proof fn lemma_chars_lt_before(a: Seq<char>, b: Seq<char>)
    ensures
        a.len() < b.len() && b.take(a.len() as int) == a ==> chars_lt(a, b),
        forall|i: int|
            0 <= i < a.len() && i < b.len() && a.take(i) == b.take(i) && (a[i] as int) < (
            #[trigger] b[i] as int) ==> chars_lt(a, b),
    decreases a.len(),
{
    if a.len() > 0 && b.len() > 0 {
        lemma_chars_lt_before(a.drop_first(), b.drop_first());
        if a.len() < b.len() && b.take(a.len() as int) == a {
            assert(b.take(a.len() as int)[0] == b[0]);
            assert(b.drop_first().take(a.drop_first().len() as int) =~= a.drop_first()) by {
                assert forall|k: int| 0 <= k < a.len() - 1 implies b.drop_first()[k] == a.drop_first()[k] by {
                    assert(b.take(a.len() as int)[k + 1] == b[k + 1]);
                }
            }
        }
        assert forall|i: int|
            0 <= i < a.len() && i < b.len() && a.take(i) == b.take(i) && (a[i] as int) < (
            #[trigger] b[i] as int) implies chars_lt(a, b) by {
            if i > 0 {
                assert(a.take(i)[0] == b.take(i)[0]);
                assert(a.drop_first().take(i - 1) =~= b.drop_first().take(i - 1)) by {
                    assert forall|k: int| 0 <= k < i - 1 implies a.drop_first()[k] == b.drop_first()[k] by {
                        assert(a.take(i)[k + 1] == b.take(i)[k + 1]);
                    }
                }
                assert(a.drop_first()[i - 1] == a[i]);
                assert(b.drop_first()[i - 1] == b[i]);
            }
        }
    }
}

/// The order of `chars_lt` is that of `String::cmp`: a proper prefix comes
/// before every longer string that starts with it, and of two strings that agree
/// up to position `i` and differ there, the one with the smaller character at `i`
/// comes first.
pub proof fn lemma_chars_lt_lexicographic(a: Seq<char>, b: Seq<char>)
    ensures
        a.len() < b.len() && b.take(a.len() as int) == a ==> chars_lt(a, b),
        forall|i: int|
            0 <= i < a.len() && i < b.len() && a.take(i) == b.take(i) && (a[i] as int) < (
            #[trigger] b[i] as int) ==> chars_lt(a, b),
        b.len() <= a.len() && a.take(b.len() as int) == b ==> !chars_lt(a, b),
        forall|i: int|
            0 <= i < a.len() && i < b.len() && a.take(i) == b.take(i) && (b[i] as int) < (
            #[trigger] a[i] as int) ==> !chars_lt(a, b),
{
    lemma_chars_lt_before(a, b);
    lemma_chars_lt_before(b, a);
    if b.len() <= a.len() && a.take(b.len() as int) == b {
        if b.len() < a.len() {
            lemma_chars_lt_asymmetric(b, a);
        } else {
            assert(a =~= b);
            lemma_chars_lt_irreflexive(a);
        }
    }
    assert forall|i: int|
        0 <= i < a.len() && i < b.len() && a.take(i) == b.take(i) && (b[i] as int) < (
        #[trigger] a[i] as int) implies !chars_lt(a, b) by {
        assert(b.take(i) == a.take(i));
        assert(chars_lt(b, a));
        lemma_chars_lt_asymmetric(b, a);
    }
}

/// Decides `chars_lt`.
pub fn chars_less(a: &[char], b: &[char]) -> (r: bool)
    ensures
        r == chars_lt(a@, b@),
{
    let na = a.len();
    let nb = b.len();
    let mut i: usize = 0;
    assert(a@.skip(0) == a@);
    assert(b@.skip(0) == b@);
    while i < na && i < nb && a[i] == b[i]
        invariant
            na == a@.len(),
            nb == b@.len(),
            i <= na,
            i <= nb,
            chars_lt(a@.skip(i as int), b@.skip(i as int)) == chars_lt(a@, b@),
        decreases na - i,
    {
        assert(a@.skip(i as int).drop_first() == a@.skip(i + 1));
        assert(b@.skip(i as int).drop_first() == b@.skip(i + 1));
        i = i + 1;
    }
    if i == na {
        i < nb
    } else if i == nb {
        false
    } else {
        assert(a@.skip(i as int)[0] == a@[i as int]);
        assert(b@.skip(i as int)[0] == b@[i as int]);
        a[i] < b[i]
    }
}

// ---------------------------------------------------------------------------
// Decimal numbers
// ---------------------------------------------------------------------------

/// The digit character for `d < 10`.
pub open spec fn digit_char(d: nat) -> char {
    if d == 0 {
        '0'
    } else if d == 1 {
        '1'
    } else if d == 2 {
        '2'
    } else if d == 3 {
        '3'
    } else if d == 4 {
        '4'
    } else if d == 5 {
        '5'
    } else if d == 6 {
        '6'
    } else if d == 7 {
        '7'
    } else if d == 8 {
        '8'
    } else {
        '9'
    }
}

/// Decimal digits of a natural number, without leading zeros.
pub open spec fn decimal_nat(n: nat) -> Seq<char>
    decreases n,
{
    if n < 10 {
        seq![digit_char(n)]
    } else {
        decimal_nat(n / 10).push(digit_char(n % 10))
    }
}

/// Decimal form of an integer, as `Display` for integers writes it.
pub open spec fn decimal(n: int) -> Seq<char> {
    if n < 0 {
        seq!['-'] + decimal_nat((-n) as nat)
    } else {
        decimal_nat(n as nat)
    }
}

fn digit_exec(d: u64) -> (c: char)
    requires
        d < 10,
    ensures
        c == digit_char(d as nat),
{
    if d == 0 {
        '0'
    } else if d == 1 {
        '1'
    } else if d == 2 {
        '2'
    } else if d == 3 {
        '3'
    } else if d == 4 {
        '4'
    } else if d == 5 {
        '5'
    } else if d == 6 {
        '6'
    } else if d == 7 {
        '7'
    } else if d == 8 {
        '8'
    } else {
        '9'
    }
}

/// Decimal digits of `n`.
pub fn decimal_u64(n: u64) -> (r: Vec<char>)
    ensures
        r@ == decimal_nat(n as nat),
{
    let mut m = n;
    let mut tail: Vec<char> = Vec::new();
    while m >= 10
        invariant
            decimal_nat(n as nat) == decimal_nat(m as nat) + tail@,
        decreases m,
    {
        let d = digit_exec(m % 10);
        let ghost old_tail = tail@;
        tail.insert(0, d);
        assert(tail@ == seq![d] + old_tail);
        assert(decimal_nat(m as nat) == decimal_nat((m / 10) as nat).push(d));
        m = m / 10;
        assert(decimal_nat(n as nat) == decimal_nat(m as nat) + tail@);
    }
    let mut r: Vec<char> = Vec::new();
    r.push(digit_exec(m));
    append_chars(&mut r, tail.as_slice());
    r
}

/// Decimal form of `n` (`n.to_string()`).
pub fn decimal_i32(n: i32) -> (r: Vec<char>)
    ensures
        r@ == decimal(n as int),
{
    if n < 0 {
        let abs: u64 = (0i64 - (n as i64)) as u64;
        let digits = decimal_u64(abs);
        let mut r: Vec<char> = Vec::new();
        r.push('-');
        append_chars(&mut r, digits.as_slice());
        r
    } else {
        decimal_u64(n as u64)
    }
}

} // verus!
