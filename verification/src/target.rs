//! Request targets: a request path is checked (no absolute URL, no fragment,
//! no dot segment, neither as written nor as the URL parser reads it) and
//! joined under the base URL's path; the URL built from it keeps the base
//! URL's scheme, host and port, and the path handed to the URL parser is the
//! base path followed by a part free of all of these.

use crate::error::HttpClientError;
use crate::text::{
    chars_of, is_unicode_ws, lemma_trim_ws_end_offset, lemma_trim_ws_len,
    lemma_trim_ws_start_offset, trim_ws, trim_ws_bounds,
};
use vstd::prelude::*;
use url::Url;
use vstd::string::*;

verus! {

/// The index of the first character at or after `i` that satisfies `p`.
pub open spec fn find_where(s: Seq<char>, p: spec_fn(char) -> bool, i: int) -> Option<int>
    decreases s.len() - i,
{
    if i < 0 || i >= s.len() {
        None
    } else if p(s[i]) {
        Some(i)
    } else {
        find_where(s, p, i + 1)
    }
}

/// The predicate "is the character `c`".
pub open spec fn is_char(c: char) -> spec_fn(char) -> bool {
    |x: char| x == c
}

/// The index of the first `c` in `s`.
pub open spec fn find_char(s: Seq<char>, c: char) -> Option<int> {
    find_where(s, is_char(c), 0)
}

/// Whether `p` occurs in `s` at index `i`.
pub open spec fn occurs_at(s: Seq<char>, i: int, p: Seq<char>) -> bool {
    0 <= i && i + p.len() <= s.len() && s.subrange(i, i + p.len()) == p
}

/// The index of the first occurrence of `p` in `s` at or after `i`.
pub open spec fn find_from(s: Seq<char>, p: Seq<char>, i: int) -> Option<int>
    decreases s.len() - i,
{
    if i < 0 || i >= s.len() || i + p.len() > s.len() {
        None
    } else if occurs_at(s, i, p) {
        Some(i)
    } else {
        find_from(s, p, i + 1)
    }
}

/// ASCII letters.
pub open spec fn is_ascii_alpha(c: char) -> bool {
    ('a' <= c <= 'z') || ('A' <= c <= 'Z')
}

/// ASCII letters and digits.
pub open spec fn is_ascii_alnum(c: char) -> bool {
    is_ascii_alpha(c) || ('0' <= c <= '9')
}

/// A URL scheme: a letter followed by letters, digits, `+`, `-` or `.`.
pub open spec fn is_scheme(t: Seq<char>) -> bool {
    &&& t.len() > 0
    &&& is_ascii_alpha(t[0])
    &&& forall|i: int|
        1 <= i < t.len() ==> is_ascii_alnum(#[trigger] t[i]) || t[i] == '+' || t[i] == '-'
            || t[i] == '.'
}

/// Whether `s` is (or starts like) an absolute URL: it begins with `//`
/// (scheme-relative), or what comes before its first `://` is a scheme.
pub open spec fn looks_like_absolute(s: Seq<char>) -> bool {
    ||| (s.len() >= 2 && s[0] == '/' && s[1] == '/')
    ||| match find_from(s, seq![':', '/', '/'], 0) {
        Some(k) => is_scheme(s.subrange(0, k)),
        None => false,
    }
}

/// `c` with ASCII upper-case letters mapped to lower case.
pub open spec fn ascii_lower(c: char) -> char {
    if 'A' <= c <= 'Z' {
        ((c as u32) + 32) as char
    } else {
        c
    }
}

/// A path segment that refers to the current or parent directory, literally
/// or percent-encoded, in any letter case: `.`, `..`, `%2e`, `.%2e`, `%2e.`,
/// `%2e%2e`.
pub open spec fn is_forbidden_segment(seg: Seq<char>) -> bool {
    let l = seg.map_values(|c: char| ascii_lower(c));
    ||| l == seq!['.']
    ||| l == seq!['.', '.']
    ||| l == seq!['%', '2', 'e']
    ||| l == seq!['.', '%', '2', 'e']
    ||| l == seq!['%', '2', 'e', '.']
    ||| l == seq!['%', '2', 'e', '%', '2', 'e']
}

/// `s[i..j]` is one of the `/`-separated segments of `s`.
pub open spec fn is_segment(s: Seq<char>, i: int, j: int) -> bool {
    &&& 0 <= i <= j <= s.len()
    &&& (i == 0 || s[i - 1] == '/')
    &&& (j == s.len() || s[j] == '/')
    &&& forall|k: int| i <= k < j ==> s[k] != '/'
}

/// Whether some segment of `s` is a dot segment.
pub open spec fn has_dot_segment(s: Seq<char>) -> bool {
    exists|i: int, j: int| is_segment(s, i, j) && #[trigger] is_forbidden_segment(s.subrange(i, j))
}

/// The path part of a target: everything before the first `?`.
pub open spec fn path_part(t: Seq<char>) -> Seq<char> {
    match find_char(t, '?') {
        Some(q) => t.subrange(0, q),
        None => t,
    }
}

/// The query of a target: everything after the first `?`, if there is one.
pub open spec fn query_part(t: Seq<char>) -> Option<Seq<char>> {
    match find_char(t, '?') {
        Some(q) => Some(t.subrange(q + 1, t.len() as int)),
        None => None,
    }
}

/// `s` without its leading `/` characters.
pub open spec fn strip_leading_slashes(s: Seq<char>) -> Seq<char>
    decreases s.len(),
{
    if s.len() > 0 && s[0] == '/' {
        strip_leading_slashes(s.drop_first())
    } else {
        s
    }
}

/// A path as the URL parser reads it in an `http(s)` URL: `\\` is a
/// separator like `/`, and tab, CR and LF are dropped.
pub open spec fn parser_reading(s: Seq<char>) -> Seq<char>
    decreases s.len(),
{
    if s.len() == 0 {
        s
    } else {
        let r = parser_reading(s.drop_last());
        let c = s.last();
        if c == '\t' || c == '\n' || c == '\r' {
            r
        } else if c == '\\' {
            r.push('/')
        } else {
            r.push(c)
        }
    }
}

/// Why a request path is refused.
pub enum PathRejection {
    /// The path is an absolute URL and would leave the base URL.
    AbsoluteUrl,
    /// The path carries a `#fragment`.
    Fragment,
    /// The path has a `.` or `..` segment (or an encoded one), as written or
    /// as the URL parser reads it.
    DotSegment,
}

/// Whether, and why, a request path is refused; it is checked after trimming
/// surrounding whitespace, in this order.
pub open spec fn path_rejection(path: Seq<char>) -> Option<PathRejection> {
    let t = trim_ws(path);
    if looks_like_absolute(t) {
        Some(PathRejection::AbsoluteUrl)
    } else if t.contains('#') {
        Some(PathRejection::Fragment)
    } else if has_dot_segment(path_part(t)) || has_dot_segment(parser_reading(path_part(t))) {
        Some(PathRejection::DotSegment)
    } else {
        None
    }
}

/// The message of an `InvalidRequestPath` error.
pub open spec fn rejection_message(r: PathRejection) -> Seq<char> {
    match r {
        PathRejection::AbsoluteUrl => "path must be relative to base_url"@,
        PathRejection::Fragment => "path must not contain a fragment"@,
        PathRejection::DotSegment => "path must not contain '.' or '..' segments"@,
    }
}

/// The path a request goes to: the base URL's path followed by the request
/// path without its query and leading slashes.
pub open spec fn target_path(base_path: Seq<char>, path: Seq<char>) -> Seq<char> {
    base_path + strip_leading_slashes(path_part(trim_ws(path)))
}

/// The query a request carries.
pub open spec fn target_query(path: Seq<char>) -> Option<Seq<char>> {
    query_part(trim_ws(path))
}

/// The characters of an optional string.
pub open spec fn opt_string_view(s: Option<String>) -> Option<Seq<char>> {
    match s {
        Some(s) => Some(s@),
        None => None,
    }
}

/// Where a request goes under the base URL: its path and its query.
#[derive(Debug)]
pub struct RequestTarget {
    pub path: String,
    pub query: Option<String>,
}

proof fn lemma_find_where_exact(s: Seq<char>, p: spec_fn(char) -> bool, i: int, n: int)
    requires
        0 <= i <= n <= s.len(),
        forall|j: int| i <= j < n ==> !p(#[trigger] s[j]),
    ensures
        n < s.len() && p(s[n]) ==> find_where(s, p, i) == Some(n),
        n == s.len() ==> find_where(s, p, i) is None,
    decreases n - i,
{
    if i < n {
        lemma_find_where_exact(s, p, i + 1, n);
    }
}

proof fn lemma_find_from_exact(s: Seq<char>, p: Seq<char>, i: int, n: int)
    requires
        0 <= i <= n,
        p.len() > 0,
        n + p.len() <= s.len() + 1,
        forall|j: int| i <= j < n ==> !occurs_at(s, j, p),
    ensures
        n + p.len() <= s.len() && occurs_at(s, n, p) ==> find_from(s, p, i) == Some(n),
        n + p.len() == s.len() + 1 ==> find_from(s, p, i) is None,
    decreases n - i,
{
    if i < n {
        lemma_find_from_exact(s, p, i + 1, n);
    }
}

/// A copy of `v[lo..hi]`.
fn copy_chars(v: &Vec<char>, lo: usize, hi: usize) -> (r: Vec<char>)
    requires
        lo <= hi <= v@.len(),
    ensures
        r@ == v@.subrange(lo as int, hi as int),
{
    let mut r: Vec<char> = Vec::new();
    let mut i = lo;
    while i < hi
        invariant
            lo <= i <= hi <= v@.len(),
            r@ == v@.subrange(lo as int, i as int),
        decreases hi - i,
    {
        r.push(v[i]);
        assert(v@.subrange(lo as int, i + 1) =~= v@.subrange(lo as int, i as int).push(
            v@[i as int],
        ));
        i = i + 1;
    }
    r
}

/// The index of the first `c` in `v`, or `v.len()`.
fn position_of(v: &Vec<char>, c: char) -> (r: usize)
    ensures
        r <= v@.len(),
        r < v@.len() ==> find_char(v@, c) == Some(r as int) && v@[r as int] == c,
        r == v@.len() ==> find_char(v@, c) is None,
        forall|j: int| 0 <= j < r ==> v@[j] != c,
{
    let mut i: usize = 0;
    while i < v.len() && v[i] != c
        invariant
            i <= v@.len(),
            forall|j: int| 0 <= j < i ==> v@[j] != c,
        decreases v@.len() - i,
    {
        i = i + 1;
    }
    proof {
        lemma_find_where_exact(v@, is_char(c), 0, i as int);
    }
    i
}

fn is_ascii_alpha_char(c: char) -> (r: bool)
    ensures
        r == is_ascii_alpha(c),
{
    ('a' <= c && c <= 'z') || ('A' <= c && c <= 'Z')
}

/// Whether `v[0..k]` is a URL scheme.
fn is_scheme_prefix(v: &Vec<char>, k: usize) -> (r: bool)
    requires
        k <= v@.len(),
    ensures
        r == is_scheme(v@.subrange(0, k as int)),
{
    let ghost t = v@.subrange(0, k as int);
    if k == 0 || !is_ascii_alpha_char(v[0]) {
        return false;
    }
    let mut i: usize = 1;
    while i < k
        invariant
            1 <= i <= k <= v@.len(),
            t == v@.subrange(0, k as int),
            forall|j: int|
                1 <= j < i ==> is_ascii_alnum(#[trigger] t[j]) || t[j] == '+' || t[j] == '-'
                    || t[j] == '.',
        decreases k - i,
    {
        let c = v[i];
        if !(is_ascii_alpha_char(c) || ('0' <= c && c <= '9') || c == '+' || c == '-' || c
            == '.') {
            assert(t[i as int] == c);
            return false;
        }
        i = i + 1;
    }
    true
}

proof fn lemma_scheme_separator()
    ensures
        seq![':', '/', '/'].len() == 3,
        seq![':', '/', '/'][0] == ':',
        seq![':', '/', '/'][1] == '/',
        seq![':', '/', '/'][2] == '/',
{
    let s = seq![':', '/', '/'];
    assert(s =~= seq![':'].push('/').push('/'));
}

/// Whether the characters `v` look like an absolute URL.
fn looks_like_absolute_chars(v: &Vec<char>) -> (r: bool)
    ensures
        r == looks_like_absolute(v@),
{
    let n = v.len();
    if n >= 2 && v[0] == '/' && v[1] == '/' {
        return true;
    }
    let ghost pat = seq![':', '/', '/'];
    let mut i: usize = 0;
    while n - i >= 3 && !(v[i] == ':' && v[i + 1] == '/' && v[i + 2] == '/')
        invariant
            n == v@.len(),
            i <= n,
            pat == seq![':', '/', '/'],
            forall|j: int| 0 <= j < i ==> !occurs_at(v@, j, pat),
        decreases n - i,
    {
        proof {
            if occurs_at(v@, i as int, pat) {
                lemma_scheme_separator();
                let w = v@.subrange(i as int, i + 3);
                assert(w == pat);
                assert(w[0] == v@[i as int]);
                assert(w[1] == v@[i + 1]);
                assert(w[2] == v@[i + 2]);
            }
        }
        i = i + 1;
    }
    proof {
        lemma_scheme_separator();
    }
    if n - i < 3 {
        proof {
            if n >= 2 {
                lemma_find_from_exact(v@, pat, 0, n - 2);
            }
        }
        return false;
    }
    proof {
        assert(v@.subrange(i as int, i + 3) =~= pat);
        lemma_find_from_exact(v@, pat, 0, i as int);
    }
    is_scheme_prefix(v, i)
}

/// Whether `path` is (or starts like) an absolute URL: it begins with `//`,
/// or what precedes its first `://` is a URL scheme.
pub fn looks_like_absolute_url(path: &str) -> (r: bool)
    ensures
        r == looks_like_absolute(path@),
{
    looks_like_absolute_chars(&chars_of(path))
}

proof fn lemma_ascii_lower(c: char)
    ensures
        ascii_lower(c) == '.' <==> c == '.',
        ascii_lower(c) == '%' <==> c == '%',
        ascii_lower(c) == '2' <==> c == '2',
        ascii_lower(c) == 'e' <==> (c == 'e' || c == 'E'),
{
}

/// Whether `c`, lower-cased, is `t` (one of `.`, `%`, `2`, `e`).
fn lower_is(c: char, t: char) -> (r: bool)
    requires
        t == '.' || t == '%' || t == '2' || t == 'e',
    ensures
        r == (ascii_lower(c) == t),
{
    proof {
        lemma_ascii_lower(c);
    }
    if t == 'e' {
        c == 'e' || c == 'E'
    } else {
        c == t
    }
}

/// Whether `v[i..j]`, lower-cased, is `lit` (made of `.`, `%`, `2`, `e`).
fn lowered_equals(v: &Vec<char>, i: usize, j: usize, lit: &[char]) -> (r: bool)
    requires
        i <= j <= v@.len(),
        forall|k: int|
            0 <= k < lit@.len() ==> #[trigger] lit@[k] == '.' || lit@[k] == '%' || lit@[k] == '2'
                || lit@[k] == 'e',
    ensures
        r == (v@.subrange(i as int, j as int).map_values(|c: char| ascii_lower(c)) == lit@),
{
    let ghost l = v@.subrange(i as int, j as int).map_values(|c: char| ascii_lower(c));
    if j - i != lit.len() {
        return false;
    }
    let mut k: usize = 0;
    while k < lit.len()
        invariant
            i <= j <= v@.len(),
            j - i == lit@.len(),
            k <= lit@.len(),
            l == v@.subrange(i as int, j as int).map_values(|c: char| ascii_lower(c)),
            forall|m: int|
                0 <= m < lit@.len() ==> #[trigger] lit@[m] == '.' || lit@[m] == '%' || lit@[m]
                    == '2' || lit@[m] == 'e',
            forall|m: int| 0 <= m < k ==> l[m] == lit@[m],
        decreases lit@.len() - k,
    {
        if !lower_is(v[i + k], lit[k]) {
            assert(l[k as int] == ascii_lower(v@[i + k]));
            return false;
        }
        assert(l[k as int] == ascii_lower(v@[i + k]));
        k = k + 1;
    }
    assert(l =~= lit@);
    true
}

/// Whether `v[i..j]` is a dot segment.
fn is_forbidden_chars(v: &Vec<char>, i: usize, j: usize) -> (r: bool)
    requires
        i <= j <= v@.len(),
    ensures
        r == is_forbidden_segment(v@.subrange(i as int, j as int)),
{
    let dot = ['.'];
    let dot_dot = ['.', '.'];
    let enc = ['%', '2', 'e'];
    let dot_enc = ['.', '%', '2', 'e'];
    let enc_dot = ['%', '2', 'e', '.'];
    let enc_enc = ['%', '2', 'e', '%', '2', 'e'];
    proof {
        assert(dot@ =~= seq!['.']);
        assert(dot_dot@ =~= seq!['.', '.']);
        assert(enc@ =~= seq!['%', '2', 'e']);
        assert(dot_enc@ =~= seq!['.', '%', '2', 'e']);
        assert(enc_dot@ =~= seq!['%', '2', 'e', '.']);
        assert(enc_enc@ =~= seq!['%', '2', 'e', '%', '2', 'e']);
    }
    lowered_equals(v, i, j, dot.as_slice()) || lowered_equals(v, i, j, dot_dot.as_slice())
        || lowered_equals(v, i, j, enc.as_slice()) || lowered_equals(v, i, j, dot_enc.as_slice())
        || lowered_equals(v, i, j, enc_dot.as_slice()) || lowered_equals(
        v,
        i,
        j,
        enc_enc.as_slice(),
    )
}

/// Whether `segment` is a dot segment (`.`, `..`, or a percent-encoded form
/// of either, in any letter case).
pub fn is_forbidden_path_segment(segment: &str) -> (r: bool)
    ensures
        r == is_forbidden_segment(segment@),
{
    let v = chars_of(segment);
    proof {
        assert(v@.subrange(0, v@.len() as int) =~= v@);
    }
    is_forbidden_chars(&v, 0, v.len())
}

/// `v[0..n]` as the URL parser reads it (see `parser_reading`).
fn parser_reading_chars(v: &Vec<char>, n: usize) -> (r: Vec<char>)
    requires
        n <= v@.len(),
    ensures
        r@ == parser_reading(v@.subrange(0, n as int)),
{
    let mut r: Vec<char> = Vec::new();
    let mut i: usize = 0;
    proof {
        assert(v@.subrange(0, 0) =~= Seq::<char>::empty());
    }
    while i < n
        invariant
            i <= n <= v@.len(),
            r@ == parser_reading(v@.subrange(0, i as int)),
        decreases n - i,
    {
        let c = v[i];
        proof {
            assert(v@.subrange(0, i + 1).drop_last() =~= v@.subrange(0, i as int));
            assert(v@.subrange(0, i + 1).last() == c);
        }
        if c == '\\' {
            r.push('/');
        } else if c != '\t' && c != '\n' && c != '\r' {
            r.push(c);
        }
        i = i + 1;
    }
    r
}

/// Whether some segment of `v[0..n]` is a dot segment.
fn has_dot_segment_chars(v: &Vec<char>, n: usize) -> (r: bool)
    requires
        n <= v@.len(),
    ensures
        r == has_dot_segment(v@.subrange(0, n as int)),
{
    let ghost s = v@.subrange(0, n as int);
    let mut seg_start: usize = 0;
    let mut k: usize = 0;
    while k < n
        invariant
            s == v@.subrange(0, n as int),
            n <= v@.len(),
            seg_start <= k <= n,
            seg_start == 0 || s[seg_start - 1] == '/',
            forall|m: int| seg_start <= m < k ==> s[m] != '/',
            forall|i: int, j: int|
                is_segment(s, i, j) && j < k ==> !#[trigger] is_forbidden_segment(
                    s.subrange(i, j),
                ),
        decreases n - k,
    {
        if v[k] == '/' {
            proof {
                assert(s[k as int] == '/');
                lemma_segment_ending_at(s, seg_start as int, k as int);
                assert(s.subrange(seg_start as int, k as int) =~= v@.subrange(
                    seg_start as int,
                    k as int,
                ));
            }
            if is_forbidden_chars(v, seg_start, k) {
                proof {
                    assert(is_segment(s, seg_start as int, k as int));
                }
                return true;
            }
            seg_start = k + 1;
        } else {
            proof {
                assert(s[k as int] != '/');
            }
        }
        k = k + 1;
    }
    proof {
        lemma_segment_ending_at(s, seg_start as int, n as int);
        assert(s.subrange(seg_start as int, n as int) =~= v@.subrange(seg_start as int, n as int));
    }
    let last = is_forbidden_chars(v, seg_start, n);
    proof {
        if last {
            assert(is_segment(s, seg_start as int, n as int));
        }
    }
    last
}

/// Only the segment that starts after the last `/` before `k` can end at `k`.
proof fn lemma_segment_ending_at(s: Seq<char>, start: int, k: int)
    requires
        0 <= start <= k <= s.len(),
        start == 0 || s[start - 1] == '/',
        forall|m: int| start <= m < k ==> s[m] != '/',
    ensures
        forall|i: int| is_segment(s, i, k) ==> i == start,
{
    assert forall|i: int| is_segment(s, i, k) implies i == start by {
        if i < start {
            assert(s[start - 1] == '/');
        } else if i > start {
            assert(s[i - 1] != '/');
        }
    }
}

/// The number of leading `/` characters of `v[lo..hi]`, i.e. the offset at
/// which `strip_leading_slashes` starts.
fn leading_slashes(v: &Vec<char>, lo: usize, hi: usize) -> (r: usize)
    requires
        lo <= hi <= v@.len(),
    ensures
        lo <= r <= hi,
        v@.subrange(r as int, hi as int) == strip_leading_slashes(v@.subrange(lo as int, hi as int)),
{
    let mut i = lo;
    while i < hi && v[i] == '/'
        invariant
            lo <= i <= hi <= v@.len(),
            strip_leading_slashes(v@.subrange(lo as int, hi as int)) == strip_leading_slashes(
                v@.subrange(i as int, hi as int),
            ),
        decreases hi - i,
    {
        assert(v@.subrange(i as int, hi as int).drop_first() =~= v@.subrange(i + 1, hi as int));
        i = i + 1;
    }
    i
}

/// Checks a request path and joins it under `base_path`. The path is trimmed
/// of surrounding whitespace; an absolute URL, a `#fragment`, or a `.`/`..`
/// segment (also percent-encoded) is refused with `InvalidRequestPath`.
/// Otherwise the target path is `base_path` followed by the path without its
/// leading slashes and query, and the query is what follows the first `?`.
pub fn plan_request_target(base_path: &str, path: &str) -> (r: Result<RequestTarget, HttpClientError>)
    ensures
        match path_rejection(path@) {
            Some(rej) => r matches Err(HttpClientError::InvalidRequestPath(m)) && m@
                == rejection_message(rej),
            None => r matches Ok(t) && t.path@ == target_path(base_path@, path@) && opt_string_view(
                t.query,
            ) == target_query(path@),
        },
{
    let all = chars_of(path);
    let (a, b) = trim_ws_bounds(&all);
    let t = copy_chars(&all, a, b);
    if looks_like_absolute_chars(&t) {
        return Err(HttpClientError::InvalidRequestPath(String::from_str("path must be relative to base_url")));
    }
    let h = position_of(&t, '#');
    if h < t.len() {
        proof {
            assert(t@[h as int] == '#');
        }
        return Err(HttpClientError::InvalidRequestPath(String::from_str("path must not contain a fragment")));
    }
    proof {
        assert(!t@.contains('#'));
    }
    let q = position_of(&t, '?');
    proof {
        if q < t@.len() {
            assert(path_part(t@) =~= t@.subrange(0, q as int));
        } else {
            assert(path_part(t@) =~= t@.subrange(0, q as int));
        }
    }
    let read = parser_reading_chars(&t, q);
    proof {
        assert(read@.subrange(0, read@.len() as int) =~= read@);
    }
    if has_dot_segment_chars(&t, q) || has_dot_segment_chars(&read, read.len()) {
        return Err(HttpClientError::InvalidRequestPath(String::from_str("path must not contain '.' or '..' segments")));
    }
    let p0 = leading_slashes(&t, 0, q);
    let rel = path.substring_char(a + p0, a + q);
    proof {
        assert(rel@ =~= t@.subrange(p0 as int, q as int));
    }
    let mut joined = String::from_str(base_path);
    joined.append(rel);
    let query = if q < t.len() {
        let qs = path.substring_char(a + q + 1, b);
        proof {
            assert(qs@ =~= t@.subrange(q + 1, t@.len() as int));
        }
        Some(String::from_str(qs))
    } else {
        None
    };
    Ok(RequestTarget { path: joined, query })
}

/// `find_where` finds the first match: nothing before it matches, and when
/// there is none, nothing from `i` on matches.
proof fn lemma_find_where_first(s: Seq<char>, p: spec_fn(char) -> bool, i: int)
    requires
        0 <= i,
    ensures
        match find_where(s, p, i) {
            Some(n) => i <= n < s.len() && p(s[n]) && forall|j: int|
                i <= j < n ==> !p(#[trigger] s[j]),
            None => forall|j: int| i <= j < s.len() ==> !p(#[trigger] s[j]),
        },
    decreases s.len() - i,
{
    if i < s.len() {
        lemma_find_where_first(s, p, i + 1);
    }
}

/// `strip_leading_slashes` drops a run of `/` and keeps the rest, which
/// does not start with `/`.
proof fn lemma_strip_offset(s: Seq<char>) -> (k: int)
    ensures
        0 <= k <= s.len(),
        strip_leading_slashes(s) == s.subrange(k, s.len() as int),
        forall|m: int| 0 <= m < k ==> s[m] == '/',
        k < s.len() ==> s[k] != '/',
    decreases s.len(),
{
    if s.len() > 0 && s[0] == '/' {
        let rest = s.drop_first();
        let k1 = lemma_strip_offset(rest);
        assert(rest.subrange(k1, rest.len() as int) =~= s.subrange(k1 + 1, s.len() as int));
        assert forall|m: int| 0 <= m < k1 + 1 implies s[m] == '/' by {
            if m > 0 {
                assert(s[m] == rest[m - 1]);
            }
        }
        k1 + 1
    } else {
        assert(s.subrange(0, s.len() as int) =~= s);
        0
    }
}

/// A dot segment after a run of leading `/` is a dot segment of the whole.
proof fn lemma_dot_segment_after_slashes(s: Seq<char>, k: int)
    requires
        0 <= k <= s.len(),
        forall|m: int| 0 <= m < k ==> s[m] == '/',
    ensures
        has_dot_segment(s.subrange(k, s.len() as int)) ==> has_dot_segment(s),
{
    let r = s.subrange(k, s.len() as int);
    if has_dot_segment(r) {
        let (i, j) = choose|i: int, j: int|
            is_segment(r, i, j) && #[trigger] is_forbidden_segment(r.subrange(i, j));
        assert(r.subrange(i, j) =~= s.subrange(i + k, j + k));
        if i == 0 && k > 0 {
            assert(s[k - 1] == '/');
        }
        if i > 0 {
            assert(s[i + k - 1] == r[i - 1]);
        }
        if j < r.len() {
            assert(s[j + k] == r[j]);
        }
        assert forall|m: int| i + k <= m < j + k implies s[m] != '/' by {
            assert(s[m] == r[m - k]);
        }
        assert(is_segment(s, i + k, j + k));
    }
}

/// The parser's reading of a concatenation is the concatenation of readings.
proof fn lemma_parser_reading_concat(a: Seq<char>, b: Seq<char>)
    ensures
        parser_reading(a + b) == parser_reading(a) + parser_reading(b),
    decreases b.len(),
{
    if b.len() == 0 {
        assert(a + b =~= a);
        assert(parser_reading(a) + parser_reading(b) =~= parser_reading(a));
    } else {
        let c = b.last();
        lemma_parser_reading_concat(a, b.drop_last());
        assert((a + b).drop_last() =~= a + b.drop_last());
        assert((a + b).last() == c);
        let ra = parser_reading(a);
        let rb = parser_reading(b.drop_last());
        assert((ra + rb).push('/') =~= ra + rb.push('/'));
        assert((ra + rb).push(c) =~= ra + rb.push(c));
    }
}

/// The parser reads a run of `/` as it is.
proof fn lemma_parser_reading_slashes(s: Seq<char>)
    requires
        forall|m: int| 0 <= m < s.len() ==> s[m] == '/',
    ensures
        parser_reading(s) == s,
    decreases s.len(),
{
    if s.len() > 0 {
        lemma_parser_reading_slashes(s.drop_last());
        assert(s.drop_last().push(s.last()) =~= s);
    }
}

/// What an accepted request path hands to the URL parser: the base path
/// followed by a relative part that has no `.`/`..` segment (nor a
/// percent-encoded one), neither as written nor as the parser reads it (`\\`
/// as `/`, tab, CR and LF dropped), does not start with `/`, and carries
/// neither a query nor a fragment.
pub proof fn lemma_accepted_path_stays_under_base(base_path: Seq<char>, path: Seq<char>)
    requires
        path_rejection(path) is None,
    ensures
        ({
            let rel = strip_leading_slashes(path_part(trim_ws(path)));
            &&& target_path(base_path, path) == base_path + rel
            &&& target_path(base_path, path).subrange(0, base_path.len() as int) == base_path
            &&& !has_dot_segment(rel)
            &&& !has_dot_segment(parser_reading(rel))
            &&& !rel.contains('?')
            &&& !rel.contains('#')
            &&& rel.len() > 0 ==> rel[0] != '/'
        }),
{
    let t = trim_ws(path);
    let pp = path_part(t);
    lemma_find_where_first(t, is_char('?'), 0);
    let n = match find_char(t, '?') {
        Some(q) => q,
        None => t.len() as int,
    };
    assert(pp =~= t.subrange(0, n));
    assert forall|j: int| 0 <= j < pp.len() implies pp[j] != '?' && pp[j] != '#' by {
        assert(!is_char('?')(t[j]));
        assert(pp[j] == t[j]);
        assert(!t.contains('#'));
        if t[j] == '#' {
            assert(t.contains('#'));
        }
    }
    let k = lemma_strip_offset(pp);
    let rel = pp.subrange(k, pp.len() as int);
    lemma_dot_segment_after_slashes(pp, k);
    assert forall|j: int| 0 <= j < rel.len() implies rel[j] != '?' && rel[j] != '#' by {
        assert(rel[j] == pp[j + k]);
    }
    let lead = pp.subrange(0, k);
    assert(lead + rel =~= pp);
    lemma_parser_reading_concat(lead, rel);
    lemma_parser_reading_slashes(lead);
    let read = parser_reading(pp);
    assert(read.subrange(k, read.len() as int) =~= parser_reading(rel));
    lemma_dot_segment_after_slashes(read, k);
    assert((base_path + rel).subrange(0, base_path.len() as int) =~= base_path);
}

/// A dot segment is made of `.`, `%`, `2`, `e` and `E` only: never a `/`,
/// `?`, `#` or whitespace.
proof fn lemma_forbidden_segment_chars(seg: Seq<char>)
    requires
        is_forbidden_segment(seg),
    ensures
        seg.len() > 0,
        forall|k: int|
            0 <= k < seg.len() ==> #[trigger] seg[k] != '/' && seg[k] != '?' && seg[k] != '#'
                && !is_unicode_ws(seg[k]),
{
    let l = seg.map_values(|c: char| ascii_lower(c));
    assert(l.len() == seg.len());
    assert forall|k: int| 0 <= k < seg.len() implies #[trigger] seg[k] != '/' && seg[k] != '?'
        && seg[k] != '#' && !is_unicode_ws(seg[k]) by {
        assert(l[k] == ascii_lower(seg[k]));
        assert(l[k] == '.' || l[k] == '%' || l[k] == '2' || l[k] == 'e');
        let c = seg[k];
        if c == '/' || c == '?' || c == '#' || is_unicode_ws(c) {
            assert(ascii_lower(c) == c);
        }
    }
}

/// A dot segment is refused wherever it stands in the path part, the last
/// segment included: a path that ends in `/` followed by a dot segment (and
/// has no query) is always refused, and with the dot-segment message unless
/// it is already refused as an absolute URL or for a fragment.
pub proof fn lemma_trailing_dot_segment_refused(p: Seq<char>, seg: Seq<char>)
    requires
        is_forbidden_segment(seg),
        !p.contains('?'),
    ensures
        ({
            let q = p + seq!['/'] + seg;
            &&& path_rejection(q) is Some
            &&& !looks_like_absolute(trim_ws(q)) && !p.contains('#') ==> path_rejection(q) == Some(
                PathRejection::DotSegment,
            )
        }),
{
    lemma_forbidden_segment_chars(seg);
    let q = p + seq!['/'] + seg;
    let n = p.len() as int;
    assert(q[n] == '/');
    let k1 = lemma_trim_ws_start_offset(q);
    if k1 > n {
        assert(is_unicode_ws(q[n]));
    }
    let s1 = q.subrange(k1, q.len() as int);
    let k2 = lemma_trim_ws_end_offset(s1);
    assert(s1[s1.len() - 1] == seg[seg.len() - 1]);
    if k2 < s1.len() {
        assert(is_unicode_ws(s1[s1.len() - 1]));
    }
    assert(s1.subrange(0, k2) =~= s1);
    let t = s1;
    assert(trim_ws(q) == t);
    assert forall|j: int| 0 <= j < t.len() implies t[j] != '?' && (!p.contains('#') ==> t[j]
        != '#') by {
        assert(t[j] == q[k1 + j]);
        if k1 + j < n {
            assert(q[k1 + j] == p[k1 + j]);
            if p[k1 + j] == '?' {
                assert(p.contains('?'));
            }
            if p[k1 + j] == '#' {
                assert(p.contains('#'));
            }
        } else if k1 + j > n {
            assert(q[k1 + j] == seg[k1 + j - n - 1]);
        }
    }
    lemma_find_where_first(t, is_char('?'), 0);
    assert(path_part(t) == t);
    let i = t.len() - seg.len();
    let j = t.len() as int;
    assert(t.subrange(i, j) =~= seg);
    assert(t[i - 1] == q[n]);
    assert forall|m: int| i <= m < j implies t[m] != '/' by {
        assert(t[m] == seg[m - i]);
    }
    assert(is_segment(t, i, j));
    assert(is_segment(t, i, j) && is_forbidden_segment(t.subrange(i, j)));
    assert(has_dot_segment(t));
    if !p.contains('#') {
        assert(!t.contains('#'));
    }
}

/// A request path holding `#` anywhere, in its query too, is always
/// refused, and with the fragment message unless it is already refused as
/// an absolute URL.
pub proof fn lemma_fragment_anywhere_refused(p: Seq<char>, f: Seq<char>)
    ensures
        ({
            let q = p + seq!['#'] + f;
            &&& path_rejection(q) is Some
            &&& path_rejection(q) == Some(PathRejection::Fragment) || looks_like_absolute(
                trim_ws(q),
            )
        }),
{
    let q = p + seq!['#'] + f;
    let n = p.len() as int;
    assert(q[n] == '#');
    let k1 = lemma_trim_ws_start_offset(q);
    if k1 > n {
        assert(is_unicode_ws(q[n]));
    }
    let s1 = q.subrange(k1, q.len() as int);
    let k2 = lemma_trim_ws_end_offset(s1);
    assert(s1[n - k1] == '#');
    if k2 <= n - k1 {
        assert(is_unicode_ws(s1[n - k1]));
    }
    let t = s1.subrange(0, k2);
    assert(trim_ws(q) == t);
    assert(t[n - k1] == '#');
    assert(t.contains('#'));
}

/// The characters at which a path stops being loggable: `?` and `#`.
pub open spec fn is_query_or_fragment_start() -> spec_fn(char) -> bool {
    |x: char| x == '?' || x == '#'
}

/// The part of a request path that may be logged: everything before the
/// first `?` or `#`, so queries and fragments (which may carry secrets)
/// stay out of logs.
pub open spec fn spec_loggable_path(path: Seq<char>) -> Seq<char> {
    match find_where(path, is_query_or_fragment_start(), 0) {
        Some(k) => path.subrange(0, k),
        None => path,
    }
}

/// The part of `path` before its first `?` or `#`.
pub fn loggable_path(path: &str) -> (r: &str)
    ensures
        r@ == spec_loggable_path(path@),
{
    let v = chars_of(path);
    let mut i: usize = 0;
    while i < v.len() && v[i] != '?' && v[i] != '#'
        invariant
            i <= v@.len(),
            v@ == path@,
            forall|j: int| 0 <= j < i ==> !(#[trigger] is_query_or_fragment_start()(v@[j])),
        decreases v@.len() - i,
    {
        i = i + 1;
    }
    proof {
        lemma_find_where_exact(path@, is_query_or_fragment_start(), 0, i as int);
        if i == v@.len() {
            assert(path@.subrange(0, i as int) =~= path@);
        }
    }
    path.substring_char(0, i)
}

/// Whether a path ends with `/`.
pub open spec fn ends_with_slash(path: Seq<char>) -> bool {
    path.len() > 0 && path.last() == '/'
}

/// The path with a trailing `/` added, or `None` when it already ends with
/// one, so that relative request paths are joined under it rather than
/// replacing its last segment.
pub fn with_trailing_slash(path: &str) -> (r: Option<String>)
    ensures
        r is None <==> ends_with_slash(path@),
        r matches Some(p) ==> p@ == path@.push('/'),
{
    let v = chars_of(path);
    if v.len() > 0 && v[v.len() - 1] == '/' {
        return None;
    }
    let mut p = String::from_str(path);
    p.append("/");
    proof {
        reveal_strlit("/");
        assert(p@ =~= path@.push('/'));
    }
    Some(p)
}

/// Normalizing keeps the base path as a prefix and is idempotent: the
/// normalized path ends with `/`, so normalizing it again leaves it as it is.
pub proof fn lemma_trailing_slash_idempotent(path: Seq<char>)
    ensures
        ends_with_slash(path.push('/')),
        path.push('/').subrange(0, path.len() as int) == path,
{
    assert(path.push('/').subrange(0, path.len() as int) =~= path);
}

/// Whether a base URL scheme is one the client talks: `https` or `http`.
pub fn is_supported_scheme(scheme: &str) -> (r: bool)
    ensures
        r == (scheme@ == "https"@ || scheme@ == "http"@),
{
    proof {
        reveal_strlit("https");
        reveal_strlit("http");
    }
    let v = chars_of(scheme);
    let http = v.len() >= 4 && v[0] == 'h' && v[1] == 't' && v[2] == 't' && v[3] == 'p';
    let r = http && (v.len() == 4 || (v.len() == 5 && v[4] == 's'));
    proof {
        if r {
            if v.len() == 4 {
                assert(scheme@ =~= "http"@);
            } else {
                assert(scheme@ =~= "https"@);
            }
        } else {
            if scheme@ == "https"@ {
                assert(v@[0] == 'h' && v@[1] == 't' && v@[2] == 't' && v@[3] == 'p' && v@[4] == 's');
            }
            if scheme@ == "http"@ {
                assert(v@[0] == 'h' && v@[1] == 't' && v@[2] == 't' && v@[3] == 'p');
            }
        }
    }
    r
}

/// A URL of the `url` crate, parsed and kept whole.
#[verifier::external_type_specification]
#[verifier::external_body]
pub struct ExUrl(Url);

/// What `url::Url::path` returns for the URL: its path, percent-encoded.
pub uninterp spec fn url_path_of(u: Url) -> Seq<char>;

/// What `url::Url::scheme` returns for the URL: its scheme, lower-case.
pub uninterp spec fn url_scheme_of(u: Url) -> Seq<char>;

/// What `url::Url::as_str` returns for the URL, as bytes: its whole text.
pub uninterp spec fn url_serialization(u: Url) -> Seq<u8>;

/// What `url::Url::host_str` returns for the URL: its host, if it has one.
pub uninterp spec fn url_host_of(u: Url) -> Option<Seq<char>>;

/// What `url::Url::port` returns for the URL: its explicit port, if any.
pub uninterp spec fn url_port_of(u: Url) -> Option<u16>;

/// What `url::Url::query` returns for the URL: its query, if it has one.
pub uninterp spec fn url_query_of(u: Url) -> Option<Seq<char>>;

/// What `url::Url::fragment` returns for the URL: its fragment, if any.
pub uninterp spec fn url_fragment_of(u: Url) -> Option<Seq<char>>;

/// The URL that `url::Url::set_path` makes of `u` and `path`.
pub uninterp spec fn url_with_path(u: Url, path: Seq<char>) -> Url;

/// The URL that `url::Url::set_query` makes of `u` and `query`.
pub uninterp spec fn url_with_query(u: Url, query: Option<Seq<char>>) -> Url;

/// The URL that `url::Url::set_fragment` makes of `u` with `None`.
pub uninterp spec fn url_without_fragment(u: Url) -> Url;

/// The characters of an optional string slice.
pub open spec fn opt_str_view(s: Option<&str>) -> Option<Seq<char>> {
    match s {
        Some(q) => Some(q@),
        None => None,
    }
}

/// `url::Url::path`: the URL's path, named `url_path_of`.
#[verifier::external_body]
fn url_path(u: &Url) -> (r: &str)
    ensures
        r@ == url_path_of(*u),
{
    u.path()
}

/// `url::Url::scheme`: the URL's scheme, named `url_scheme_of`.
#[verifier::external_body]
fn url_scheme(u: &Url) -> (r: &str)
    ensures
        r@ == url_scheme_of(*u),
{
    u.scheme()
}

/// `url::Url::as_str`: the URL's text (here as its bytes), named
/// `url_serialization`.
#[verifier::external_body]
fn url_as_bytes(u: &Url) -> (r: &[u8])
    ensures
        r@ == url_serialization(*u),
{
    u.as_str().as_bytes()
}

/// `url::Url::set_path`: replaces the path, which the `url` crate parses and
/// percent-encodes (each character becomes at most 12 bytes: 4 UTF-8 bytes,
/// each written `%XX`, and a leading `/` may be added); the new URL is named
/// `url_with_path`. Only the path is rewritten, so the scheme, host, port,
/// query and fragment stay as they were. It panics once the URL's text would
/// pass `u32::MAX` bytes, which `requires` rules out.
#[verifier::external_body]
fn url_set_path(u: &mut Url, path: &str)
    requires
        url_serialization(*old(u)).len() + 12 * path@.len() + 2 <= u32::MAX,
    ensures
        *final(u) == url_with_path(*old(u), path@),
        url_scheme_of(*final(u)) == url_scheme_of(*old(u)),
        url_host_of(*final(u)) == url_host_of(*old(u)),
        url_port_of(*final(u)) == url_port_of(*old(u)),
        url_query_of(*final(u)) == url_query_of(*old(u)),
        url_fragment_of(*final(u)) == url_fragment_of(*old(u)),
        url_serialization(*final(u)).len() <= url_serialization(*old(u)).len() + 12 * path@.len()
            + 2,
{
    u.set_path(path)
}

/// `url::Url::set_query`: replaces (or, with `None`, removes) the query,
/// percent-encoded (at most 12 bytes per character, after a `?`); the new URL
/// is named `url_with_query`. The scheme, host, port and fragment stay as
/// they were. It panics once the URL's text would pass `u32::MAX` bytes,
/// which `requires` rules out.
#[verifier::external_body]
fn url_set_query(u: &mut Url, query: Option<&str>)
    requires
        url_serialization(*old(u)).len() + 1 + 12 * (match query {
            Some(q) => q@.len(),
            None => 0,
        }) <= u32::MAX,
    ensures
        *final(u) == url_with_query(*old(u), opt_str_view(query)),
        url_scheme_of(*final(u)) == url_scheme_of(*old(u)),
        url_host_of(*final(u)) == url_host_of(*old(u)),
        url_port_of(*final(u)) == url_port_of(*old(u)),
        url_fragment_of(*final(u)) == url_fragment_of(*old(u)),
        url_serialization(*final(u)).len() <= url_serialization(*old(u)).len() + 1 + 12 * (
        match query {
            Some(q) => q@.len(),
            None => 0,
        }),
{
    u.set_query(query)
}

/// `url::Url::set_fragment` with `None`: removes the fragment (which cannot
/// panic); the new URL is named `url_without_fragment`. The scheme, host and
/// port stay as they were.
#[verifier::external_body]
fn url_remove_fragment(u: &mut Url)
    ensures
        *final(u) == url_without_fragment(*old(u)),
        url_fragment_of(*final(u)) is None,
        url_scheme_of(*final(u)) == url_scheme_of(*old(u)),
        url_host_of(*final(u)) == url_host_of(*old(u)),
        url_port_of(*final(u)) == url_port_of(*old(u)),
{
    u.set_fragment(None)
}

/// `<url::Url as Clone>::clone`: an equal copy of the URL.
#[verifier::external_body]
fn url_clone(u: &Url) -> (r: Url)
    ensures
        r == *u,
{
    u.clone()
}

/// The base URL as the client keeps it: its path given a trailing `/` when it
/// has none, so that request paths are joined under its last segment.
pub open spec fn normalized_base_url(u: Url) -> Url {
    if ends_with_slash(url_path_of(u)) {
        u
    } else {
        url_with_path(u, url_path_of(u).push('/'))
    }
}

/// Whether the `url` crate can give the base URL's path a trailing `/`
/// without its text passing `u32::MAX` bytes.
pub open spec fn base_url_fits(u: Url) -> bool {
    url_serialization(u).len() + 12 * (url_path_of(u).len() + 1) + 2 <= u32::MAX
}

/// Whether the base URL is short enough for `normalize_base_url`.
pub fn fits_base_url(u: &Url) -> (r: bool)
    ensures
        r == base_url_fits(*u),
{
    let text = url_as_bytes(u).len() as u128;
    let path = chars_of(url_path(u)).len() as u128;
    text + 12 * (path + 1) + 2 <= 4294967295u128
}

/// The base URL with a trailing `/` on its path, so that request paths are
/// joined under its last segment instead of replacing it; a path that already
/// ends with `/` leaves the URL as it is. Scheme, host, port, query and
/// fragment are kept.
pub fn normalize_base_url(base_url: Url) -> (r: Url)
    requires
        base_url_fits(base_url),
    ensures
        r == normalized_base_url(base_url),
        url_scheme_of(r) == url_scheme_of(base_url),
        url_host_of(r) == url_host_of(base_url),
        url_port_of(r) == url_port_of(base_url),
        url_query_of(r) == url_query_of(base_url),
        url_fragment_of(r) == url_fragment_of(base_url),
{
    let added = with_trailing_slash(url_path(&base_url));
    match added {
        Some(p) => {
            let mut u = base_url;
            url_set_path(&mut u, p.as_str());
            u
        },
        None => base_url,
    }
}

/// The URL a request to `path` goes to under `base_url`, for an accepted path:
/// the base URL with its path replaced by the planned target path, its query
/// by the request's query, and no fragment.
pub open spec fn request_url_of(base_url: Url, path: Seq<char>) -> Url {
    url_without_fragment(
        url_with_query(
            url_with_path(base_url, target_path(url_path_of(base_url), path)),
            target_query(path),
        ),
    )
}

/// Whether the `url` crate can build the URL of a request to `path` under
/// `base_url` without its text passing `u32::MAX` bytes.
pub open spec fn request_url_fits(base_url: Url, path: Seq<char>) -> bool {
    url_serialization(base_url).len() + 12 * (url_path_of(base_url).len() + 2 * path.len()) + 3
        <= u32::MAX
}

/// Whether the URL of a request to `path` under `base_url` fits.
pub fn fits_request_url(base_url: &Url, path: &str) -> (r: bool)
    ensures
        r == request_url_fits(*base_url, path@),
{
    let text = url_as_bytes(base_url).len() as u128;
    let base_path = chars_of(url_path(base_url)).len() as u128;
    let n = chars_of(path).len() as u128;
    text + 12 * (base_path + 2 * n) + 3 <= 4294967295u128
}

/// The planned target path and query are no longer than the base path and
/// the request path together, and the request path.
proof fn lemma_target_lengths(base_path: Seq<char>, path: Seq<char>)
    ensures
        target_path(base_path, path).len() <= base_path.len() + path.len(),
        target_query(path) matches Some(q) ==> q.len() <= path.len(),
{
    let t = trim_ws(path);
    lemma_trim_ws_len(path);
    lemma_find_where_first(t, is_char('?'), 0);
    let pp = path_part(t);
    let k = lemma_strip_offset(pp);
}

/// Whether a URL's scheme is one the client talks: `https` or `http`.
pub open spec fn has_supported_scheme(u: Url) -> bool {
    url_scheme_of(u) == "https"@ || url_scheme_of(u) == "http"@
}

/// Whether the URL's scheme is `https` or `http`.
pub fn url_has_supported_scheme(u: &Url) -> (r: bool)
    ensures
        r == has_supported_scheme(*u),
{
    is_supported_scheme(url_scheme(u))
}

/// The URL a request goes to: the base URL with its path replaced by
/// `plan_request_target`'s path, its query by the request's query, and no
/// fragment; it keeps the base URL's scheme, host and port. A refused path
/// (absolute URL, fragment, dot segment as written or as the URL parser reads
/// it) yields `InvalidRequestPath` and no URL.
pub fn build_request_url(base_url: &Url, path: &str) -> (r: Result<Url, HttpClientError>)
    requires
        request_url_fits(*base_url, path@),
    ensures
        match path_rejection(path@) {
            Some(rej) => r matches Err(HttpClientError::InvalidRequestPath(m)) && m@
                == rejection_message(rej),
            None => r == Ok::<Url, HttpClientError>(request_url_of(*base_url, path@)),
        },
        r matches Ok(u) ==> {
            &&& url_scheme_of(u) == url_scheme_of(*base_url)
            &&& url_host_of(u) == url_host_of(*base_url)
            &&& url_port_of(u) == url_port_of(*base_url)
            &&& url_fragment_of(u) is None
        },
{
    let target = match plan_request_target(url_path(base_url), path) {
        Ok(t) => t,
        Err(e) => return Err(e),
    };
    proof {
        lemma_target_lengths(url_path_of(*base_url), path@);
    }
    let mut url = url_clone(base_url);
    url_set_path(&mut url, target.path.as_str());
    match &target.query {
        Some(q) => url_set_query(&mut url, Some(q.as_str())),
        None => url_set_query(&mut url, None),
    }
    url_remove_fragment(&mut url);
    Ok(url)
}

} // verus!
