//! Character-level helpers: the characters of a string, Unicode whitespace
//! and trimming.

use vstd::prelude::*;

verus! {

broadcast use vstd::string::axiom_spec_iter;

/// The characters of `s`, in order.
pub fn chars_of(s: &str) -> (v: Vec<char>)
    ensures
        v@ == s@,
{
    let mut v: Vec<char> = Vec::new();
    for c in it: s.chars()
        invariant
            v@ == it.seq().take(it.index() as int),
    {
        v.push(c);
    }
    v
}

/// Unicode whitespace (the `White_Space` property), as `char::is_whitespace`
/// and `str::trim` use it.
pub open spec fn is_unicode_ws(c: char) -> bool {
    ||| '\u{9}' <= c <= '\u{D}'
    ||| c == ' '
    ||| c == '\u{85}'
    ||| c == '\u{A0}'
    ||| c == '\u{1680}'
    ||| '\u{2000}' <= c <= '\u{200A}'
    ||| c == '\u{2028}'
    ||| c == '\u{2029}'
    ||| c == '\u{202F}'
    ||| c == '\u{205F}'
    ||| c == '\u{3000}'
}

/// Whether `c` is Unicode whitespace.
pub fn is_whitespace_char(c: char) -> (r: bool)
    ensures
        r == is_unicode_ws(c),
{
    ('\u{9}' <= c && c <= '\u{D}') || c == ' ' || c == '\u{85}' || c == '\u{A0}' || c
        == '\u{1680}' || ('\u{2000}' <= c && c <= '\u{200A}') || c == '\u{2028}' || c
        == '\u{2029}' || c == '\u{202F}' || c == '\u{205F}' || c == '\u{3000}'
}

/// `s` without its leading whitespace.
pub open spec fn trim_ws_start(s: Seq<char>) -> Seq<char>
    decreases s.len(),
{
    if s.len() > 0 && is_unicode_ws(s[0]) {
        trim_ws_start(s.drop_first())
    } else {
        s
    }
}

/// `s` without its trailing whitespace.
pub open spec fn trim_ws_end(s: Seq<char>) -> Seq<char>
    decreases s.len(),
{
    if s.len() > 0 && is_unicode_ws(s.last()) {
        trim_ws_end(s.drop_last())
    } else {
        s
    }
}

/// `s` without leading and trailing whitespace (`str::trim`).
pub open spec fn trim_ws(s: Seq<char>) -> Seq<char> {
    trim_ws_end(trim_ws_start(s))
}

/// Trimming never lengthens a string.
pub proof fn lemma_trim_ws_len(s: Seq<char>)
    ensures
        trim_ws(s).len() <= s.len(),
{
    lemma_trim_ws_start_len(s);
    lemma_trim_ws_end_len(trim_ws_start(s));
}

proof fn lemma_trim_ws_start_len(s: Seq<char>)
    ensures
        trim_ws_start(s).len() <= s.len(),
    decreases s.len(),
{
    if s.len() > 0 && is_unicode_ws(s[0]) {
        lemma_trim_ws_start_len(s.drop_first());
    }
}

proof fn lemma_trim_ws_end_len(s: Seq<char>)
    ensures
        trim_ws_end(s).len() <= s.len(),
    decreases s.len(),
{
    if s.len() > 0 && is_unicode_ws(s.last()) {
        lemma_trim_ws_end_len(s.drop_last());
    }
}

/// Trimming the start drops a run of whitespace: the rest starts with a
/// non-whitespace character, or is empty.
pub proof fn lemma_trim_ws_start_offset(s: Seq<char>) -> (k: int)
    ensures
        0 <= k <= s.len(),
        trim_ws_start(s) == s.subrange(k, s.len() as int),
        forall|m: int| 0 <= m < k ==> is_unicode_ws(#[trigger] s[m]),
        k < s.len() ==> !is_unicode_ws(s[k]),
    decreases s.len(),
{
    if s.len() > 0 && is_unicode_ws(s[0]) {
        let rest = s.drop_first();
        let k1 = lemma_trim_ws_start_offset(rest);
        assert(rest.subrange(k1, rest.len() as int) =~= s.subrange(k1 + 1, s.len() as int));
        assert forall|m: int| 0 <= m < k1 + 1 implies is_unicode_ws(#[trigger] s[m]) by {
            if m > 0 {
                assert(s[m] == rest[m - 1]);
            }
        }
        k1 + 1
    } else {
        assert(s.subrange(0, s.len() as int) =~= s);
        0
    }
}

/// Trimming the end drops a run of whitespace: the rest ends with a
/// non-whitespace character, or is empty.
pub proof fn lemma_trim_ws_end_offset(s: Seq<char>) -> (k: int)
    ensures
        0 <= k <= s.len(),
        trim_ws_end(s) == s.subrange(0, k),
        forall|m: int| k <= m < s.len() ==> is_unicode_ws(#[trigger] s[m]),
        k > 0 ==> !is_unicode_ws(s[k - 1]),
    decreases s.len(),
{
    if s.len() > 0 && is_unicode_ws(s.last()) {
        let rest = s.drop_last();
        let k1 = lemma_trim_ws_end_offset(rest);
        assert(rest.subrange(0, k1) =~= s.subrange(0, k1));
        assert forall|m: int| k1 <= m < s.len() implies is_unicode_ws(#[trigger] s[m]) by {
            if m < s.len() - 1 {
                assert(s[m] == rest[m]);
            }
        }
        if k1 > 0 {
            assert(s[k1 - 1] == rest[k1 - 1]);
        }
        k1
    } else {
        assert(s.subrange(0, s.len() as int) =~= s);
        s.len() as int
    }
}

/// The bounds `(a, b)` of `chars` with whitespace trimmed on both sides.
pub fn trim_ws_bounds(chars: &Vec<char>) -> (r: (usize, usize))
    ensures
        r.0 <= r.1 <= chars@.len(),
        chars@.subrange(r.0 as int, r.1 as int) == trim_ws(chars@),
{
    let hi = chars.len();
    let mut a: usize = 0;
    assert(chars@.subrange(0, hi as int) =~= chars@);
    while a < hi && is_whitespace_char(chars[a])
        invariant
            a <= hi == chars@.len(),
            trim_ws_start(chars@) == trim_ws_start(chars@.subrange(a as int, hi as int)),
        decreases hi - a,
    {
        assert(chars@.subrange(a as int, hi as int).drop_first() =~= chars@.subrange(
            a + 1,
            hi as int,
        ));
        a = a + 1;
    }
    let mut b = hi;
    while b > a && is_whitespace_char(chars[b - 1])
        invariant
            a <= b <= hi == chars@.len(),
            trim_ws_end(chars@.subrange(a as int, hi as int)) == trim_ws_end(
                chars@.subrange(a as int, b as int),
            ),
        decreases b - a,
    {
        assert(chars@.subrange(a as int, b as int).drop_last() =~= chars@.subrange(
            a as int,
            b - 1,
        ));
        b = b - 1;
    }
    (a, b)
}

} // verus!
