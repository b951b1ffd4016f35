//! Byte-level helpers over ASCII: whitespace and trimming.

use vstd::prelude::*;

verus! {

/// ASCII whitespace as `u8::is_ascii_whitespace` defines it: space, tab,
/// line feed, form feed and carriage return (not vertical tab).
pub open spec fn is_ascii_ws(b: u8) -> bool {
    b == 0x20u8 || b == 0x09u8 || b == 0x0Au8 || b == 0x0Cu8 || b == 0x0Du8
}

/// `s` without its leading ASCII whitespace.
pub open spec fn trim_ascii_start(s: Seq<u8>) -> Seq<u8>
    decreases s.len(),
{
    if s.len() > 0 && is_ascii_ws(s[0]) {
        trim_ascii_start(s.drop_first())
    } else {
        s
    }
}

/// `s` without its trailing ASCII whitespace.
pub open spec fn trim_ascii_end(s: Seq<u8>) -> Seq<u8>
    decreases s.len(),
{
    if s.len() > 0 && is_ascii_ws(s.last()) {
        trim_ascii_end(s.drop_last())
    } else {
        s
    }
}

/// `s` without leading and trailing ASCII whitespace (`<[u8]>::trim_ascii`).
pub open spec fn trim_ascii(s: Seq<u8>) -> Seq<u8> {
    trim_ascii_end(trim_ascii_start(s))
}

/// Whether every byte of `s` is ASCII whitespace.
pub open spec fn all_ascii_ws(s: Seq<u8>) -> bool {
    forall|i: int| 0 <= i < s.len() ==> is_ascii_ws(#[trigger] s[i])
}

/// Whether `b` is ASCII whitespace.
pub fn is_ascii_whitespace(b: u8) -> (r: bool)
    ensures
        r == is_ascii_ws(b),
{
    b == 0x20u8 || b == 0x09u8 || b == 0x0Au8 || b == 0x0Cu8 || b == 0x0Du8
}

/// The bounds `(a, b)` of `buf[lo..hi]` with its ASCII whitespace trimmed on
/// both sides.
pub fn trim_ascii_bounds(buf: &[u8], lo: usize, hi: usize) -> (r: (usize, usize))
    requires
        lo <= hi <= buf@.len(),
    ensures
        lo <= r.0 <= r.1 <= hi,
        buf@.subrange(r.0 as int, r.1 as int) == trim_ascii(buf@.subrange(lo as int, hi as int)),
{
    let mut a = lo;
    while a < hi && is_ascii_whitespace(buf[a])
        invariant
            lo <= a <= hi <= buf@.len(),
            trim_ascii_start(buf@.subrange(lo as int, hi as int)) == trim_ascii_start(
                buf@.subrange(a as int, hi as int),
            ),
        decreases hi - a,
    {
        assert(buf@.subrange(a as int, hi as int).drop_first() =~= buf@.subrange(
            a + 1,
            hi as int,
        ));
        a = a + 1;
    }
    assert(trim_ascii_start(buf@.subrange(a as int, hi as int)) == buf@.subrange(
        a as int,
        hi as int,
    ));
    let mut b = hi;
    while b > a && is_ascii_whitespace(buf[b - 1])
        invariant
            lo <= a <= b <= hi <= buf@.len(),
            trim_ascii_end(buf@.subrange(a as int, hi as int)) == trim_ascii_end(
                buf@.subrange(a as int, b as int),
            ),
        decreases b - a,
    {
        assert(buf@.subrange(a as int, b as int).drop_last() =~= buf@.subrange(
            a as int,
            b - 1,
        ));
        b = b - 1;
    }
    assert(trim_ascii_end(buf@.subrange(a as int, b as int)) == buf@.subrange(
        a as int,
        b as int,
    ));
    (a, b)
}

/// Appends the bytes of `src` to `dst`.
pub fn extend_bytes(dst: &mut Vec<u8>, src: &[u8])
    ensures
        final(dst)@ == old(dst)@ + src@,
{
    let mut i: usize = 0;
    while i < src.len()
        invariant
            i <= src@.len(),
            dst@ == old(dst)@ + src@.subrange(0, i as int),
        decreases src@.len() - i,
    {
        dst.push(src[i]);
        assert(src@.subrange(0, i + 1) =~= src@.subrange(0, i as int).push(src@[i as int]));
        i = i + 1;
    }
    assert(src@.subrange(0, src@.len() as int) =~= src@);
}

} // verus!
