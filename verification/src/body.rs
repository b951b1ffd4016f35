//! Reading response bodies within limits: the declared-length precheck, the
//! streamed byte cap, the bounded preview of error bodies, UTF-8 handling,
//! and the `Retry-After` header.

use crate::ascii::{
    all_ascii_ws, extend_bytes, is_ascii_whitespace, trim_ascii, trim_ascii_bounds, trim_ascii_end,
    trim_ascii_start,
};
use crate::delay::Delay;
use crate::error::HttpClientError;
use vstd::prelude::*;
use vstd::slice::slice_subrange;
use vstd::string::*;
use vstd::utf8::{decode_utf8, valid_utf8};

verus! {

/// At most this many bytes of an error body are kept as its preview.
pub const ERROR_BODY_PREVIEW_BYTES: usize = 8192;

/// Appended to an error preview that was cut short.
pub open spec fn truncated_suffix() -> Seq<char> {
    "... [truncated]"@
}

/// Whether a status is in the success class, 200 to 299.
pub fn status_is_success(status: u16) -> (r: bool)
    ensures
        r == (200 <= status < 300),
{
    200 <= status && status < 300
}

/// Whether a body holds nothing but ASCII whitespace (an empty body does):
/// such a successful body is decoded as JSON `null`.
pub fn is_blank_body(bytes: &[u8]) -> (r: bool)
    ensures
        r == all_ascii_ws(bytes@),
{
    let mut i: usize = 0;
    while i < bytes.len()
        invariant
            i <= bytes@.len(),
            forall|j: int| 0 <= j < i ==> crate::ascii::is_ascii_ws(#[trigger] bytes@[j]),
        decreases bytes@.len() - i,
    {
        if !is_ascii_whitespace(bytes[i]) {
            return false;
        }
        i = i + 1;
    }
    true
}

/// The JSON text `null`.
pub open spec fn json_null() -> Seq<u8> {
    seq![110u8, 117u8, 108u8, 108u8]
}

/// What a success body is decoded from: JSON `null` for a blank body (so
/// that `()` and `Option<T>` accept it), the body itself otherwise.
pub fn success_body_input(bytes: &[u8]) -> (r: &[u8])
    ensures
        all_ascii_ws(bytes@) ==> r@ == json_null(),
        !all_ascii_ws(bytes@) ==> r@ == bytes@,
{
    if is_blank_body(bytes) {
        let null: &[u8] = &[110u8, 117u8, 108u8, 108u8];
        assert(null@ =~= json_null());
        null
    } else {
        bytes
    }
}

/// The outcome of decoding a success body, given what decoding gave. A blank
/// body is decoded as JSON `null` (so that `()` and `Option<T>` accept it),
/// and a failure there is `EmptyResponseBody`; any other body that fails to
/// decode is a `DeserializationError`.
pub fn success_body_outcome<R>(bytes: &[u8], parsed: Result<R, serde_json::Error>) -> (r: Result<
    R,
    HttpClientError,
>)
    ensures
        match parsed {
            Ok(v) => r == Ok::<R, HttpClientError>(v),
            Err(e) => if all_ascii_ws(bytes@) {
                r == Err::<R, HttpClientError>(HttpClientError::EmptyResponseBody)
            } else {
                r == Err::<R, HttpClientError>(HttpClientError::DeserializationError(e))
            },
        },
{
    match parsed {
        Ok(v) => Ok(v),
        Err(e) => if is_blank_body(bytes) {
            Err(HttpClientError::EmptyResponseBody)
        } else {
            Err(HttpClientError::DeserializationError(e))
        },
    }
}

/// The received size reported for a declared `Content-Length`: the length
/// itself, or `usize::MAX` when it does not fit.
pub open spec fn reported_length(content_length: u64) -> usize {
    if content_length <= usize::MAX {
        content_length as usize
    } else {
        usize::MAX
    }
}

/// Refuses a response whose declared `Content-Length` exceeds the limit,
/// before any of its body is read.
pub fn check_content_length(content_length: Option<u64>, max_response_bytes: usize) -> (r: Result<
    (),
    HttpClientError,
>)
    ensures
        match content_length {
            Some(cl) => if cl > max_response_bytes {
                r == Err::<(), HttpClientError>(
                    HttpClientError::ResponseTooLarge {
                        limit: max_response_bytes,
                        received: reported_length(cl),
                    },
                )
            } else {
                r is Ok
            },
            None => r is Ok,
        },
{
    match content_length {
        Some(cl) => {
            if cl > max_response_bytes as u64 {
                let received = if cl <= usize::MAX as u64 {
                    cl as usize
                } else {
                    usize::MAX
                };
                Err(HttpClientError::ResponseTooLarge { limit: max_response_bytes, received })
            } else {
                Ok(())
            }
        },
        None => Ok(()),
    }
}

/// Collects a streamed body, refusing it as soon as more than `limit` bytes
/// have arrived.
pub struct BodyLimit {
    body: Vec<u8>,
    limit: usize,
}

impl BodyLimit {
    /// The bytes collected so far.
    pub closed spec fn collected(&self) -> Seq<u8> {
        self.body@
    }

    /// The byte limit.
    pub closed spec fn limit_of(&self) -> usize {
        self.limit
    }

    /// An empty body with the given limit.
    pub fn new(limit: usize) -> (b: BodyLimit)
        ensures
            b.collected() == Seq::<u8>::empty(),
            b.limit_of() == limit,
    {
        BodyLimit { body: Vec::new(), limit }
    }

    /// Takes the next chunk: `ResponseTooLarge` (with the total received)
    /// once the total exceeds the limit, leaving the body as it was;
    /// otherwise the chunk is appended. The body never exceeds the limit.
    pub fn on_chunk(&mut self, chunk: &[u8]) -> (r: Result<(), HttpClientError>)
        requires
            old(self).collected().len() + chunk@.len() <= usize::MAX,
            old(self).collected().len() <= old(self).limit_of(),
        ensures
            final(self).limit_of() == old(self).limit_of(),
            final(self).collected().len() <= final(self).limit_of(),
            ({
                let total = old(self).collected().len() + chunk@.len();
                if total > old(self).limit_of() {
                    &&& r == Err::<(), HttpClientError>(
                        HttpClientError::ResponseTooLarge {
                            limit: old(self).limit_of(),
                            received: total as usize,
                        },
                    )
                    &&& final(self).collected() == old(self).collected()
                } else {
                    &&& r is Ok
                    &&& final(self).collected() == old(self).collected() + chunk@
                }
            }),
    {
        let received = self.body.len() + chunk.len();
        if received > self.limit {
            return Err(HttpClientError::ResponseTooLarge { limit: self.limit, received });
        }
        extend_bytes(&mut self.body, chunk);
        Ok(())
    }

    /// The collected body.
    pub fn into_body(self) -> (v: Vec<u8>)
        ensures
            v@ == self.collected(),
    {
        self.body
    }
}

/// What `std::str::from_utf8` reports for the given bytes: `None` when they
/// are valid UTF-8, otherwise the error's `valid_up_to()` and `error_len()`
/// (`None` when the input ends in the middle of a character).
pub uninterp spec fn utf8_error(bytes: Seq<u8>) -> Option<(usize, Option<usize>)>;

/// What `String::from_utf8_lossy` makes of the given bytes.
pub uninterp spec fn utf8_lossy(bytes: Seq<u8>) -> Seq<char>;

/// `std::str::from_utf8`, reduced to its error's two indices. As documented:
/// it fails exactly when the bytes are not valid UTF-8; `valid_up_to` is the
/// largest index up to which the bytes are valid UTF-8; `error_len` is `None`
/// when the input ends inside a character, `valid_up_to` then being 1 to 3
/// bytes from the end, and otherwise the 1 to 3 bytes of the invalid sequence.
#[verifier::external_body]
fn utf8_check(bytes: &[u8]) -> (r: Option<(usize, Option<usize>)>)
    ensures
        r == utf8_error(bytes@),
        r is None <==> valid_utf8(bytes@),
        r matches Some((v, _)) ==> v < bytes@.len() && valid_utf8(bytes@.subrange(0, v as int)),
        r matches Some((v, _)) ==> forall|k: int|
            v < k <= bytes@.len() ==> !valid_utf8(#[trigger] bytes@.subrange(0, k)),
        r matches Some((v, None)) ==> bytes@.len() - 3 <= v,
        r matches Some((_, Some(n))) ==> 1 <= n <= 3,
{
    match std::str::from_utf8(bytes) {
        Ok(_) => None,
        Err(e) => Some((e.valid_up_to(), e.error_len())),
    }
}

/// `String::from_utf8_lossy`: the bytes decoded as UTF-8, each invalid
/// sequence replaced by U+FFFD. As documented, valid UTF-8 is decoded as it is.
#[verifier::external_body]
fn utf8_decode_lossy(bytes: &[u8]) -> (s: String)
    ensures
        s@ == utf8_lossy(bytes@),
        valid_utf8(bytes@) ==> s@ == decode_utf8(bytes@),
{
    String::from_utf8_lossy(bytes).into_owned()
}

/// A raw body as text: UTF-8, with invalid sequences replaced by U+FFFD.
pub fn text_body(bytes: &[u8]) -> (s: String)
    ensures
        s@ == utf8_lossy(bytes@),
        valid_utf8(bytes@) ==> s@ == decode_utf8(bytes@),
{
    utf8_decode_lossy(bytes)
}

/// The bytes with an incomplete UTF-8 character at the very end cut off.
pub open spec fn without_incomplete_suffix(bytes: Seq<u8>) -> Seq<u8> {
    match utf8_error(bytes) {
        Some((v, None)) => bytes.subrange(0, v as int),
        _ => bytes,
    }
}

/// Cuts off a UTF-8 character left incomplete at the end of `bytes` (as
/// happens when a body is cut at a byte limit); an invalid sequence elsewhere
/// is left for lossy decoding.
pub fn truncate_incomplete_utf8_suffix(bytes: &mut Vec<u8>)
    ensures
        final(bytes)@ == without_incomplete_suffix(old(bytes)@),
        final(bytes)@ == old(bytes)@.subrange(0, final(bytes)@.len() as int),
        final(bytes)@.len() + 3 >= old(bytes)@.len(),
        valid_utf8(old(bytes)@) ==> final(bytes)@ == old(bytes)@,
        utf8_error(old(bytes)@) matches Some((_, None)) ==> valid_utf8(final(bytes)@),
{
    match utf8_check(bytes.as_slice()) {
        Some((valid_up_to, None)) => {
            bytes.truncate(valid_up_to);
        },
        _ => {},
    }
}

/// Collects a bounded preview of an error body: at most `limit` bytes, where
/// `limit` is the response limit capped at `ERROR_BODY_PREVIEW_BYTES`.
pub struct ErrorPreview {
    body: Vec<u8>,
    limit: usize,
    truncated: bool,
}

impl ErrorPreview {
    /// The bytes kept so far.
    pub closed spec fn kept(&self) -> Seq<u8> {
        self.body@
    }

    /// The preview limit.
    pub closed spec fn limit_of(&self) -> usize {
        self.limit
    }

    /// Whether the body went on past the preview.
    pub closed spec fn is_truncated(&self) -> bool {
        self.truncated
    }

    /// An empty preview for a response limited to `max_response_bytes`.
    pub fn new(max_response_bytes: usize) -> (p: ErrorPreview)
        ensures
            p.kept() == Seq::<u8>::empty(),
            p.limit_of() == if max_response_bytes < ERROR_BODY_PREVIEW_BYTES {
                max_response_bytes
            } else {
                ERROR_BODY_PREVIEW_BYTES
            },
            !p.is_truncated(),
    {
        let limit = if max_response_bytes < ERROR_BODY_PREVIEW_BYTES {
            max_response_bytes
        } else {
            ERROR_BODY_PREVIEW_BYTES
        };
        ErrorPreview { body: Vec::new(), limit, truncated: false }
    }

    /// Takes the next chunk of the error body and returns whether to stop
    /// reading: a full preview stops (and is marked truncated) at the next
    /// chunk; a chunk that does not fit is cut at the limit (and the preview
    /// marked truncated); otherwise the chunk is kept whole.
    pub fn on_chunk(&mut self, chunk: &[u8]) -> (stop: bool)
        requires
            !old(self).is_truncated(),
            old(self).kept().len() <= old(self).limit_of(),
        ensures
            final(self).limit_of() == old(self).limit_of(),
            final(self).kept().len() <= final(self).limit_of(),
            stop == final(self).is_truncated(),
            ({
                let remaining = old(self).limit_of() - old(self).kept().len();
                if remaining == 0 {
                    stop && final(self).kept() == old(self).kept()
                } else if chunk@.len() > remaining {
                    stop && final(self).kept() == old(self).kept() + chunk@.subrange(0, remaining)
                } else {
                    !stop && final(self).kept() == old(self).kept() + chunk@
                }
            }),
    {
        let remaining = self.limit - self.body.len();
        if remaining == 0 {
            self.truncated = true;
            return true;
        }
        if chunk.len() > remaining {
            extend_bytes(&mut self.body, slice_subrange(chunk, 0, remaining));
            self.truncated = true;
            return true;
        }
        extend_bytes(&mut self.body, chunk);
        false
    }

    /// The preview text: the kept bytes decoded lossily (after cutting off a
    /// character left incomplete by the limit), followed by
    /// `... [truncated]` when the body went on.
    pub fn finish(self) -> (s: String)
        ensures
            s@ == if self.is_truncated() {
                utf8_lossy(without_incomplete_suffix(self.kept())) + truncated_suffix()
            } else {
                utf8_lossy(self.kept())
            },
            self.is_truncated() ==> {
                let b = without_incomplete_suffix(self.kept());
                &&& valid_utf8(self.kept()) ==> b == self.kept()
                &&& utf8_error(self.kept()) matches Some((_, None)) ==> valid_utf8(b)
                &&& valid_utf8(b) ==> s@ == decode_utf8(b) + truncated_suffix()
            },
            !self.is_truncated() && valid_utf8(self.kept()) ==> s@ == decode_utf8(self.kept()),
    {
        let mut body = self.body;
        if self.truncated {
            truncate_incomplete_utf8_suffix(&mut body);
        }
        let mut preview = text_body(body.as_slice());
        if self.truncated {
            preview.append("... [truncated]");
        }
        preview
    }
}

/// Header bytes that `HeaderValue::to_str` accepts: visible ASCII and tab.
pub open spec fn is_visible_ascii(b: u8) -> bool {
    (32 <= b && b < 127) || b == 9
}

/// ASCII decimal digits.
pub open spec fn is_digit(b: u8) -> bool {
    48 <= b <= 57
}

/// The number written by a string of decimal digits.
pub open spec fn decimal_value(d: Seq<u8>) -> nat
    decreases d.len(),
{
    if d.len() == 0 {
        0
    } else {
        decimal_value(d.drop_last()) * 10 + (d.last() - 48) as nat
    }
}

/// The digits of a trimmed number: without a leading `+`.
pub open spec fn unsigned_digits(t: Seq<u8>) -> Seq<u8> {
    if t.len() > 0 && t[0] == 43u8 {
        t.subrange(1, t.len() as int)
    } else {
        t
    }
}

/// The seconds of a `Retry-After` header value in its delay-seconds form: the
/// value must be visible ASCII, and, trimmed of whitespace, an unsigned
/// decimal number (`u64::from_str`: an optional `+`, then at least one digit)
/// that fits in a `u64`. The HTTP-date form yields `None`.
pub open spec fn spec_retry_after_secs(value: Seq<u8>) -> Option<u64> {
    if forall|i: int| 0 <= i < value.len() ==> is_visible_ascii(#[trigger] value[i]) {
        let d = unsigned_digits(trim_ascii(value));
        if d.len() > 0 && (forall|i: int| 0 <= i < d.len() ==> is_digit(#[trigger] d[i]))
            && decimal_value(d) <= u64::MAX {
            Some(decimal_value(d) as u64)
        } else {
            None
        }
    } else {
        None
    }
}

proof fn lemma_decimal_prefix(d: Seq<u8>, k: int)
    requires
        0 <= k <= d.len(),
        forall|i: int| 0 <= i < d.len() ==> is_digit(#[trigger] d[i]),
    ensures
        decimal_value(d.subrange(0, k)) <= decimal_value(d),
    decreases d.len() - k,
{
    if k < d.len() {
        lemma_decimal_prefix(d, k + 1);
        let p = d.subrange(0, k + 1);
        assert(p.drop_last() =~= d.subrange(0, k));
    } else {
        assert(d.subrange(0, k) =~= d);
    }
}

/// Reads the `Retry-After` seconds from a header value (see
/// `spec_retry_after_secs`).
pub fn parse_retry_after_secs(value: &[u8]) -> (r: Option<u64>)
    ensures
        r == spec_retry_after_secs(value@),
{
    let mut i: usize = 0;
    while i < value.len()
        invariant
            i <= value@.len(),
            forall|j: int| 0 <= j < i ==> is_visible_ascii(#[trigger] value@[j]),
        decreases value@.len() - i,
    {
        let b = value[i];
        if !((32u8 <= b && b < 127u8) || b == 9u8) {
            assert(!is_visible_ascii(value@[i as int]));
            return None;
        }
        i = i + 1;
    }
    let (a, b) = trim_ascii_bounds(value, 0, value.len());
    proof {
        assert(value@.subrange(0, value@.len() as int) =~= value@);
    }
    let ghost t = value@.subrange(a as int, b as int);
    let start = if a < b && value[a] == 43u8 {
        a + 1
    } else {
        a
    };
    let ghost d = value@.subrange(start as int, b as int);
    proof {
        assert(t == trim_ascii(value@));
        if a < b {
            assert(t[0] == value@[a as int]);
        }
        assert(unsigned_digits(t) =~= d);
        assert(spec_retry_after_secs(value@) == (if d.len() > 0 && (forall|j: int|
            0 <= j < d.len() ==> is_digit(#[trigger] d[j])) && decimal_value(d) <= u64::MAX {
            Some(decimal_value(d) as u64)
        } else {
            None
        }));
    }
    if start == b {
        return None;
    }
    let mut n: u64 = 0;
    let mut k = start;
    while k < b
        invariant
            start <= k <= b <= value@.len(),
            d == value@.subrange(start as int, b as int),
            spec_retry_after_secs(value@) == (if d.len() > 0 && (forall|j: int|
                0 <= j < d.len() ==> is_digit(#[trigger] d[j])) && decimal_value(d) <= u64::MAX {
                Some(decimal_value(d) as u64)
            } else {
                None
            }),
            n == decimal_value(value@.subrange(start as int, k as int)),
            forall|j: int| start <= j < k ==> is_digit(#[trigger] value@[j]),
        decreases b - k,
    {
        let c = value[k];
        if c < 48u8 || c > 57u8 {
            assert(d[k - start] == value@[k as int]);
            assert(!is_digit(d[k - start]));
            return None;
        }
        let digit = (c - 48u8) as u64;
        let ghost next = value@.subrange(start as int, k + 1);
        proof {
            assert(next.drop_last() =~= value@.subrange(start as int, k as int));
        }
        if n > (u64::MAX - digit) / 10 {
            proof {
                assert(decimal_value(next) > u64::MAX) by (nonlinear_arith)
                    requires
                        decimal_value(next) == n * 10 + digit,
                        n > (u64::MAX - digit) / 10,
                        digit <= 9,
                ;
                if forall|j: int| 0 <= j < d.len() ==> is_digit(#[trigger] d[j]) {
                    lemma_decimal_prefix(d, k + 1 - start);
                    assert(d.subrange(0, k + 1 - start) =~= next);
                }
            }
            return None;
        }
        proof {
            assert(n * 10 + digit <= u64::MAX) by (nonlinear_arith)
                requires
                    n <= (u64::MAX - digit) / 10,
                    digit <= 9,
            ;
        }
        n = n * 10 + digit;
        k = k + 1;
    }
    proof {
        assert(value@.subrange(start as int, b as int) == d);
        assert forall|j: int| 0 <= j < d.len() implies is_digit(#[trigger] d[j]) by {
            assert(d[j] == value@[start + j]);
        }
    }
    Some(n)
}

/// The `Retry-After` hint of a failed response: only `429 Too Many
/// Requests` carries one, read from the header in its delay-seconds form.
pub open spec fn spec_retry_after(status: u16, header: Option<Seq<u8>>) -> Option<Delay> {
    if status == 429 {
        match header {
            Some(h) => match spec_retry_after_secs(h) {
                Some(secs) => Some(Delay::spec_from_secs(secs)),
                None => None,
            },
            None => None,
        }
    } else {
        None
    }
}

/// A `429 Too Many Requests` whose `Retry-After` value is the decimal
/// digits of a number of seconds carries exactly that many seconds as its
/// hint, for every number that fits in a `u64`; a response with any other
/// status carries no hint.
pub proof fn lemma_retry_after_is_exact(status: u16, digits: Seq<u8>)
    requires
        digits.len() > 0,
        forall|i: int| 0 <= i < digits.len() ==> is_digit(#[trigger] digits[i]),
        decimal_value(digits) <= u64::MAX,
    ensures
        status == 429 ==> (spec_retry_after(status, Some(digits)) matches Some(d) && d@
            == decimal_value(digits) * 1_000_000_000),
        status != 429 ==> spec_retry_after(status, Some(digits)) is None,
{
    assert(is_digit(digits[0]));
    assert(is_digit(digits[digits.len() - 1]));
    assert(trim_ascii_start(digits) == digits);
    assert(trim_ascii_end(digits) == digits);
    assert(trim_ascii(digits) == digits);
    assert(unsigned_digits(digits) == digits);
    assert forall|i: int| 0 <= i < digits.len() implies is_visible_ascii(#[trigger] digits[i]) by {
        assert(is_digit(digits[i]));
    }
    assert(spec_retry_after_secs(digits) == Some(decimal_value(digits) as u64));
    Delay::lemma_spec_from_secs(decimal_value(digits) as u64);
}

/// The error of a response with a non-success status: its status, the
/// preview of its body, and, for `429`, the `Retry-After` hint.
pub fn api_error(status: u16, body: String, retry_after_header: Option<&[u8]>) -> (e: HttpClientError)
    ensures
        e matches HttpClientError::ApiError { status: s, body: b, retry_after: ra } && s == status
            && b == body && ra == spec_retry_after(
            status,
            match retry_after_header {
                Some(h) => Some(h@),
                None => None,
            },
        ),
{
    let retry_after = if status == 429 {
        match retry_after_header {
            Some(h) => match parse_retry_after_secs(h) {
                Some(secs) => Some(Delay::from_secs(secs)),
                None => None,
            },
            None => None,
        }
    } else {
        None
    };
    HttpClientError::ApiError { status, body, retry_after }
}

} // verus!
