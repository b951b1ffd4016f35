//! Server-Sent-Events decoding: complete `\n`-terminated lines are cut out of
//! a byte buffer, `data:` payloads are collected, and the `[DONE]` sentinel
//! ends the stream.

use crate::ascii::{extend_bytes, trim_ascii, trim_ascii_bounds};
use vstd::prelude::*;
use vstd::slice::{slice_subrange, slice_to_vec};

verus! {

/// The field name `data:` that introduces a payload line.
pub open spec fn data_field() -> Seq<u8> {
    seq![100u8, 97u8, 116u8, 97u8, 58u8]
}

/// The payload `[DONE]` that ends a stream.
pub open spec fn done_marker() -> Seq<u8> {
    seq![91u8, 68u8, 79u8, 78u8, 69u8, 93u8]
}

/// What one line of an event stream means to the client.
pub enum SseLine {
    /// Empty lines, comments (`:`) and fields other than `data`.
    Ignored,
    /// A `data:` line with the given payload.
    Data(Seq<u8>),
    /// The `data: [DONE]` sentinel.
    Done,
}

/// The meaning of one line (without its `\n`): trimmed of ASCII whitespace
/// (so a `\r` before the `\n` goes too), a line that starts with `data:`
/// carries the rest, trimmed again, as its payload; `[DONE]` ends the stream;
/// every other line is ignored.
pub open spec fn sse_line(line: Seq<u8>) -> SseLine {
    let t = trim_ascii(line);
    if t.len() >= 5 && t.subrange(0, 5) == data_field() {
        let d = trim_ascii(t.subrange(5, t.len() as int));
        if d == done_marker() {
            SseLine::Done
        } else {
            SseLine::Data(d)
        }
    } else {
        SseLine::Ignored
    }
}

/// The index of the first `\n` in `s` at or after `i`.
pub open spec fn newline_from(s: Seq<u8>, i: int) -> Option<int>
    decreases s.len() - i,
{
    if i < 0 || i >= s.len() {
        None
    } else if s[i] == 10u8 {
        Some(i)
    } else {
        newline_from(s, i + 1)
    }
}

/// The index of the first `\n` in `s`.
pub open spec fn first_newline(s: Seq<u8>) -> Option<int> {
    newline_from(s, 0)
}

/// The outcome of decoding a buffer: the payloads of its complete lines, in
/// order, whether `[DONE]` was reached, and how many leading bytes were
/// consumed (every complete line up to and including the `[DONE]` line).
pub struct SseScan {
    pub payloads: Seq<Seq<u8>>,
    pub done: bool,
    pub consumed: nat,
}

/// Decodes the complete lines of `buf`, stopping after `[DONE]`; bytes after
/// the last `\n` stay unconsumed.
pub open spec fn sse_scan(buf: Seq<u8>) -> SseScan
    decreases buf.len(),
{
    match first_newline(buf) {
        Some(n) if 0 <= n < buf.len() => {
            let rest = buf.subrange(n + 1, buf.len() as int);
            match sse_line(buf.subrange(0, n)) {
                SseLine::Done => SseScan { payloads: seq![], done: true, consumed: (n + 1) as nat },
                SseLine::Ignored => {
                    let r = sse_scan(rest);
                    SseScan { payloads: r.payloads, done: r.done, consumed: (n + 1 + r.consumed) as nat }
                },
                SseLine::Data(d) => {
                    let r = sse_scan(rest);
                    SseScan {
                        payloads: seq![d] + r.payloads,
                        done: r.done,
                        consumed: (n + 1 + r.consumed) as nat,
                    }
                },
            }
        },
        _ => SseScan { payloads: seq![], done: false, consumed: 0 },
    }
}

/// The byte contents of each payload.
pub open spec fn payload_views(v: Seq<Vec<u8>>) -> Seq<Seq<u8>> {
    v.map_values(|p: Vec<u8>| p@)
}

proof fn lemma_newline_from(s: Seq<u8>, i: int)
    requires
        0 <= i,
    ensures
        match newline_from(s, i) {
            Some(n) => i <= n < s.len() && s[n] == 10u8 && forall|j: int|
                i <= j < n ==> s[j] != 10u8,
            None => forall|j: int| i <= j < s.len() ==> s[j] != 10u8,
        },
    decreases s.len() - i,
{
    if i < s.len() && s[i] != 10u8 {
        lemma_newline_from(s, i + 1);
    }
}

proof fn lemma_newline_from_exact(s: Seq<u8>, i: int, n: int)
    requires
        0 <= i <= n <= s.len(),
        forall|j: int| i <= j < n ==> s[j] != 10u8,
    ensures
        n < s.len() && s[n] == 10u8 ==> newline_from(s, i) == Some(n),
        n == s.len() ==> newline_from(s, i) is None,
    decreases n - i,
{
    if i < n {
        lemma_newline_from_exact(s, i + 1, n);
    }
}

/// The first newline of `a + b` is the first newline of `a` when `a` has one.
proof fn lemma_newline_from_append(a: Seq<u8>, b: Seq<u8>, i: int)
    requires
        0 <= i,
        newline_from(a, i) is Some,
    ensures
        newline_from(a + b, i) == newline_from(a, i),
    decreases a.len() - i,
{
    if i < a.len() && a[i] != 10u8 {
        lemma_newline_from_append(a, b, i + 1);
    }
}

/// Decoding never consumes more than the buffer holds.
pub proof fn lemma_sse_scan_consumed(buf: Seq<u8>)
    ensures
        sse_scan(buf).consumed <= buf.len(),
    decreases buf.len(),
{
    match first_newline(buf) {
        Some(n) if 0 <= n < buf.len() => {
            lemma_sse_scan_consumed(buf.subrange(n + 1, buf.len() as int));
        },
        _ => {},
    }
}

/// Decoding is independent of where a stream was cut into chunks: decoding
/// `a + b` gives the payloads of `a`'s complete lines followed by those of the
/// unconsumed tail of `a` continued with `b`, as long as `a` did not already
/// end the stream.
pub proof fn lemma_sse_scan_append(a: Seq<u8>, b: Seq<u8>)
    requires
        !sse_scan(a).done,
    ensures
        sse_scan(a).consumed <= a.len(),
        ({
            let sa = sse_scan(a);
            let sr = sse_scan(a.subrange(sa.consumed as int, a.len() as int) + b);
            sse_scan(a + b) == SseScan {
                payloads: sa.payloads + sr.payloads,
                done: sr.done,
                consumed: sa.consumed + sr.consumed,
            }
        }),
    decreases a.len(),
{
    lemma_sse_scan_consumed(a);
    lemma_newline_from(a, 0);
    match first_newline(a) {
        Some(n) => {
            lemma_newline_from_append(a, b, 0);
            let rest = a.subrange(n + 1, a.len() as int);
            assert((a + b).subrange(0, n) =~= a.subrange(0, n));
            assert((a + b).subrange(n + 1, (a + b).len() as int) =~= rest + b);
            let ra = sse_scan(rest);
            lemma_sse_scan_append(rest, b);
            assert(a.subrange(sse_scan(a).consumed as int, a.len() as int) =~= rest.subrange(
                ra.consumed as int,
                rest.len() as int,
            ));
            let sr = sse_scan(rest.subrange(ra.consumed as int, rest.len() as int) + b);
            match sse_line(a.subrange(0, n)) {
                SseLine::Data(d) => {
                    assert(seq![d] + ra.payloads + sr.payloads =~= seq![d] + (ra.payloads
                        + sr.payloads));
                },
                _ => {},
            }
        },
        None => {
            assert(a.subrange(0, a.len() as int) =~= a);
            assert(sse_scan(a).payloads + sse_scan(a + b).payloads =~= sse_scan(a + b).payloads);
        },
    }
}

/// `[DONE]` ends the stream: once a buffer has reached it, whatever follows
/// is never decoded, so decoding the longer buffer gives the same payloads
/// and consumes the same bytes.
pub proof fn lemma_sse_scan_stops_at_done(a: Seq<u8>, b: Seq<u8>)
    requires
        sse_scan(a).done,
    ensures
        sse_scan(a + b) == sse_scan(a),
    decreases a.len(),
{
    lemma_newline_from(a, 0);
    match first_newline(a) {
        Some(n) => {
            lemma_newline_from_append(a, b, 0);
            let rest = a.subrange(n + 1, a.len() as int);
            assert((a + b).subrange(0, n) =~= a.subrange(0, n));
            assert((a + b).subrange(n + 1, (a + b).len() as int) =~= rest + b);
            match sse_line(a.subrange(0, n)) {
                SseLine::Done => {},
                _ => {
                    lemma_sse_scan_stops_at_done(rest, b);
                },
            }
        },
        None => {},
    }
}

/// Chunking never changes what a stream decodes to, even where a decoder
/// stops at `[DONE]` before the stream's last chunk: every prefix of a stream
/// that has reached `[DONE]` decodes exactly as the whole stream does, so two
/// decoders that stop at `[DONE]` after different chunks agree.
pub proof fn lemma_sse_chunking_independent(p: Seq<u8>, q: Seq<u8>, whole: Seq<u8>)
    requires
        p.len() <= whole.len(),
        whole.subrange(0, p.len() as int) == p,
        q.len() <= whole.len(),
        whole.subrange(0, q.len() as int) == q,
        sse_scan(p).done,
        sse_scan(q).done,
    ensures
        sse_scan(p) == sse_scan(whole),
        sse_scan(q) == sse_scan(whole),
        sse_scan(p).payloads == sse_scan(q).payloads,
{
    let pr = whole.subrange(p.len() as int, whole.len() as int);
    let qr = whole.subrange(q.len() as int, whole.len() as int);
    lemma_sse_scan_stops_at_done(p, pr);
    lemma_sse_scan_stops_at_done(q, qr);
    assert(p + pr =~= whole);
    assert(q + qr =~= whole);
}

/// Where the payload of a line lies, found by `classify_line`.
enum LineKind {
    Ignored,
    /// The payload is `buf[.0 .. .1]`.
    Data(usize, usize),
    Done,
}

/// Classifies the line `buf[lo..hi]` as `sse_line` does.
fn classify_line(buf: &[u8], lo: usize, hi: usize) -> (r: LineKind)
    requires
        lo <= hi <= buf@.len(),
    ensures
        match r {
            LineKind::Ignored => sse_line(buf@.subrange(lo as int, hi as int)) is Ignored,
            LineKind::Done => sse_line(buf@.subrange(lo as int, hi as int)) is Done,
            LineKind::Data(c, d) => c <= d <= buf@.len() && sse_line(
                buf@.subrange(lo as int, hi as int),
            ) == SseLine::Data(buf@.subrange(c as int, d as int)),
        },
{
    let (a, b) = trim_ascii_bounds(buf, lo, hi);
    let ghost t = buf@.subrange(a as int, b as int);
    let is_data = b - a >= 5 && buf[a] == 100u8 && buf[a + 1] == 97u8 && buf[a + 2] == 116u8
        && buf[a + 3] == 97u8 && buf[a + 4] == 58u8;
    if !is_data {
        proof {
            if t.len() >= 5 && t.subrange(0, 5) == data_field() {
                assert(t.subrange(0, 5)[0] == 100u8);
                assert(t.subrange(0, 5)[1] == 97u8);
                assert(t.subrange(0, 5)[2] == 116u8);
                assert(t.subrange(0, 5)[3] == 97u8);
                assert(t.subrange(0, 5)[4] == 58u8);
            }
        }
        return LineKind::Ignored;
    }
    proof {
        assert(t.subrange(0, 5) =~= data_field());
    }
    let (c, d) = trim_ascii_bounds(buf, a + 5, b);
    proof {
        assert(t.subrange(5, t.len() as int) =~= buf@.subrange(a + 5, b as int));
    }
    let ghost p = buf@.subrange(c as int, d as int);
    let is_done = d - c == 6 && buf[c] == 91u8 && buf[c + 1] == 68u8 && buf[c + 2] == 79u8
        && buf[c + 3] == 78u8 && buf[c + 4] == 69u8 && buf[c + 5] == 93u8;
    if is_done {
        proof {
            assert(p =~= done_marker());
        }
        LineKind::Done
    } else {
        proof {
            if p == done_marker() {
                assert(p.len() == 6);
                assert(p[0] == 91u8);
                assert(p[1] == 68u8);
                assert(p[2] == 79u8);
                assert(p[3] == 78u8);
                assert(p[4] == 69u8);
                assert(p[5] == 93u8);
            }
        }
        LineKind::Data(c, d)
    }
}

/// Cuts every complete line out of `byte_buf` and appends the `data:`
/// payloads to `payloads`, stopping after `[DONE]`; returns whether `[DONE]`
/// was reached. Bytes after the last `\n` (a line still arriving) stay in the
/// buffer, so a line split across network chunks is decoded once it is whole.
pub fn process_sse_byte_lines(byte_buf: &mut Vec<u8>, payloads: &mut Vec<Vec<u8>>) -> (done: bool)
    ensures
        ({
            let s = sse_scan(old(byte_buf)@);
            &&& done == s.done
            &&& s.consumed <= old(byte_buf)@.len()
            &&& final(byte_buf)@ == old(byte_buf)@.subrange(
                s.consumed as int,
                old(byte_buf)@.len() as int,
            )
            &&& payload_views(final(payloads)@) == payload_views(old(payloads)@) + s.payloads
        }),
{
    let ghost buf = byte_buf@;
    let ghost start = payload_views(payloads@);
    let ghost mut collected: Seq<Seq<u8>> = seq![];
    let len = byte_buf.len();
    let mut pos: usize = 0;
    let mut done = false;
    assert(buf.subrange(0, len as int) =~= buf);
    loop
        invariant_except_break
            !done,
        invariant
            byte_buf@ == buf,
            len == buf.len(),
            pos <= len,
            payload_views(payloads@) == start + collected,
            !done ==> ({
                let s = sse_scan(buf);
                let r = sse_scan(buf.subrange(pos as int, len as int));
                s.payloads == collected + r.payloads && s.done == r.done && s.consumed == pos
                    + r.consumed
            }),
        ensures
            ({
                let s = sse_scan(buf);
                s.payloads == collected && s.done == done && s.consumed == pos
            }),
        decreases len - pos,
    {
        let ghost tail = buf.subrange(pos as int, len as int);
        let mut k = pos;
        while k < len && byte_buf[k] != 10u8
            invariant
                byte_buf@ == buf,
                len == buf.len(),
                pos <= k <= len,
                forall|j: int| pos <= j < k ==> buf[j] != 10u8,
            decreases len - k,
        {
            k = k + 1;
        }
        if k == len {
            proof {
                lemma_newline_from_exact(tail, 0, tail.len() as int);
                assert(collected + seq![] =~= collected);
            }
            break ;
        }
        proof {
            lemma_newline_from_exact(tail, 0, k - pos);
            assert(tail.subrange(0, k - pos) =~= buf.subrange(pos as int, k as int));
            assert(tail.subrange(k - pos + 1, tail.len() as int) =~= buf.subrange(
                k + 1,
                len as int,
            ));
        }
        let kind = classify_line(byte_buf.as_slice(), pos, k);
        match kind {
            LineKind::Done => {
                pos = k + 1;
                done = true;
                break ;
            },
            LineKind::Data(c, d) => {
                let ghost p = buf.subrange(c as int, d as int);
                let payload = slice_to_vec(slice_subrange(byte_buf.as_slice(), c, d));
                let ghost before = payloads@;
                payloads.push(payload);
                proof {
                    assert(payload_views(payloads@) =~= payload_views(before).push(p));
                    assert(start + collected.push(p) =~= (start + collected).push(p));
                    let r = sse_scan(tail);
                    let r2 = sse_scan(buf.subrange(k + 1, len as int));
                    assert(r.payloads == seq![p] + r2.payloads);
                    assert(collected + r.payloads =~= collected.push(p) + r2.payloads);
                    collected = collected.push(p);
                }
            },
            LineKind::Ignored => {},
        }
        pos = k + 1;
    }
    let rest = byte_buf.split_off(pos);
    *byte_buf = rest;
    proof {
        lemma_sse_scan_consumed(buf);
        assert(payload_views(payloads@) == start + sse_scan(buf).payloads);
    }
    done
}

} // verus!

verus! {

/// The stream as it is decoded when the connection closes: an unterminated
/// last line is completed with a `\n`.
pub open spec fn sse_closed_stream(stream: Seq<u8>) -> Seq<u8> {
    if sse_scan(stream).consumed < stream.len() {
        stream.push(10u8)
    } else {
        stream
    }
}

/// Decodes a Server-Sent-Events response as it arrives chunk by chunk,
/// refusing the response once it has delivered more bytes than `limit`.
pub struct SseDecoder {
    pending: Vec<u8>,
    payloads: Vec<Vec<u8>>,
    received: usize,
    limit: usize,
    done: bool,
    stream: Ghost<Seq<u8>>,
}

impl SseDecoder {
    /// Every byte received so far, in order.
    pub closed spec fn stream(&self) -> Seq<u8> {
        self.stream@
    }

    /// The payloads decoded so far.
    pub closed spec fn decoded(&self) -> Seq<Seq<u8>> {
        payload_views(self.payloads@)
    }

    /// The byte limit of the response.
    pub closed spec fn limit_of(&self) -> usize {
        self.limit
    }

    /// Whether `[DONE]` has been decoded.
    pub closed spec fn is_done(&self) -> bool {
        self.done
    }

    /// The decoder's internal consistency: the pending bytes are the
    /// undecoded tail of the stream, and the decoded payloads are those of
    /// the whole stream.
    pub closed spec fn wf(&self) -> bool {
        &&& self.received == self.stream@.len()
        &&& self.received <= self.limit
        &&& self.done == sse_scan(self.stream@).done
        &&& payload_views(self.payloads@) == sse_scan(self.stream@).payloads
        &&& sse_scan(self.stream@).consumed <= self.stream@.len()
        &&& !self.done ==> self.pending@ == self.stream@.subrange(
            sse_scan(self.stream@).consumed as int,
            self.stream@.len() as int,
        )
    }

    /// A decoder for a response of at most `limit` bytes.
    pub fn new(limit: usize) -> (d: SseDecoder)
        ensures
            d.wf(),
            d.stream() == Seq::<u8>::empty(),
            d.decoded() == Seq::<Seq<u8>>::empty(),
            !d.is_done(),
            d.limit_of() == limit,
    {
        let d = SseDecoder {
            pending: Vec::new(),
            payloads: Vec::new(),
            received: 0,
            limit,
            done: false,
            stream: Ghost(Seq::empty()),
        };
        proof {
            assert(payload_views(d.payloads@) =~= Seq::<Seq<u8>>::empty());
            assert(d.stream@.subrange(0, 0) =~= d.pending@);
        }
        d
    }

    /// Number of bytes received so far.
    pub fn received(&self) -> (n: usize)
        requires
            self.wf(),
        ensures
            n == self.stream().len(),
    {
        self.received
    }

    /// The payloads decoded so far, in stream order.
    pub fn payloads(&self) -> (p: &Vec<Vec<u8>>)
        ensures
            payload_views(p@) == self.decoded(),
    {
        &self.payloads
    }

    /// Takes the next chunk of the response. Refuses it with
    /// `ResponseTooLarge` (leaving the decoder as it was) when the bytes
    /// received would exceed the limit; otherwise decodes every line it
    /// completes and returns whether `[DONE]` was reached. The payloads
    /// decoded are always those of the concatenated stream, however it was
    /// cut into chunks.
    pub fn on_chunk(&mut self, chunk: &[u8]) -> (r: Result<bool, crate::error::HttpClientError>)
        requires
            old(self).wf(),
            !old(self).is_done(),
            old(self).stream().len() + chunk@.len() <= usize::MAX,
        ensures
            ({
                let total = old(self).stream().len() + chunk@.len();
                if total > old(self).limit_of() {
                    &&& r == Err::<bool, crate::error::HttpClientError>(
                        crate::error::HttpClientError::ResponseTooLarge {
                            limit: old(self).limit_of(),
                            received: total as usize,
                        },
                    )
                    &&& *final(self) == *old(self)
                } else {
                    &&& final(self).wf()
                    &&& final(self).stream() == old(self).stream() + chunk@
                    &&& final(self).limit_of() == old(self).limit_of()
                    &&& final(self).decoded() == sse_scan(final(self).stream()).payloads
                    &&& final(self).is_done() == sse_scan(final(self).stream()).done
                    &&& r == Ok::<bool, crate::error::HttpClientError>(final(self).is_done())
                }
            }),
    {
        let total = self.received + chunk.len();
        if total > self.limit {
            return Err(crate::error::HttpClientError::ResponseTooLarge { limit: self.limit, received: total });
        }
        let ghost old_stream = self.stream@;
        let ghost c0 = sse_scan(old_stream).consumed;
        proof {
            lemma_sse_scan_append(old_stream, chunk@);
        }
        extend_bytes(&mut self.pending, chunk);
        let ghost buf = self.pending@;
        let done = process_sse_byte_lines(&mut self.pending, &mut self.payloads);
        self.received = total;
        self.done = done;
        self.stream = Ghost(old_stream + chunk@);
        proof {
            let s = self.stream@;
            let c1 = sse_scan(buf).consumed;
            assert(s.subrange(c0 as int, s.len() as int) =~= buf);
            assert(s.subrange((c0 + c1) as int, s.len() as int) =~= buf.subrange(c1 as int, buf.len() as int));
        }
        Ok(done)
    }

    /// The connection closed: an unterminated last line is decoded as if it
    /// ended with `\n`; the stream is complete only if `[DONE]` was reached,
    /// otherwise `IncompleteSseStream`.
    pub fn finish(&mut self) -> (r: Result<(), crate::error::HttpClientError>)
        requires
            old(self).wf(),
            !old(self).is_done(),
        ensures
            final(self).decoded() == sse_scan(sse_closed_stream(old(self).stream())).payloads,
            r == (if sse_scan(sse_closed_stream(old(self).stream())).done {
                Ok::<(), crate::error::HttpClientError>(())
            } else {
                Err(crate::error::HttpClientError::IncompleteSseStream)
            }),
    {
        let ghost old_stream = self.stream@;
        if self.pending.len() > 0 {
            proof {
                lemma_sse_scan_append(old_stream, seq![10u8]);
                assert(old_stream.push(10u8) =~= old_stream + seq![10u8]);
            }
            self.pending.push(10u8);
            let ghost buf = self.pending@;
            proof {
                let c0 = sse_scan(old_stream).consumed;
                assert(buf =~= old_stream.subrange(c0 as int, old_stream.len() as int) + seq![10u8]);
                assert(c0 < old_stream.len());
            }
            let done = process_sse_byte_lines(&mut self.pending, &mut self.payloads);
            self.done = done;
            self.stream = Ghost(old_stream.push(10u8));
        } else {
            proof {
                assert(sse_closed_stream(old_stream) == old_stream);
            }
        }
        if self.done {
            Ok(())
        } else {
            Err(crate::error::HttpClientError::IncompleteSseStream)
        }
    }
}

} // verus!
