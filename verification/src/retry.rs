//! Retry policy (which failures are worth another attempt, how many attempts,
//! how long to wait) and the schedule that applies it to one request.

use crate::delay::{duration_nanos, Delay};
use crate::error::HttpClientError;
use backon::{BackoffBuilder, ExponentialBackoff, ExponentialBuilder};
use core::time::Duration;
use vstd::prelude::*;

verus! {

/// The status codes retried by default: 429, 500, 502, 503 and 504.
pub open spec fn default_status_codes() -> Seq<u16> {
    seq![429u16, 500u16, 502u16, 503u16, 504u16]
}

/// The status codes retried by default: 429 Too Many Requests, 500 Internal
/// Server Error, 502 Bad Gateway, 503 Service Unavailable, 504 Gateway Timeout.
pub fn default_retryable_status_codes() -> (v: Vec<u16>)
    ensures
        v@ == default_status_codes(),
{
    let v = vec![429u16, 500u16, 502u16, 503u16, 504u16];
    assert(v@ =~= default_status_codes());
    v
}

/// What `reqwest::Error::is_timeout` answers for the error: whether it, or
/// an error in its source chain, is a timeout.
pub uninterp spec fn reqwest_timeout(e: reqwest::Error) -> bool;

/// What `reqwest::Error::is_connect` answers for the error: whether it comes
/// from establishing a connection.
pub uninterp spec fn reqwest_connect(e: reqwest::Error) -> bool;

/// Whether a failure is worth retrying under the given retryable status
/// codes: a transport error when it is a timeout or a connection failure; an
/// API error when its status is listed; a truncated or stalled SSE stream;
/// never a failure that a retry cannot mend (encoding, decoding, URL, path,
/// empty body, oversized body).
pub open spec fn retryable(codes: Seq<u16>, err: HttpClientError) -> bool {
    match err {
        HttpClientError::RequestError(e) => reqwest_timeout(e) || reqwest_connect(e),
        HttpClientError::ApiError { status, .. } => codes.contains(status),
        HttpClientError::IncompleteSseStream => true,
        HttpClientError::SseIdleTimeout => true,
        _ => false,
    }
}

/// Transport errors are retried exactly when they are timeouts or
/// connection failures, whatever statuses the policy retries: a timeout is
/// always worth another attempt, and so is a failed connection; any other
/// transport error (a request that could not be built, a redirect, a body
/// error, ...) never is.
pub proof fn lemma_transport_errors_retried(codes: Seq<u16>, e: reqwest::Error)
    ensures
        reqwest_timeout(e) ==> retryable(codes, HttpClientError::RequestError(e)),
        reqwest_connect(e) ==> retryable(codes, HttpClientError::RequestError(e)),
        !reqwest_timeout(e) && !reqwest_connect(e) ==> !retryable(
            codes,
            HttpClientError::RequestError(e),
        ),
{
}

/// How many attempts a request gets, the delays between them, and which
/// API statuses are retried.
#[derive(Debug)]
pub struct RetryPolicy {
    max_attempts: u32,
    base_delay: Delay,
    max_delay: Delay,
    retryable_status_codes: Vec<u16>,
}

impl RetryPolicy {
    #[verifier::type_invariant]
    spec fn well_formed(self) -> bool {
        self.max_attempts > 0
    }

    /// The total number of attempts (first attempt included); never zero.
    pub closed spec fn spec_max_attempts(self) -> u32 {
        self.max_attempts
    }

    /// The first backoff delay.
    pub closed spec fn spec_base_delay(self) -> Delay {
        self.base_delay
    }

    /// The cap on backoff delays.
    pub closed spec fn spec_max_delay(self) -> Delay {
        self.max_delay
    }

    /// The API statuses that are retried.
    pub closed spec fn spec_retryable_status_codes(self) -> Seq<u16> {
        self.retryable_status_codes@
    }

    /// A policy with the given values; `max_attempts` is not zero.
    pub fn new(
        max_attempts: u32,
        base_delay: Delay,
        max_delay: Delay,
        retryable_status_codes: Vec<u16>,
    ) -> (p: RetryPolicy)
        requires
            max_attempts > 0,
        ensures
            p.spec_max_attempts() == max_attempts,
            p.spec_base_delay() == base_delay,
            p.spec_max_delay() == max_delay,
            p.spec_retryable_status_codes() == retryable_status_codes@,
    {
        RetryPolicy { max_attempts, base_delay, max_delay, retryable_status_codes }
    }

    /// A builder starting from the defaults: 3 attempts, 1 s base delay,
    /// 30 s maximum delay, and the default retryable status codes.
    pub fn builder() -> (b: RetryPolicyBuilder)
        ensures
            b.spec_max_attempts() == 3,
            b.spec_base_delay()@ == 1_000_000_000,
            b.spec_max_delay()@ == 30_000_000_000,
            b.spec_retryable_status_codes() == default_status_codes(),
    {
        RetryPolicyBuilder {
            max_attempts: 3,
            base_delay: Delay::from_secs(1),
            max_delay: Delay::from_secs(30),
            retryable_status_codes: default_retryable_status_codes(),
        }
    }

    /// The total number of attempts (first attempt included).
    pub fn max_attempts(&self) -> (n: u32)
        ensures
            n == self.spec_max_attempts(),
            n > 0,
    {
        proof {
            use_type_invariant(self);
        }
        self.max_attempts
    }

    /// The first backoff delay.
    pub fn base_delay(&self) -> (d: Delay)
        ensures
            d == self.spec_base_delay(),
    {
        self.base_delay
    }

    /// The cap on backoff delays.
    pub fn max_delay(&self) -> (d: Delay)
        ensures
            d == self.spec_max_delay(),
    {
        self.max_delay
    }

    /// The API statuses that are retried.
    pub fn retryable_status_codes(&self) -> (c: &Vec<u16>)
        ensures
            c@ == self.spec_retryable_status_codes(),
    {
        &self.retryable_status_codes
    }

    /// Whether `status` is one of the retried API statuses.
    pub fn retries_status(&self, status: u16) -> (r: bool)
        ensures
            r == self.spec_retryable_status_codes().contains(status),
    {
        let mut i: usize = 0;
        while i < self.retryable_status_codes.len()
            invariant
                i <= self.retryable_status_codes@.len(),
                forall|j: int| 0 <= j < i ==> self.retryable_status_codes@[j] != status,
            decreases self.retryable_status_codes@.len() - i,
        {
            if self.retryable_status_codes[i] == status {
                assert(self.retryable_status_codes@[i as int] == status);
                return true;
            }
            i = i + 1;
        }
        false
    }

    /// Whether a failed attempt is worth retrying: timeouts and connection
    /// failures of the transport, API errors whose status is listed, and SSE
    /// streams that were cut short or stalled. Everything else is permanent.
    pub fn is_retryable(&self, err: &HttpClientError) -> (r: bool)
        ensures
            r == retryable(self.spec_retryable_status_codes(), *err),
    {
        match err {
            HttpClientError::RequestError(e) => reqwest_is_timeout(e) || reqwest_is_connect(e),
            HttpClientError::ApiError { status, .. } => self.retries_status(*status),
            HttpClientError::IncompleteSseStream => true,
            HttpClientError::SseIdleTimeout => true,
            HttpClientError::SerializationError(_) => false,
            HttpClientError::DeserializationError(_) => false,
            HttpClientError::UrlError(_) => false,
            HttpClientError::InvalidRequestPath(_) => false,
            HttpClientError::EmptyResponseBody => false,
            HttpClientError::ResponseTooLarge { .. } => false,
        }
    }
}

impl Clone for RetryPolicy {
    /// A policy with the same values.
    fn clone(&self) -> (p: RetryPolicy)
        ensures
            p.spec_max_attempts() == self.spec_max_attempts(),
            p.spec_base_delay() == self.spec_base_delay(),
            p.spec_max_delay() == self.spec_max_delay(),
            p.spec_retryable_status_codes() == self.spec_retryable_status_codes(),
    {
        proof {
            use_type_invariant(self);
        }
        RetryPolicy {
            max_attempts: self.max_attempts,
            base_delay: self.base_delay,
            max_delay: self.max_delay,
            retryable_status_codes: copy_status_codes(&self.retryable_status_codes),
        }
    }
}

/// A copy of a list of status codes.
fn copy_status_codes(codes: &Vec<u16>) -> (c: Vec<u16>)
    ensures
        c@ == codes@,
{
    let mut c: Vec<u16> = Vec::new();
    let mut i: usize = 0;
    while i < codes.len()
        invariant
            i <= codes@.len(),
            c@ == codes@.subrange(0, i as int),
        decreases codes@.len() - i,
    {
        c.push(codes[i]);
        assert(codes@.subrange(0, i + 1) =~= codes@.subrange(0, i as int).push(codes@[i as int]));
        i = i + 1;
    }
    assert(codes@.subrange(0, codes@.len() as int) =~= codes@);
    c
}

/// Whether two policies hold the same values.
pub open spec fn same_policy(a: RetryPolicy, b: RetryPolicy) -> bool {
    &&& a.spec_max_attempts() == b.spec_max_attempts()
    &&& a.spec_base_delay() == b.spec_base_delay()
    &&& a.spec_max_delay() == b.spec_max_delay()
    &&& a.spec_retryable_status_codes() == b.spec_retryable_status_codes()
}

/// Whether two optional policies are both absent, or both present with the
/// same values.
pub open spec fn same_optional_policy(a: Option<RetryPolicy>, b: Option<RetryPolicy>) -> bool {
    match (a, b) {
        (Some(x), Some(y)) => same_policy(x, y),
        (None, None) => true,
        _ => false,
    }
}

/// A copy of an optional policy.
pub fn clone_optional_policy(p: &Option<RetryPolicy>) -> (r: Option<RetryPolicy>)
    ensures
        same_optional_policy(r, *p),
{
    match p {
        Some(x) => Some(x.clone()),
        None => None,
    }
}

/// Builds a `RetryPolicy`; every value not set keeps its default.
pub struct RetryPolicyBuilder {
    max_attempts: u32,
    base_delay: Delay,
    max_delay: Delay,
    retryable_status_codes: Vec<u16>,
}

impl RetryPolicyBuilder {
    #[verifier::type_invariant]
    spec fn well_formed(self) -> bool {
        self.max_attempts > 0
    }

    /// The number of attempts the policy will allow.
    pub closed spec fn spec_max_attempts(self) -> u32 {
        self.max_attempts
    }

    /// The base delay the policy will have.
    pub closed spec fn spec_base_delay(self) -> Delay {
        self.base_delay
    }

    /// The maximum delay the policy will have.
    pub closed spec fn spec_max_delay(self) -> Delay {
        self.max_delay
    }

    /// The retryable statuses the policy will have.
    pub closed spec fn spec_retryable_status_codes(self) -> Seq<u16> {
        self.retryable_status_codes@
    }

    /// Sets the total number of attempts (first attempt included); not zero.
    pub fn max_attempts(self, max_attempts: u32) -> (b: RetryPolicyBuilder)
        requires
            max_attempts > 0,
        ensures
            b.spec_max_attempts() == max_attempts,
            b.spec_base_delay() == self.spec_base_delay(),
            b.spec_max_delay() == self.spec_max_delay(),
            b.spec_retryable_status_codes() == self.spec_retryable_status_codes(),
    {
        RetryPolicyBuilder { max_attempts, ..self }
    }

    /// Sets the first backoff delay.
    pub fn base_delay(self, base_delay: Delay) -> (b: RetryPolicyBuilder)
        ensures
            b.spec_max_attempts() == self.spec_max_attempts(),
            b.spec_base_delay() == base_delay,
            b.spec_max_delay() == self.spec_max_delay(),
            b.spec_retryable_status_codes() == self.spec_retryable_status_codes(),
    {
        proof {
            use_type_invariant(&self);
        }
        RetryPolicyBuilder { base_delay, ..self }
    }

    /// Sets the cap on backoff delays.
    pub fn max_delay(self, max_delay: Delay) -> (b: RetryPolicyBuilder)
        ensures
            b.spec_max_attempts() == self.spec_max_attempts(),
            b.spec_base_delay() == self.spec_base_delay(),
            b.spec_max_delay() == max_delay,
            b.spec_retryable_status_codes() == self.spec_retryable_status_codes(),
    {
        proof {
            use_type_invariant(&self);
        }
        RetryPolicyBuilder { max_delay, ..self }
    }

    /// Sets the API statuses that are retried.
    pub fn retryable_status_codes(self, retryable_status_codes: Vec<u16>) -> (b: RetryPolicyBuilder)
        ensures
            b.spec_max_attempts() == self.spec_max_attempts(),
            b.spec_base_delay() == self.spec_base_delay(),
            b.spec_max_delay() == self.spec_max_delay(),
            b.spec_retryable_status_codes() == retryable_status_codes@,
    {
        proof {
            use_type_invariant(&self);
        }
        RetryPolicyBuilder { retryable_status_codes, ..self }
    }

    /// The policy with the values set so far.
    pub fn build(self) -> (p: RetryPolicy)
        ensures
            p.spec_max_attempts() == self.spec_max_attempts(),
            p.spec_base_delay() == self.spec_base_delay(),
            p.spec_max_delay() == self.spec_max_delay(),
            p.spec_retryable_status_codes() == self.spec_retryable_status_codes(),
    {
        proof {
            use_type_invariant(&self);
        }
        RetryPolicy {
            max_attempts: self.max_attempts,
            base_delay: self.base_delay,
            max_delay: self.max_delay,
            retryable_status_codes: self.retryable_status_codes,
        }
    }
}

/// `reqwest::Error::is_timeout`: whether the error (or one of its sources)
/// is a timeout; its answer is named `reqwest_timeout`.
#[verifier::external_body]
fn reqwest_is_timeout(e: &reqwest::Error) -> (r: bool)
    ensures
        r == reqwest_timeout(*e),
{
    e.is_timeout()
}

/// `reqwest::Error::is_connect`: whether the error comes from connecting;
/// its answer is named `reqwest_connect`.
#[verifier::external_body]
fn reqwest_is_connect(e: &reqwest::Error) -> (r: bool)
    ensures
        r == reqwest_connect(*e),
{
    e.is_connect()
}

/// The configuration of an exponential backoff in `backon`.
#[verifier::external_type_specification]
#[verifier::external_body]
pub struct ExExponentialBuilder(ExponentialBuilder);

/// The iterator of backoff delays that `backon` builds from it.
#[verifier::external_type_specification]
#[verifier::external_body]
pub struct ExExponentialBackoff(ExponentialBackoff);

/// Whether a `backon` exponential builder adds random jitter to each delay.
pub uninterp spec fn builder_jitter(b: ExponentialBuilder) -> bool;

/// Whether the factor by which a `backon` exponential builder grows its
/// delays is at least 2.
pub uninterp spec fn builder_factor_at_least_two(b: ExponentialBuilder) -> bool;

/// The first delay a `backon` exponential builder is set to.
pub uninterp spec fn builder_min_delay(b: ExponentialBuilder) -> Duration;

/// The cap a `backon` exponential builder puts on the growing delay.
pub uninterp spec fn builder_max_delay(b: ExponentialBuilder) -> Option<Duration>;

/// How many delays a `backon` exponential builder's backoff yields at most.
pub uninterp spec fn builder_max_times(b: ExponentialBuilder) -> Option<usize>;

/// The limit a `backon` exponential builder puts on the sum of all delays.
pub uninterp spec fn builder_total_delay(b: ExponentialBuilder) -> Option<Duration>;

/// Whether a `backon` exponential backoff adds random jitter to each delay.
pub uninterp spec fn backoff_jitter(b: ExponentialBackoff) -> bool;

/// Whether the factor by which a `backon` exponential backoff grows its
/// delays is at least 2.
pub uninterp spec fn backoff_factor_at_least_two(b: ExponentialBackoff) -> bool;

/// The first delay of a `backon` exponential backoff.
pub uninterp spec fn backoff_min_delay(b: ExponentialBackoff) -> Duration;

/// The cap on the growing delay of a `backon` exponential backoff.
pub uninterp spec fn backoff_max_delay(b: ExponentialBackoff) -> Option<Duration>;

/// How many delays a `backon` exponential backoff yields at most.
pub uninterp spec fn backoff_max_times(b: ExponentialBackoff) -> Option<usize>;

/// The limit on the sum of all delays of a `backon` exponential backoff.
pub uninterp spec fn backoff_total_delay(b: ExponentialBackoff) -> Option<Duration>;

/// How many delays a `backon` exponential backoff has yielded.
pub uninterp spec fn backoff_attempts(b: ExponentialBackoff) -> usize;

/// The current (grown, capped, jitter-free) delay of a `backon` exponential
/// backoff; `None` before its first delay.
pub uninterp spec fn backoff_current(b: ExponentialBackoff) -> Option<Duration>;

/// The shortest delay an exponential backoff from `min` capped at `max`
/// yields, in nanoseconds, when it grows by a factor of at least 2: its first
/// delay is `min`, each later one grows from the previous one and is cut
/// back to `max` only when it passes `max`, and jitter only adds to a delay.
pub open spec fn backoff_floor(min: Duration, max: Option<Duration>) -> nat {
    match max {
        Some(m) => if duration_nanos(min) <= duration_nanos(m) {
            duration_nanos(min)
        } else {
            duration_nanos(m)
        },
        None => duration_nanos(min),
    }
}

/// The least the next (jitter-free) delay can be, in nanoseconds, after a
/// delay of `prev` nanoseconds under a cap of `cap`, growing by a factor of
/// at least 2 computed in `f32`: a delay at the cap stays at the cap; one
/// below it becomes at least twice itself, less the `f32` rounding (a
/// 2^-20 share) and 1 ns of conversion, or the cap if that is smaller.
pub open spec fn grown_delay_floor(prev: nat, cap: nat) -> int {
    if prev >= cap {
        cap as int
    } else {
        let grown = 2 * prev - (prev + 1048575) / 1048576 - 1;
        if grown <= cap {
            grown
        } else {
            cap as int
        }
    }
}

/// The most a delay can be, in nanoseconds, when jitter adds to a current
/// delay of `cur` nanoseconds a random part below it: twice `cur`, plus a
/// 2^-20 share and 2 ns for `f32` rounding.
pub open spec fn jittered_delay_ceiling(cur: nat) -> nat {
    2 * cur + cur / 1048576 + 2
}

/// `<backon::ExponentialBuilder as Default>::default`: no jitter, factor 2,
/// a 1 s first delay, a 60 s cap, at most 3 delays and no total limit.
#[verifier::external_body]
fn exponential_builder() -> (r: ExponentialBuilder)
    ensures
        builder_jitter(r) == false,
        builder_factor_at_least_two(r),
        duration_nanos(builder_min_delay(r)) == 1_000_000_000,
        builder_max_delay(r) is Some,
        duration_nanos(builder_max_delay(r).unwrap()) == 60_000_000_000,
        builder_max_times(r) == Some(3usize),
        builder_total_delay(r) is None,
{
    ExponentialBuilder::default()
}

/// `backon::ExponentialBuilder::with_jitter`: switches jitter on (a random
/// part, below the delay itself, is added to each delay); nothing else changes.
#[verifier::external_body]
fn builder_with_jitter(b: ExponentialBuilder) -> (r: ExponentialBuilder)
    ensures
        builder_jitter(r),
        builder_factor_at_least_two(r) == builder_factor_at_least_two(b),
        builder_min_delay(r) == builder_min_delay(b),
        builder_max_delay(r) == builder_max_delay(b),
        builder_max_times(r) == builder_max_times(b),
        builder_total_delay(r) == builder_total_delay(b),
{
    b.with_jitter()
}

/// `backon::ExponentialBuilder::with_min_delay`: sets the first delay;
/// nothing else changes.
#[verifier::external_body]
fn builder_with_min_delay(b: ExponentialBuilder, min_delay: Duration) -> (r: ExponentialBuilder)
    ensures
        builder_jitter(r) == builder_jitter(b),
        builder_factor_at_least_two(r) == builder_factor_at_least_two(b),
        builder_min_delay(r) == min_delay,
        builder_max_delay(r) == builder_max_delay(b),
        builder_max_times(r) == builder_max_times(b),
        builder_total_delay(r) == builder_total_delay(b),
{
    b.with_min_delay(min_delay)
}

/// `backon::ExponentialBuilder::with_max_delay`: caps the growing delay;
/// nothing else changes.
#[verifier::external_body]
fn builder_with_max_delay(b: ExponentialBuilder, max_delay: Duration) -> (r: ExponentialBuilder)
    ensures
        builder_jitter(r) == builder_jitter(b),
        builder_factor_at_least_two(r) == builder_factor_at_least_two(b),
        builder_min_delay(r) == builder_min_delay(b),
        builder_max_delay(r) == Some(max_delay),
        builder_max_times(r) == builder_max_times(b),
        builder_total_delay(r) == builder_total_delay(b),
{
    b.with_max_delay(max_delay)
}

/// `<backon::ExponentialBuilder as BackoffBuilder>::build`: the iterator of
/// delays with the builder's settings, none yielded yet, seeded from a fresh
/// random generator.
#[verifier::external_body]
fn build_backoff(b: ExponentialBuilder) -> (r: ExponentialBackoff)
    ensures
        backoff_jitter(r) == builder_jitter(b),
        backoff_factor_at_least_two(r) == builder_factor_at_least_two(b),
        backoff_min_delay(r) == builder_min_delay(b),
        backoff_max_delay(r) == builder_max_delay(b),
        backoff_max_times(r) == builder_max_times(b),
        backoff_total_delay(r) == builder_total_delay(b),
        backoff_attempts(r) == 0,
        backoff_current(r) is None,
{
    b.build()
}

/// Whether a backoff has yielded all the delays it may.
pub open spec fn backoff_spent(b: ExponentialBackoff) -> bool {
    match backoff_max_times(b) {
        Some(t) => backoff_attempts(b) >= t,
        None => backoff_attempts(b) >= usize::MAX,
    }
}

/// `<backon::ExponentialBackoff as Iterator>::next`, on a backoff without a
/// total limit (with one, it adds delays unchecked and can panic). Once
/// `max_times` delays have been yielded it returns `None` and changes
/// nothing. Otherwise it counts the delay and moves the current delay: the
/// first is the minimum delay; a later one is the previous one unchanged when
/// it has reached the cap, else grown by the factor (in `f32`) and cut back
/// to the cap when it passes it. The delay returned is the current one, plus
/// a random part below it when jitter is on. With a factor of at least 2,
/// every delay is at least the smaller of the minimum delay and the cap.
#[verifier::external_body]
fn next_backoff(b: &mut ExponentialBackoff) -> (r: Option<Duration>)
    requires
        backoff_total_delay(*old(b)) is None,
    ensures
        backoff_jitter(*final(b)) == backoff_jitter(*old(b)),
        backoff_factor_at_least_two(*final(b)) == backoff_factor_at_least_two(*old(b)),
        backoff_min_delay(*final(b)) == backoff_min_delay(*old(b)),
        backoff_max_delay(*final(b)) == backoff_max_delay(*old(b)),
        backoff_max_times(*final(b)) == backoff_max_times(*old(b)),
        backoff_total_delay(*final(b)) == backoff_total_delay(*old(b)),
        backoff_spent(*old(b)) ==> r is None && *final(b) == *old(b),
        !backoff_spent(*old(b)) ==> r is Some,
        r is Some ==> {
            &&& backoff_attempts(*final(b)) == backoff_attempts(*old(b)) + 1
            &&& backoff_current(*final(b)) is Some
            &&& duration_nanos(r.unwrap()) >= duration_nanos(backoff_current(*final(b)).unwrap())
            &&& duration_nanos(r.unwrap()) <= jittered_delay_ceiling(
                duration_nanos(backoff_current(*final(b)).unwrap()),
            )
            &&& !backoff_jitter(*old(b)) ==> r.unwrap() == backoff_current(*final(b)).unwrap()
            &&& backoff_current(*old(b)) is None ==> backoff_current(*final(b)).unwrap()
                == backoff_min_delay(*old(b))
            &&& backoff_current(*old(b)) is Some && backoff_max_delay(*old(b)) is Some ==> {
                let prev = duration_nanos(backoff_current(*old(b)).unwrap());
                let cap = duration_nanos(backoff_max_delay(*old(b)).unwrap());
                let cur = duration_nanos(backoff_current(*final(b)).unwrap());
                &&& cur <= cap
                &&& backoff_factor_at_least_two(*old(b)) ==> cur >= grown_delay_floor(prev, cap)
            }
            &&& backoff_factor_at_least_two(*old(b)) ==> duration_nanos(r.unwrap()) >= backoff_floor(
                backoff_min_delay(*old(b)),
                backoff_max_delay(*old(b)),
            )
        },
{
    b.next()
}

/// The wait before the next attempt, in nanoseconds: the backoff delay (the
/// policy's maximum delay once the backoff has no more delays), lengthened to
/// the server's `Retry-After` hint when the failure carries a longer one.
pub open spec fn spec_retry_delay(backoff: Option<Delay>, max_delay: Delay, err: HttpClientError) -> nat {
    let base = match backoff {
        Some(b) => b@,
        None => max_delay@,
    };
    match err {
        HttpClientError::ApiError { retry_after: Some(ra), .. } => if base >= ra@ {
            base
        } else {
            ra@
        },
        _ => base,
    }
}

/// Only a `Retry-After` hint changes the wait: after any failure that does
/// not carry one, the wait is exactly the backoff delay drawn (the maximum
/// delay once the backoff is spent); a hint makes the wait the longer of the
/// two, so never shorter than either.
pub proof fn lemma_retry_delay_follows_the_backoff(
    backoff: Option<Delay>,
    max_delay: Delay,
    err: HttpClientError,
)
    ensures
        !(err matches HttpClientError::ApiError { retry_after: Some(_), .. }) ==> {
            &&& backoff matches Some(b) ==> spec_retry_delay(backoff, max_delay, err) == b@
            &&& backoff is None ==> spec_retry_delay(backoff, max_delay, err) == max_delay@
        },
        err matches HttpClientError::ApiError { retry_after: Some(ra), .. } ==> {
            let drawn = match backoff {
                Some(b) => b@,
                None => max_delay@,
            };
            let d = spec_retry_delay(backoff, max_delay, err);
            &&& d >= drawn
            &&& d >= ra@
            &&& d == drawn || d == ra@
        },
{
}

/// The wait before the next attempt after `err`, given the next backoff
/// delay (`None` when the backoff is used up).
pub fn retry_delay(backoff: Option<Delay>, max_delay: Delay, err: &HttpClientError) -> (d: Delay)
    ensures
        d@ == spec_retry_delay(backoff, max_delay, *err),
{
    let base = match backoff {
        Some(b) => b,
        None => max_delay,
    };
    match err {
        HttpClientError::ApiError { retry_after: Some(ra), .. } => base.max(*ra),
        _ => base,
    }
}

/// What to do after a failed attempt.
#[derive(Debug)]
pub enum RetryDecision {
    /// Return the failure to the caller.
    GiveUp,
    /// Wait this long, then attempt again.
    RetryAfter(Delay),
}

/// The retry state of one request: the policy, how many attempts have been
/// made, and the exponential backoff (with jitter, from the policy's base
/// delay up to its maximum delay).
pub struct RetrySchedule {
    policy: RetryPolicy,
    attempts: u32,
    backoff: ExponentialBackoff,
}

/// The shortest wait a schedule with these delays chooses, in nanoseconds:
/// the smaller of the base delay and the maximum delay.
pub open spec fn delay_floor(base_delay: Delay, max_delay: Delay) -> nat {
    if base_delay@ <= max_delay@ {
        base_delay@
    } else {
        max_delay@
    }
}

impl RetrySchedule {
    /// Attempts made so far.
    pub closed spec fn attempts_made(&self) -> nat {
        self.attempts as nat
    }

    /// The policy that the schedule applies.
    pub closed spec fn policy_of(&self) -> RetryPolicy {
        self.policy
    }

    /// The backoff that the schedule draws its delays from.
    pub closed spec fn backoff_of(&self) -> ExponentialBackoff {
        self.backoff
    }

    /// The backoff is the one the policy calls for: jitter on, a growth
    /// factor of at least 2, the policy's base delay first, capped at its maximum delay, at most 3 delays and no
    /// total limit.
    pub closed spec fn wf(&self) -> bool {
        &&& backoff_jitter(self.backoff)
        &&& backoff_factor_at_least_two(self.backoff)
        &&& duration_nanos(backoff_min_delay(self.backoff)) == self.policy.spec_base_delay()@
        &&& backoff_max_delay(self.backoff) matches Some(m) && duration_nanos(m)
            == self.policy.spec_max_delay()@
        &&& backoff_max_times(self.backoff) == Some(3usize)
        &&& backoff_total_delay(self.backoff) is None
    }

    /// The schedule of a request that has not been attempted yet: the
    /// policy's values, and a fresh backoff with jitter that starts at the
    /// base delay, is capped at the maximum delay and yields at most 3 delays.
    pub fn new(policy: &RetryPolicy) -> (s: RetrySchedule)
        ensures
            s.wf(),
            s.attempts_made() == 0,
            same_policy(s.policy_of(), *policy),
            backoff_jitter(s.backoff_of()),
            backoff_factor_at_least_two(s.backoff_of()),
            duration_nanos(backoff_min_delay(s.backoff_of())) == policy.spec_base_delay()@,
            backoff_max_delay(s.backoff_of()) matches Some(m) && duration_nanos(m)
                == policy.spec_max_delay()@,
            backoff_max_times(s.backoff_of()) == Some(3usize),
            backoff_total_delay(s.backoff_of()) is None,
            backoff_attempts(s.backoff_of()) == 0,
            backoff_current(s.backoff_of()) is None,
    {
        let b = exponential_builder();
        let b = builder_with_jitter(b);
        let b = builder_with_min_delay(b, policy.base_delay().to_std());
        let b = builder_with_max_delay(b, policy.max_delay().to_std());
        RetrySchedule { policy: policy.clone(), attempts: 0, backoff: build_backoff(b) }
    }

    /// Records a failed attempt and decides whether to try again. The request
    /// gives up exactly when the policy's attempts are spent or the failure is
    /// not retryable, and then leaves the backoff untouched. Otherwise it
    /// draws the next backoff delay: while the backoff has delays left (it
    /// yields 3), the wait is that delay, which lies between the backoff's
    /// current delay and about twice it (jitter), the current delay starting
    /// at the base delay and then at least doubling, less `f32` rounding, up
    /// to the maximum delay; once they are spent it is the maximum delay; either is lengthened to the server's longer
    /// `Retry-After` hint, and is never less than the smaller of the base and
    /// maximum delays.
    pub fn on_failure(&mut self, err: &HttpClientError) -> (d: RetryDecision)
        requires
            old(self).wf(),
            old(self).attempts_made() < old(self).policy_of().spec_max_attempts(),
        ensures
            final(self).wf(),
            final(self).attempts_made() == old(self).attempts_made() + 1,
            final(self).policy_of() == old(self).policy_of(),
            (d is GiveUp) == (final(self).attempts_made() >= final(self).policy_of().spec_max_attempts()
                || !retryable(final(self).policy_of().spec_retryable_status_codes(), *err)),
            d is GiveUp ==> final(self).backoff_of() == old(self).backoff_of(),
            *err matches HttpClientError::RequestError(e) && (reqwest_timeout(e) || reqwest_connect(e))
                && final(self).attempts_made() < final(self).policy_of().spec_max_attempts()
                ==> d is RetryAfter,
            !(err matches HttpClientError::ApiError { retry_after: Some(_), .. }) ==> (d matches RetryDecision::RetryAfter(
                delay,
            ) ==> {
                &&& backoff_spent(old(self).backoff_of()) ==> delay@
                    == final(self).policy_of().spec_max_delay()@
                &&& !backoff_spent(old(self).backoff_of()) ==> {
                    let cur = duration_nanos(backoff_current(final(self).backoff_of()).unwrap());
                    cur <= delay@ <= jittered_delay_ceiling(cur)
                }
            }),
            d matches RetryDecision::RetryAfter(delay) ==> {
                &&& delay@ >= delay_floor(
                    final(self).policy_of().spec_base_delay(),
                    final(self).policy_of().spec_max_delay(),
                )
                &&& exists|b: Option<Delay>|
                    (b matches Some(x) ==> x@ >= delay_floor(
                        final(self).policy_of().spec_base_delay(),
                        final(self).policy_of().spec_max_delay(),
                    )) && delay@ == #[trigger] spec_retry_delay(
                        b,
                        final(self).policy_of().spec_max_delay(),
                        *err,
                    )
                &&& err matches HttpClientError::ApiError { retry_after: Some(ra), .. } ==> delay@
                    >= ra@
                &&& backoff_spent(old(self).backoff_of()) ==> {
                    &&& final(self).backoff_of() == old(self).backoff_of()
                    &&& delay@ == spec_retry_delay(
                        None,
                        final(self).policy_of().spec_max_delay(),
                        *err,
                    )
                }
                &&& !backoff_spent(old(self).backoff_of()) ==> {
                    let cur = backoff_current(final(self).backoff_of());
                    &&& backoff_attempts(final(self).backoff_of()) == backoff_attempts(
                        old(self).backoff_of(),
                    ) + 1
                    &&& cur is Some
                    &&& delay@ >= duration_nanos(cur.unwrap())
                    &&& exists|x: Delay|
                        duration_nanos(cur.unwrap()) <= x@ <= jittered_delay_ceiling(
                            duration_nanos(cur.unwrap()),
                        ) && delay@ == #[trigger] spec_retry_delay(
                            Some(x),
                            final(self).policy_of().spec_max_delay(),
                            *err,
                        )
                    &&& backoff_current(old(self).backoff_of()) is None ==> duration_nanos(
                        cur.unwrap(),
                    ) == final(self).policy_of().spec_base_delay()@
                    &&& backoff_current(old(self).backoff_of()) is Some ==> {
                        &&& duration_nanos(cur.unwrap())
                            <= final(self).policy_of().spec_max_delay()@
                        &&& duration_nanos(cur.unwrap()) >= grown_delay_floor(
                            duration_nanos(backoff_current(old(self).backoff_of()).unwrap()),
                            final(self).policy_of().spec_max_delay()@,
                        )
                    }
                }
            },
    {
        self.attempts = self.attempts + 1;
        if self.attempts >= self.policy.max_attempts() {
            return RetryDecision::GiveUp;
        }
        if !self.policy.is_retryable(err) {
            return RetryDecision::GiveUp;
        }
        let next = match next_backoff(&mut self.backoff) {
            Some(d) => Some(Delay::from_std(d)),
            None => None,
        };
        let delay = retry_delay(next, self.policy.max_delay(), err);
        proof {
            assert(delay@ == spec_retry_delay(next, self.policy.spec_max_delay(), *err));
        }
        RetryDecision::RetryAfter(delay)
    }
}

} // verus!
