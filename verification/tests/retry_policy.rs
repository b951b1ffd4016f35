use rust_json_client::retry::{default_retryable_status_codes, retry_delay};
use rust_json_client::{Delay, HttpClientError, RetryDecision, RetryPolicy, RetrySchedule};
use std::num::NonZeroU32;

#[test]
fn default_policy_values() {
    let policy = RetryPolicy::builder().build();
    assert_eq!(policy.max_attempts(), 3);
    assert_eq!(policy.base_delay(), Delay::from_secs(1));
    assert_eq!(policy.max_delay(), Delay::from_secs(30));
    assert_eq!(policy.retryable_status_codes(), &vec![429u16, 500, 502, 503, 504]);
    assert_eq!(policy.retryable_status_codes(), &default_retryable_status_codes());
}

#[test]
fn builder_rejects_zero_attempts() {
    assert!(NonZeroU32::new(0).is_none());
}

#[test]
fn retryable_api_errors() {
    let policy = RetryPolicy::builder().build();

    let retryable = HttpClientError::ApiError {
        status: 503,
        body: String::new(),
        retry_after: None,
    };
    let not_retryable = HttpClientError::ApiError {
        status: 400,
        body: String::new(),
        retry_after: None,
    };

    assert!(policy.is_retryable(&retryable));
    assert!(!policy.is_retryable(&not_retryable));
}

#[test]
fn deserialization_error_not_retryable() {
    let policy = RetryPolicy::builder().build();
    let err = HttpClientError::DeserializationError(
        serde_json::from_str::<String>("not json").unwrap_err(),
    );
    assert!(!policy.is_retryable(&err));
}

#[test]
fn retry_policy_can_be_configured_for_single_attempt() {
    let policy = RetryPolicy::builder().max_attempts(1).build();

    assert_eq!(policy.max_attempts(), 1);
}

#[test]
fn truncated_and_stalled_sse_streams_are_retryable() {
    let policy = RetryPolicy::builder().build();
    assert!(policy.is_retryable(&HttpClientError::IncompleteSseStream));
    assert!(policy.is_retryable(&HttpClientError::SseIdleTimeout));
}

#[test]
fn permanent_failures_are_not_retryable() {
    let policy = RetryPolicy::builder().build();
    assert!(!policy.is_retryable(&HttpClientError::EmptyResponseBody));
    assert!(!policy.is_retryable(&HttpClientError::InvalidRequestPath("x".to_string())));
    assert!(!policy.is_retryable(&HttpClientError::ResponseTooLarge { limit: 1, received: 2 }));
    assert!(!policy.is_retryable(&HttpClientError::UrlError(url::ParseError::EmptyHost)));
}

#[test]
fn custom_status_codes_replace_the_defaults() {
    let policy = RetryPolicy::builder()
        .retryable_status_codes(vec![409])
        .build();
    let conflict = HttpClientError::ApiError { status: 409, body: String::new(), retry_after: None };
    let unavailable = HttpClientError::ApiError { status: 503, body: String::new(), retry_after: None };
    assert!(policy.is_retryable(&conflict));
    assert!(!policy.is_retryable(&unavailable));
}

#[test]
fn builder_sets_every_value() {
    let policy = RetryPolicy::builder()
        .max_attempts(5)
        .base_delay(Delay::from_millis(10))
        .max_delay(Delay::from_millis(50))
        .build();
    assert_eq!(policy.max_attempts(), 5);
    assert_eq!(policy.base_delay(), Delay::from_millis(10));
    assert_eq!(policy.max_delay(), Delay::from_millis(50));
    let copy = policy.clone();
    assert_eq!(copy.max_attempts(), 5);
    assert_eq!(copy.retryable_status_codes(), policy.retryable_status_codes());
}

#[test]
fn schedule_gives_up_after_max_attempts() {
    let policy = RetryPolicy::builder()
        .max_attempts(2)
        .base_delay(Delay::from_millis(1))
        .max_delay(Delay::from_millis(5))
        .build();
    let mut schedule = RetrySchedule::new(&policy);
    let err = HttpClientError::ApiError { status: 503, body: String::new(), retry_after: None };
    assert!(matches!(schedule.on_failure(&err), RetryDecision::RetryAfter(_)));
    assert!(matches!(schedule.on_failure(&err), RetryDecision::GiveUp));
}

#[test]
fn schedule_never_retries_a_single_attempt_policy() {
    let policy = RetryPolicy::builder().max_attempts(1).build();
    let mut schedule = RetrySchedule::new(&policy);
    let err = HttpClientError::ApiError { status: 503, body: String::new(), retry_after: None };
    assert!(matches!(schedule.on_failure(&err), RetryDecision::GiveUp));
}

#[test]
fn schedule_gives_up_on_permanent_failure() {
    let policy = RetryPolicy::builder().max_attempts(3).build();
    let mut schedule = RetrySchedule::new(&policy);
    let err = HttpClientError::ApiError { status: 404, body: String::new(), retry_after: None };
    assert!(matches!(schedule.on_failure(&err), RetryDecision::GiveUp));
}

#[test]
fn schedule_waits_at_least_retry_after() {
    let policy = RetryPolicy::builder()
        .max_attempts(2)
        .base_delay(Delay::from_millis(10))
        .build();
    let mut schedule = RetrySchedule::new(&policy);
    let err = HttpClientError::ApiError {
        status: 429,
        body: String::new(),
        retry_after: Some(Delay::from_secs(1)),
    };
    match schedule.on_failure(&err) {
        RetryDecision::RetryAfter(delay) => assert!(delay.as_nanos() >= 1_000_000_000),
        other => panic!("expected a retry, got {other:?}"),
    }
}

#[test]
fn schedule_backoff_starts_near_base_delay() {
    let policy = RetryPolicy::builder()
        .max_attempts(2)
        .base_delay(Delay::from_millis(10))
        .max_delay(Delay::from_secs(1))
        .build();
    let mut schedule = RetrySchedule::new(&policy);
    let err = HttpClientError::IncompleteSseStream;
    match schedule.on_failure(&err) {
        RetryDecision::RetryAfter(delay) => {
            assert!(delay.as_nanos() >= 10_000_000);
            assert!(delay.as_nanos() <= 20_000_000);
        }
        other => panic!("expected a retry, got {other:?}"),
    }
}

#[test]
fn retry_delay_uses_max_delay_when_backoff_is_spent() {
    let err = HttpClientError::IncompleteSseStream;
    assert_eq!(retry_delay(None, Delay::from_secs(30), &err), Delay::from_secs(30));
    assert_eq!(
        retry_delay(Some(Delay::from_millis(1500)), Delay::from_secs(30), &err),
        Delay::from_millis(1500)
    );
}

#[test]
fn retry_delay_prefers_the_longer_retry_after() {
    let err = HttpClientError::ApiError {
        status: 429,
        body: String::new(),
        retry_after: Some(Delay::from_secs(2)),
    };
    assert_eq!(
        retry_delay(Some(Delay::from_millis(100)), Delay::from_secs(30), &err),
        Delay::from_secs(2)
    );
    assert_eq!(
        retry_delay(Some(Delay::from_secs(5)), Delay::from_secs(30), &err),
        Delay::from_secs(5)
    );
}

#[test]
fn delay_arithmetic() {
    let d = Delay::from_millis(1500);
    assert_eq!(d.as_secs(), 1);
    assert_eq!(d.subsec_nanos(), 500_000_000);
    assert_eq!(d.as_nanos(), 1_500_000_000);
    assert_eq!(Delay::new(1, 1_500_000_000), Delay::new(2, 500_000_000));
    assert_eq!(Delay::from_nanos(2_000_000_001).as_secs(), 2);
    assert!(Delay::from_secs(1).le(&Delay::from_millis(1000)));
    assert_eq!(Delay::from_secs(1).max(Delay::from_millis(900)), Delay::from_secs(1));
    let std = Delay::from_millis(1500).to_std();
    assert_eq!(std, std::time::Duration::from_millis(1500));
    assert_eq!(Delay::from_std(std::time::Duration::from_micros(7)).as_nanos(), 7_000);
}

#[test]
fn delay_converts_to_and_from_std_duration() {
    assert_eq!(Delay::new(2, 500_000_000).to_std(), std::time::Duration::from_millis(2500));
    assert_eq!(Delay::from_std(std::time::Duration::new(7, 3)).as_nanos(), 7_000_000_003);
    let d = Delay::from_millis(1_234);
    assert_eq!(Delay::from_std(d.to_std()), d);
}

#[test]
fn transport_errors_retry_only_timeouts_and_connection_failures() {
    let policy = RetryPolicy::builder().build();

    // A request that cannot even be built is neither a timeout nor a
    // connection failure.
    let built = reqwest::Client::new().get("not a url").build().unwrap_err();
    assert!(!built.is_timeout() && !built.is_connect());
    assert!(!policy.is_retryable(&HttpClientError::RequestError(built)));

    // A refused connection is a connection failure.
    let runtime = tokio::runtime::Builder::new_current_thread().enable_all().build().unwrap();
    let refused = runtime
        .block_on(reqwest::Client::new().get("http://127.0.0.1:1/").send())
        .unwrap_err();
    assert!(refused.is_connect());
    assert!(policy.is_retryable(&HttpClientError::RequestError(refused)));
}

#[test]
fn schedule_delays_never_fall_below_the_smaller_delay() {
    let policy = RetryPolicy::builder()
        .max_attempts(6)
        .base_delay(Delay::from_millis(5))
        .max_delay(Delay::from_millis(2))
        .build();
    let mut schedule = RetrySchedule::new(&policy);
    let err = HttpClientError::SseIdleTimeout;
    for _ in 0..5 {
        match schedule.on_failure(&err) {
            RetryDecision::RetryAfter(delay) => assert!(delay.as_nanos() >= 2_000_000),
            other => panic!("expected a retry, got {other:?}"),
        }
    }
    assert!(matches!(schedule.on_failure(&err), RetryDecision::GiveUp));
}

#[test]
fn schedule_delays_grow_then_fall_back_to_the_maximum() {
    let policy = RetryPolicy::builder()
        .max_attempts(5)
        .base_delay(Delay::from_millis(10))
        .max_delay(Delay::from_millis(1000))
        .build();
    let mut schedule = RetrySchedule::new(&policy);
    let err = HttpClientError::IncompleteSseStream;
    let mut delays = Vec::new();
    for _ in 0..4 {
        match schedule.on_failure(&err) {
            RetryDecision::RetryAfter(delay) => delays.push(delay.as_nanos()),
            other => panic!("expected a retry, got {other:?}"),
        }
    }
    // The backoff's three delays start at the base and at least double
    // (jitter adds below one more delay); then the maximum delay is used.
    assert!(delays[0] >= 10_000_000 && delays[0] < 20_000_001);
    assert!(delays[1] >= 19_999_000 && delays[1] < 40_000_001);
    assert!(delays[2] >= 39_998_000 && delays[2] < 80_000_001);
    assert_eq!(delays[3], 1_000_000_000);
    assert!(matches!(schedule.on_failure(&err), RetryDecision::GiveUp));
}
