use rust_json_client::body::{
    api_error, check_content_length, is_blank_body, parse_retry_after_secs, status_is_success,
    success_body_input, success_body_outcome, text_body, truncate_incomplete_utf8_suffix, BodyLimit, ErrorPreview,
};
use rust_json_client::{Delay, HttpClientError};

#[test]
fn truncating_error_preview_keeps_utf8_boundary() {
    let mut bytes = "zaż".as_bytes()[..3].to_vec();

    truncate_incomplete_utf8_suffix(&mut bytes);

    assert_eq!(bytes, b"za");
}

#[test]
fn truncation_leaves_valid_and_invalid_bodies_alone() {
    let mut valid = "zaż".as_bytes().to_vec();
    truncate_incomplete_utf8_suffix(&mut valid);
    assert_eq!(valid, "zaż".as_bytes());

    let mut invalid = vec![b'a', 0xFF, b'b'];
    truncate_incomplete_utf8_suffix(&mut invalid);
    assert_eq!(invalid, vec![b'a', 0xFF, b'b']);
}

#[test]
fn blank_bodies() {
    assert!(is_blank_body(b""));
    assert!(is_blank_body(b" \n\t\r\x0c"));
    assert!(!is_blank_body(b" null "));
    assert!(!is_blank_body(b"\x0b"));
}

#[test]
fn success_statuses() {
    assert!(status_is_success(200));
    assert!(status_is_success(204));
    assert!(status_is_success(299));
    assert!(!status_is_success(302));
    assert!(!status_is_success(199));
}

#[test]
fn declared_length_precheck() {
    assert!(check_content_length(None, 10).is_ok());
    assert!(check_content_length(Some(10), 10).is_ok());
    match check_content_length(Some(16 * 1024), 1024) {
        Err(HttpClientError::ResponseTooLarge { limit, received }) => {
            assert_eq!(limit, 1024);
            assert_eq!(received, 16 * 1024);
        }
        other => panic!("expected ResponseTooLarge, got {other:?}"),
    }
}

#[test]
fn streamed_cap_reports_the_total_received() {
    let mut body = BodyLimit::new(1024);
    assert!(body.on_chunk(&[b'x'; 512]).is_ok());
    assert!(body.on_chunk(&[b'x'; 512]).is_ok());
    match body.on_chunk(&[b'x'; 512]) {
        Err(HttpClientError::ResponseTooLarge { limit, received }) => {
            assert_eq!(limit, 1024);
            assert_eq!(received, 1536);
        }
        other => panic!("expected ResponseTooLarge, got {other:?}"),
    }
    assert_eq!(body.into_body().len(), 1024);
}

#[test]
fn error_preview_is_truncated_with_suffix() {
    let mut preview = ErrorPreview::new(10 * 1024 * 1024);
    let chunk = vec![b'e'; 4096];
    let mut stops = 0;
    for _ in 0..4 {
        if preview.on_chunk(&chunk) {
            stops += 1;
            break;
        }
    }
    assert_eq!(stops, 1);
    let text = preview.finish();
    assert!(text.ends_with("... [truncated]"));
    assert_eq!(text.len(), 8192 + "... [truncated]".len());
}

#[test]
fn error_preview_respects_smaller_response_limit() {
    let mut preview = ErrorPreview::new(3);
    assert!(preview.on_chunk("zażółć".as_bytes()));
    assert_eq!(preview.finish(), "za... [truncated]");
    let mut preview = ErrorPreview::new(4);
    assert!(preview.on_chunk("zażółć".as_bytes()));
    assert_eq!(preview.finish(), "zaż... [truncated]");
}

#[test]
fn short_error_body_is_kept_whole() {
    let mut preview = ErrorPreview::new(1024);
    assert!(!preview.on_chunk(b"missing "));
    assert!(!preview.on_chunk(b"endpoint"));
    assert_eq!(preview.finish(), "missing endpoint");
}

#[test]
fn text_body_is_lossy() {
    assert_eq!(text_body(&[b'h', b'i', 0xFF]), "hi\u{FFFD}");
    assert_eq!(text_body(b""), "");
    assert_eq!(text_body("<feed/>".as_bytes()), "<feed/>");
}

#[test]
fn retry_after_seconds() {
    assert_eq!(parse_retry_after_secs(b"30"), Some(30));
    assert_eq!(parse_retry_after_secs(b" \t30 "), Some(30));
    assert_eq!(parse_retry_after_secs(b"+5"), Some(5));
    assert_eq!(parse_retry_after_secs(b"18446744073709551615"), Some(u64::MAX));
    assert_eq!(parse_retry_after_secs(b"18446744073709551616"), None);
    assert_eq!(parse_retry_after_secs(b""), None);
    assert_eq!(parse_retry_after_secs(b"+"), None);
    assert_eq!(parse_retry_after_secs(b"-1"), None);
    assert_eq!(parse_retry_after_secs(b"1.5"), None);
    assert_eq!(parse_retry_after_secs(b"Wed, 21 Oct 2015 07:28:00 GMT"), None);
    assert_eq!(parse_retry_after_secs(b"3\n"), None);
}

#[test]
fn api_error_carries_retry_after_only_for_429() {
    match api_error(429, "rate limited".to_string(), Some(b"30")) {
        HttpClientError::ApiError { status, body, retry_after } => {
            assert_eq!(status, 429);
            assert_eq!(body, "rate limited");
            assert_eq!(retry_after, Some(Delay::from_secs(30)));
        }
        other => panic!("expected ApiError, got {other:?}"),
    }
    match api_error(503, String::new(), Some(b"30")) {
        HttpClientError::ApiError { retry_after, .. } => assert_eq!(retry_after, None),
        other => panic!("expected ApiError, got {other:?}"),
    }
    match api_error(429, String::new(), None) {
        HttpClientError::ApiError { retry_after, .. } => assert_eq!(retry_after, None),
        other => panic!("expected ApiError, got {other:?}"),
    }
}

fn decode_success_body<R: serde::de::DeserializeOwned>(bytes: &[u8]) -> Result<R, HttpClientError> {
    let parsed = serde_json::from_slice(success_body_input(bytes));
    success_body_outcome(bytes, parsed)
}

#[test]
fn empty_success_body_can_deserialize_to_unit() {
    let response: () = decode_success_body(b"").unwrap();
    assert_eq!(response, ());
}

#[test]
fn whitespace_only_success_body_can_deserialize_to_none() {
    let response: Option<serde_json::Value> = decode_success_body(b" \n\t").unwrap();
    assert_eq!(response, None);
}

#[test]
fn client_empty_success_body_returns_clear_error_for_required_json() {
    let result: Result<Vec<String>, HttpClientError> = decode_success_body(b"");
    assert!(matches!(result, Err(HttpClientError::EmptyResponseBody)));
}

#[test]
fn malformed_success_body_is_a_deserialization_error() {
    let result: Result<Vec<String>, HttpClientError> = decode_success_body(b"[1,");
    assert!(matches!(result, Err(HttpClientError::DeserializationError(_))));
    let ok: Vec<String> = decode_success_body(b" [\"a\"] ").unwrap();
    assert_eq!(ok, vec!["a".to_string()]);
}

#[test]
fn valid_utf8_is_never_truncated() {
    let mut bytes = "zażółć".as_bytes().to_vec();
    truncate_incomplete_utf8_suffix(&mut bytes);
    assert_eq!(bytes, "zażółć".as_bytes());
}

#[test]
fn blank_success_bodies_are_read_as_null() {
    assert_eq!(success_body_input(b""), b"null");
    assert_eq!(success_body_input(b" \r\n\t"), b"null");
    assert_eq!(success_body_input(b" {} "), b" {} ");
}
