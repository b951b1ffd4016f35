use rust_json_client::target::{
    fits_base_url, fits_request_url, is_forbidden_path_segment, is_supported_scheme, loggable_path,
    looks_like_absolute_url,
    plan_request_target, with_trailing_slash,
};
use rust_json_client::{build_request_url, normalize_base_url, HttpClientError};
use url::Url;

#[test]
fn build_request_url_preserves_base_prefix_without_trailing_slash() {
    let base = normalize_base_url(Url::parse("https://example.com/api").unwrap());
    let joined = build_request_url(&base, "users").unwrap();

    assert_eq!(joined.as_str(), "https://example.com/api/users");
}

#[test]
fn build_request_url_rejects_absolute_urls() {
    let base = Url::parse("https://example.com/api/").unwrap();
    let err = build_request_url(&base, "https://evil.example/steal").unwrap_err();

    assert!(matches!(err, HttpClientError::InvalidRequestPath(_)));
}

#[test]
fn build_request_url_rejects_dot_segments() {
    let base = Url::parse("https://example.com/api/").unwrap();
    let err = build_request_url(&base, "../users").unwrap_err();

    assert!(matches!(err, HttpClientError::InvalidRequestPath(_)));
}

#[test]
fn build_request_url_keeps_query_and_drops_fragment_of_base() {
    let base = normalize_base_url(Url::parse("https://example.com/v1#frag").unwrap());
    let joined = build_request_url(&base, " /jobs?page=2&limit=5 ").unwrap();
    assert_eq!(joined.as_str(), "https://example.com/v1/jobs?page=2&limit=5");
}

#[test]
fn build_request_url_with_empty_path_targets_base() {
    let base = normalize_base_url(Url::parse("https://example.com/api").unwrap());
    let joined = build_request_url(&base, "/").unwrap();
    assert_eq!(joined.as_str(), "https://example.com/api/");
}

#[test]
fn rejection_messages_name_the_reason() {
    let cases = [
        ("//evil.example/x", "path must be relative to base_url"),
        ("users#top", "path must not contain a fragment"),
        ("a/%2E%2e/b", "path must not contain '.' or '..' segments"),
        ("./x", "path must not contain '.' or '..' segments"),
    ];
    for (path, message) in cases {
        match plan_request_target("/api/", path) {
            Err(HttpClientError::InvalidRequestPath(m)) => assert_eq!(m, message),
            other => panic!("{path}: expected a rejection, got {other:?}"),
        }
    }
}

#[test]
fn plan_joins_under_base_path() {
    let t = plan_request_target("/api/", "\u{3000}/users//42?x=1?y").unwrap();
    assert_eq!(t.path, "/api/users//42");
    assert_eq!(t.query.as_deref(), Some("x=1?y"));
    let t = plan_request_target("/", "items").unwrap();
    assert_eq!(t.path, "/items");
    assert_eq!(t.query, None);
}

#[test]
fn dots_inside_segments_are_allowed() {
    let t = plan_request_target("/", "files/v1.2/...hidden/a..b").unwrap();
    assert_eq!(t.path, "/files/v1.2/...hidden/a..b");
    let t = plan_request_target("/", "search?q=../x").unwrap();
    assert_eq!(t.path, "/search");
    assert_eq!(t.query.as_deref(), Some("q=../x"));
}

#[test]
fn absolute_url_detection() {
    assert!(looks_like_absolute_url("https://evil.example"));
    assert!(looks_like_absolute_url("//evil.example"));
    assert!(looks_like_absolute_url("git+ssh://host/repo"));
    assert!(!looks_like_absolute_url("users"));
    assert!(!looks_like_absolute_url("1http://x"));
    assert!(!looks_like_absolute_url("/redirect?to=https://x"));
    assert!(!looks_like_absolute_url("a b://c"));
    assert!(!looks_like_absolute_url(""));
}

#[test]
fn forbidden_segments() {
    for seg in [".", "..", "%2e", "%2E", ".%2e", "%2E.", "%2e%2E"] {
        assert!(is_forbidden_path_segment(seg), "{seg}");
    }
    for seg in ["", "...", "a.", "%2f", "%2e%2e%2e", "e"] {
        assert!(!is_forbidden_path_segment(seg), "{seg}");
    }
}

#[test]
fn loggable_path_drops_query_and_fragment() {
    assert_eq!(loggable_path("/users?token=secret"), "/users");
    assert_eq!(loggable_path("/users#frag"), "/users");
    assert_eq!(loggable_path("/users"), "/users");
    assert_eq!(loggable_path("?q"), "");
}

#[test]
fn trailing_slash_normalization() {
    assert_eq!(with_trailing_slash("/api").as_deref(), Some("/api/"));
    assert_eq!(with_trailing_slash("/api/"), None);
    assert_eq!(with_trailing_slash("").as_deref(), Some("/"));
}

#[test]
fn supported_schemes() {
    assert!(is_supported_scheme("https"));
    assert!(is_supported_scheme("http"));
    assert!(!is_supported_scheme("ftp"));
    assert!(!is_supported_scheme("httpx"));
    assert!(!is_supported_scheme("HTTP"));
}

#[test]
fn dot_segments_formed_by_the_url_parser_are_refused() {
    let base = normalize_base_url(Url::parse("https://example.com/api/").unwrap());
    let dots = "path must not contain '.' or '..' segments";
    for path in ["..\\..\\x", "users/.\t./.\t./x", "./\\", "a\\%2e%2E\\b", "a/.\r.\n/b"] {
        let err = build_request_url(&base, path).unwrap_err();
        assert!(
            matches!(&err, HttpClientError::InvalidRequestPath(m) if m == dots),
            "{path:?} gave {err:?}"
        );
    }
    // Backslashes, tabs and line breaks that form no dot segment are joined.
    assert_eq!(build_request_url(&base, "a\\b").unwrap().as_str(), "https://example.com/api/a/b");
    assert_eq!(build_request_url(&base, "a\tb").unwrap().as_str(), "https://example.com/api/ab");
    assert_eq!(build_request_url(&base, "a\r\nb").unwrap().as_str(), "https://example.com/api/ab");
    // Only the path part is checked.
    let joined = build_request_url(&base, "search?q=..\\x").unwrap();
    assert!(joined.as_str().starts_with("https://example.com/api/search?q="));
    // A fragment is refused first.
    let err = build_request_url(&base, "..\\x#frag").unwrap_err();
    assert!(matches!(err, HttpClientError::InvalidRequestPath(m) if m == "path must not contain a fragment"));
}

#[test]
fn request_urls_keep_the_base_origin() {
    let base = normalize_base_url(Url::parse("http://example.com:8080/api?k=v#top").unwrap());
    assert_eq!(base.as_str(), "http://example.com:8080/api/?k=v#top");
    assert!(fits_base_url(&base));
    assert!(fits_request_url(&base, "items/7?x=1"));
    let u = build_request_url(&base, "items/7?x=1").unwrap();
    assert_eq!(u.scheme(), "http");
    assert_eq!(u.host_str(), Some("example.com"));
    assert_eq!(u.port(), Some(8080));
    assert_eq!(u.fragment(), None);
    assert_eq!(u.as_str(), "http://example.com:8080/api/items/7?x=1");
    let normalized_again = normalize_base_url(base.clone());
    assert_eq!(normalized_again, base);
}
