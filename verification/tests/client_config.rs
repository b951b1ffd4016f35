use rust_json_client::client::{
    DEFAULT_CONNECT_TIMEOUT_SECS, DEFAULT_MAX_RESPONSE_BYTES, DEFAULT_POOL_IDLE_TIMEOUT_SECS,
    DEFAULT_POOL_MAX_IDLE_PER_HOST, DEFAULT_REQUEST_TIMEOUT_SECS,
};
use rust_json_client::{Delay, HttpClient, HttpClientConfig, HttpClientError, RequestMethod, RetryPolicy};
use std::time::Duration;
use url::Url;

fn client_with(base: &str, config: HttpClientConfig) -> HttpClient {
    HttpClient::new(reqwest::Client::new(), Url::parse(base).unwrap(), config)
}

fn ping_payload() -> Vec<u8> {
    let mut fields = serde_json::Map::new();
    fields.insert("ping".to_string(), serde_json::Value::Bool(true));
    serde_json::to_vec(&serde_json::Value::Object(fields)).unwrap()
}

#[test]
fn builder_with_base_url_succeeds() {
    let client = client_with("https://example.com", HttpClientConfig::new());
    assert_eq!(client.base_url().as_str(), "https://example.com/");
}

#[test]
fn builder_normalizes_base_url_path_prefix() {
    let client = client_with("https://example.com/api", HttpClientConfig::new());
    assert_eq!(client.base_url().as_str(), "https://example.com/api/");
}

#[test]
fn builder_with_retry_policy() {
    let config = HttpClientConfig::new().retry_policy(RetryPolicy::builder().build());
    let client = client_with("https://example.com", config);
    assert!(client.retry_policy().is_some());
}

#[test]
fn builder_without_retry_policy() {
    let client = client_with("https://example.com", HttpClientConfig::new());
    assert!(client.retry_policy().is_none());
}

#[test]
fn builder_uses_default_max_response_bytes() {
    let client = client_with("https://example.com", HttpClientConfig::new());
    assert_eq!(client.max_response_bytes(), DEFAULT_MAX_RESPONSE_BYTES);
    assert_eq!(client.max_response_bytes(), 10 * 1024 * 1024);
}

#[test]
fn builder_can_override_max_response_bytes() {
    let client = client_with("https://example.com", HttpClientConfig::new().max_response_bytes(2048));
    assert_eq!(client.max_response_bytes(), 2048);
}

#[test]
fn builder_uses_default_connection_pool_settings() {
    let client = client_with("https://example.com", HttpClientConfig::new());

    assert_eq!(client.pool_idle_timeout().to_std(), Duration::from_secs(DEFAULT_POOL_IDLE_TIMEOUT_SECS));
    assert_eq!(client.pool_idle_timeout().to_std(), Duration::from_secs(90));
    assert_eq!(client.pool_max_idle_per_host(), DEFAULT_POOL_MAX_IDLE_PER_HOST);
    assert_eq!(client.pool_max_idle_per_host(), 64);
}

#[test]
fn builder_can_override_connection_pool_settings() {
    let config = HttpClientConfig::new()
        .pool_idle_timeout(Delay::from_std(Duration::from_secs(15)))
        .pool_max_idle_per_host(32);
    let client = client_with("https://example.com", config);

    assert_eq!(client.pool_idle_timeout().to_std(), Duration::from_secs(15));
    assert_eq!(client.pool_max_idle_per_host(), 32);
}

#[test]
fn builder_has_no_sse_idle_timeout_by_default() {
    let client = client_with("https://example.com", HttpClientConfig::new());
    assert!(client.sse_idle_timeout().is_none());
}

#[test]
fn builder_can_set_sse_idle_timeout() {
    let config = HttpClientConfig::new().sse_idle_timeout(Delay::from_secs(60));
    let client = client_with("https://example.com", config);
    assert_eq!(client.sse_idle_timeout().map(|d| d.to_std()), Some(Duration::from_secs(60)));
}

#[test]
fn config_timeouts_default_and_override() {
    let config = HttpClientConfig::new();
    assert_eq!(config.get_connect_timeout().as_secs(), DEFAULT_CONNECT_TIMEOUT_SECS);
    assert_eq!(config.get_connect_timeout().as_secs(), 5);
    assert_eq!(config.get_request_timeout().as_secs(), DEFAULT_REQUEST_TIMEOUT_SECS);
    assert_eq!(config.get_request_timeout().as_secs(), 30);

    let config = config
        .connect_timeout(Delay::from_secs(3))
        .request_timeout(Delay::from_millis(10_500));
    assert_eq!(config.get_connect_timeout().to_std(), Duration::from_secs(3));
    assert_eq!(config.get_request_timeout().to_std(), Duration::from_millis(10_500));
}

#[test]
fn get_inherits_client_retry_policy() {
    let retry_policy = RetryPolicy::builder().build();
    let client = client_with("https://example.com", HttpClientConfig::new().retry_policy(retry_policy.clone()));

    let request = client.get("/health");
    assert!(request.retry_policy().is_some());
    assert_eq!(
        request.retry_policy().as_ref().unwrap().max_attempts(),
        retry_policy.max_attempts()
    );
    assert_eq!(request.method(), RequestMethod::Get);
    assert_eq!(request.path(), "/health");
    assert!(request.json_body().is_none());
}

#[test]
fn get_without_client_policy_is_not_retried() {
    let client = client_with("https://example.com", HttpClientConfig::new());
    let request = client.get("/health");
    assert!(request.retry_policy().is_none());
}

#[test]
fn post_does_not_retry_by_default() {
    let client = client_with(
        "https://example.com",
        HttpClientConfig::new().retry_policy(RetryPolicy::builder().build()),
    );

    let request = client.post("/jobs", ping_payload());
    assert!(request.retry_policy().is_none());
    assert_eq!(request.method(), RequestMethod::Post);
    assert_eq!(request.json_body(), Some(&br#"{"ping":true}"#[..]));
}

#[test]
fn post_can_override_retry_policy() {
    let client = client_with("https://example.com", HttpClientConfig::new());
    let retry_policy = RetryPolicy::builder().max_attempts(5).build();

    let request = client.post("/jobs", ping_payload()).with_retry(retry_policy.clone());
    assert!(request.retry_policy().is_some());
    assert_eq!(
        request.retry_policy().as_ref().unwrap().max_attempts(),
        retry_policy.max_attempts()
    );
    assert_eq!(request.retry_policy().as_ref().unwrap().max_attempts(), 5);
    assert_eq!(request.path(), "/jobs");
}

#[test]
fn send_preserves_base_url_path_prefix_for_leading_slash_paths() {
    let client = client_with("https://example.com/api/", HttpClientConfig::new());

    let request = client.get("/users");
    let joined = request.request_url().unwrap();

    assert_eq!(joined.as_str(), "https://example.com/api/users");
}

#[test]
fn request_url_refuses_paths_that_leave_the_base() {
    let client = client_with("https://example.com/api", HttpClientConfig::new());

    let joined = client.get("v2/items?page=2").request_url().unwrap();
    assert_eq!(joined.as_str(), "https://example.com/api/v2/items?page=2");

    let err = client.get("//evil.example/x").request_url().unwrap_err();
    assert!(matches!(err, HttpClientError::InvalidRequestPath(m) if m == "path must be relative to base_url"));
    let err = client.get("a/%2E%2e/b").request_url().unwrap_err();
    assert!(matches!(err, HttpClientError::InvalidRequestPath(m) if m == "path must not contain '.' or '..' segments"));
}

#[test]
fn try_new_refuses_non_http_schemes() {
    let ftp = HttpClient::try_new(
        reqwest::Client::new(),
        Url::parse("ftp://example.com").unwrap(),
        HttpClientConfig::new(),
    );
    assert!(ftp.is_none());
    let http = HttpClient::try_new(
        reqwest::Client::new(),
        Url::parse("http://example.com/v1").unwrap(),
        HttpClientConfig::new(),
    )
    .unwrap();
    assert_eq!(http.base_url().as_str(), "http://example.com/v1/");
}
