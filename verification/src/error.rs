//! The error type of every fallible operation of the client.

use crate::delay::Delay;
use vstd::prelude::*;

verus! {

/// The transport error of `reqwest` (connection, timeout, TLS, ...), carried
/// through unchanged.
#[verifier::external_type_specification]
#[verifier::external_body]
pub struct ExReqwestError(reqwest::Error);

/// The error of `serde_json` when a request body cannot be encoded or a
/// response body cannot be decoded, carried through unchanged.
#[verifier::external_type_specification]
#[verifier::external_body]
pub struct ExSerdeJsonError(serde_json::Error);

/// The error of `url` when a URL cannot be parsed, carried through unchanged.
#[verifier::external_type_specification]
#[verifier::external_body]
pub struct ExUrlParseError(url::ParseError);

/// Why a request failed.
#[derive(Debug)]
pub enum HttpClientError {
    /// The transport failed (connect, timeout, TLS, protocol, ...).
    RequestError(reqwest::Error),
    /// The request body could not be encoded as JSON.
    SerializationError(serde_json::Error),
    /// A response body (or an SSE `data:` payload) was not the expected JSON.
    DeserializationError(serde_json::Error),
    /// A URL could not be parsed.
    UrlError(url::ParseError),
    /// The request path was refused before anything was sent.
    InvalidRequestPath(String),
    /// A successful response had an empty body where JSON was required.
    EmptyResponseBody,
    /// The server answered with a non-success status. `body` holds a bounded
    /// preview of the error payload; `retry_after` the server's `Retry-After`
    /// hint (seconds form) on `429 Too Many Requests`.
    ApiError { status: u16, body: String, retry_after: Option<Delay> },
    /// The response body exceeded the configured limit.
    ResponseTooLarge { limit: usize, received: usize },
    /// An SSE stream ended without its `[DONE]` terminator.
    IncompleteSseStream,
    /// An SSE stream stayed open but no chunk arrived within the configured
    /// idle window.
    SseIdleTimeout,
}

} // verus!
