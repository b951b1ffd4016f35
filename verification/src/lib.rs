//! A JSON-over-HTTP client's decision logic: request-path validation,
//! retry policy and scheduling, bounded body reading, error previews and
//! Server-Sent-Events decoding.

pub mod ascii;
pub mod body;
pub mod client;
pub mod delay;
pub mod error;
pub mod retry;
pub mod sse;
pub mod target;
pub mod text;

pub use client::{HttpClient, HttpClientConfig, RequestBuilder, RequestMethod};
pub use delay::Delay;
pub use error::HttpClientError;
pub use retry::{RetryDecision, RetryPolicy, RetryPolicyBuilder, RetrySchedule};
pub use sse::{process_sse_byte_lines, SseDecoder};
pub use target::{build_request_url, normalize_base_url, RequestTarget};
