//! The client and its requests: the settings a client is made from, the
//! retry policy each request starts with, and the URL a request goes to.

use crate::delay::Delay;
use crate::error::HttpClientError;
use crate::retry::{clone_optional_policy, same_optional_policy, RetryPolicy};
use crate::target::{
    base_url_fits, build_request_url, fits_base_url, fits_request_url, has_supported_scheme,
    normalize_base_url, normalized_base_url, path_rejection, rejection_message, request_url_fits,
    request_url_of, url_fragment_of, url_has_supported_scheme, url_host_of, url_port_of,
    url_scheme_of,
};
use url::Url;
use vstd::prelude::*;

verus! {

/// The default response size limit: 10 MiB.
pub const DEFAULT_MAX_RESPONSE_BYTES: usize = 10485760;

/// The default number of idle connections kept per host.
pub const DEFAULT_POOL_MAX_IDLE_PER_HOST: usize = 64;

/// The default idle time, in seconds, after which a pooled connection closes.
pub const DEFAULT_POOL_IDLE_TIMEOUT_SECS: u64 = 90;

/// The default time, in seconds, allowed for establishing a connection.
pub const DEFAULT_CONNECT_TIMEOUT_SECS: u64 = 5;

/// The default time, in seconds, allowed for a whole request.
pub const DEFAULT_REQUEST_TIMEOUT_SECS: u64 = 30;

/// The TCP keep-alive interval, in seconds, of the client's connections.
pub const TCP_KEEPALIVE_SECS: u64 = 30;

/// The HTTP client of `reqwest` that carries the requests.
#[verifier::external_type_specification]
#[verifier::external_body]
pub struct ExReqwestClient(reqwest::Client);

/// The settings a client is made from. Each starts at its default: no retry
/// policy, a 10 MiB response limit, pooled connections idle for at most 90 s
/// and at most 64 of them per host, 5 s to connect, 30 s per request, and no
/// idle limit between the chunks of an SSE stream.
pub struct HttpClientConfig {
    retry_policy: Option<RetryPolicy>,
    max_response_bytes: usize,
    pool_idle_timeout: Delay,
    pool_max_idle_per_host: usize,
    connect_timeout: Delay,
    request_timeout: Delay,
    sse_idle_timeout: Option<Delay>,
}

impl HttpClientConfig {
    /// The retry policy of GET requests.
    pub closed spec fn spec_retry_policy(&self) -> Option<RetryPolicy> {
        self.retry_policy
    }

    /// The response size limit in bytes.
    pub closed spec fn spec_max_response_bytes(&self) -> usize {
        self.max_response_bytes
    }

    /// How long a pooled connection may stay idle.
    pub closed spec fn spec_pool_idle_timeout(&self) -> Delay {
        self.pool_idle_timeout
    }

    /// How many idle connections are kept per host.
    pub closed spec fn spec_pool_max_idle_per_host(&self) -> usize {
        self.pool_max_idle_per_host
    }

    /// How long establishing a connection may take.
    pub closed spec fn spec_connect_timeout(&self) -> Delay {
        self.connect_timeout
    }

    /// How long a whole request may take.
    pub closed spec fn spec_request_timeout(&self) -> Delay {
        self.request_timeout
    }

    /// The longest gap allowed between two chunks of an SSE stream.
    pub closed spec fn spec_sse_idle_timeout(&self) -> Option<Delay> {
        self.sse_idle_timeout
    }

    /// The default settings.
    pub fn new() -> (c: HttpClientConfig)
        ensures
            c.spec_retry_policy() is None,
            c.spec_max_response_bytes() == DEFAULT_MAX_RESPONSE_BYTES,
            c.spec_pool_idle_timeout() == Delay::spec_from_secs(DEFAULT_POOL_IDLE_TIMEOUT_SECS),
            c.spec_pool_max_idle_per_host() == DEFAULT_POOL_MAX_IDLE_PER_HOST,
            c.spec_connect_timeout() == Delay::spec_from_secs(DEFAULT_CONNECT_TIMEOUT_SECS),
            c.spec_request_timeout() == Delay::spec_from_secs(DEFAULT_REQUEST_TIMEOUT_SECS),
            c.spec_sse_idle_timeout() is None,
    {
        HttpClientConfig {
            retry_policy: None,
            max_response_bytes: DEFAULT_MAX_RESPONSE_BYTES,
            pool_idle_timeout: Delay::from_secs(DEFAULT_POOL_IDLE_TIMEOUT_SECS),
            pool_max_idle_per_host: DEFAULT_POOL_MAX_IDLE_PER_HOST,
            connect_timeout: Delay::from_secs(DEFAULT_CONNECT_TIMEOUT_SECS),
            request_timeout: Delay::from_secs(DEFAULT_REQUEST_TIMEOUT_SECS),
            sse_idle_timeout: None,
        }
    }

    /// Sets the retry policy that GET requests start with.
    pub fn retry_policy(self, retry_policy: RetryPolicy) -> (c: HttpClientConfig)
        ensures
            c.spec_retry_policy() == Some(retry_policy),
            c.spec_max_response_bytes() == self.spec_max_response_bytes(),
            c.spec_pool_idle_timeout() == self.spec_pool_idle_timeout(),
            c.spec_pool_max_idle_per_host() == self.spec_pool_max_idle_per_host(),
            c.spec_connect_timeout() == self.spec_connect_timeout(),
            c.spec_request_timeout() == self.spec_request_timeout(),
            c.spec_sse_idle_timeout() == self.spec_sse_idle_timeout(),
    {
        HttpClientConfig { retry_policy: Some(retry_policy), ..self }
    }

    /// Sets the response size limit in bytes.
    pub fn max_response_bytes(self, max_response_bytes: usize) -> (c: HttpClientConfig)
        ensures
            c.spec_retry_policy() == self.spec_retry_policy(),
            c.spec_max_response_bytes() == max_response_bytes,
            c.spec_pool_idle_timeout() == self.spec_pool_idle_timeout(),
            c.spec_pool_max_idle_per_host() == self.spec_pool_max_idle_per_host(),
            c.spec_connect_timeout() == self.spec_connect_timeout(),
            c.spec_request_timeout() == self.spec_request_timeout(),
            c.spec_sse_idle_timeout() == self.spec_sse_idle_timeout(),
    {
        HttpClientConfig { max_response_bytes, ..self }
    }

    /// Sets how long a pooled connection may stay idle.
    pub fn pool_idle_timeout(self, pool_idle_timeout: Delay) -> (c: HttpClientConfig)
        ensures
            c.spec_retry_policy() == self.spec_retry_policy(),
            c.spec_max_response_bytes() == self.spec_max_response_bytes(),
            c.spec_pool_idle_timeout() == pool_idle_timeout,
            c.spec_pool_max_idle_per_host() == self.spec_pool_max_idle_per_host(),
            c.spec_connect_timeout() == self.spec_connect_timeout(),
            c.spec_request_timeout() == self.spec_request_timeout(),
            c.spec_sse_idle_timeout() == self.spec_sse_idle_timeout(),
    {
        HttpClientConfig { pool_idle_timeout, ..self }
    }

    /// Sets how many idle connections are kept per host.
    pub fn pool_max_idle_per_host(self, pool_max_idle_per_host: usize) -> (c: HttpClientConfig)
        ensures
            c.spec_retry_policy() == self.spec_retry_policy(),
            c.spec_max_response_bytes() == self.spec_max_response_bytes(),
            c.spec_pool_idle_timeout() == self.spec_pool_idle_timeout(),
            c.spec_pool_max_idle_per_host() == pool_max_idle_per_host,
            c.spec_connect_timeout() == self.spec_connect_timeout(),
            c.spec_request_timeout() == self.spec_request_timeout(),
            c.spec_sse_idle_timeout() == self.spec_sse_idle_timeout(),
    {
        HttpClientConfig { pool_max_idle_per_host, ..self }
    }

    /// Sets how long establishing a connection may take.
    pub fn connect_timeout(self, connect_timeout: Delay) -> (c: HttpClientConfig)
        ensures
            c.spec_retry_policy() == self.spec_retry_policy(),
            c.spec_max_response_bytes() == self.spec_max_response_bytes(),
            c.spec_pool_idle_timeout() == self.spec_pool_idle_timeout(),
            c.spec_pool_max_idle_per_host() == self.spec_pool_max_idle_per_host(),
            c.spec_connect_timeout() == connect_timeout,
            c.spec_request_timeout() == self.spec_request_timeout(),
            c.spec_sse_idle_timeout() == self.spec_sse_idle_timeout(),
    {
        HttpClientConfig { connect_timeout, ..self }
    }

    /// Sets how long a whole request may take.
    pub fn request_timeout(self, request_timeout: Delay) -> (c: HttpClientConfig)
        ensures
            c.spec_retry_policy() == self.spec_retry_policy(),
            c.spec_max_response_bytes() == self.spec_max_response_bytes(),
            c.spec_pool_idle_timeout() == self.spec_pool_idle_timeout(),
            c.spec_pool_max_idle_per_host() == self.spec_pool_max_idle_per_host(),
            c.spec_connect_timeout() == self.spec_connect_timeout(),
            c.spec_request_timeout() == request_timeout,
            c.spec_sse_idle_timeout() == self.spec_sse_idle_timeout(),
    {
        HttpClientConfig { request_timeout, ..self }
    }

    /// Sets the longest gap allowed between two chunks of an SSE stream.
    pub fn sse_idle_timeout(self, sse_idle_timeout: Delay) -> (c: HttpClientConfig)
        ensures
            c.spec_retry_policy() == self.spec_retry_policy(),
            c.spec_max_response_bytes() == self.spec_max_response_bytes(),
            c.spec_pool_idle_timeout() == self.spec_pool_idle_timeout(),
            c.spec_pool_max_idle_per_host() == self.spec_pool_max_idle_per_host(),
            c.spec_connect_timeout() == self.spec_connect_timeout(),
            c.spec_request_timeout() == self.spec_request_timeout(),
            c.spec_sse_idle_timeout() == Some(sse_idle_timeout),
    {
        HttpClientConfig { sse_idle_timeout: Some(sse_idle_timeout), ..self }
    }

    /// How long establishing a connection may take.
    pub fn get_connect_timeout(&self) -> (d: Delay)
        ensures
            d == self.spec_connect_timeout(),
    {
        self.connect_timeout
    }

    /// How long a whole request may take.
    pub fn get_request_timeout(&self) -> (d: Delay)
        ensures
            d == self.spec_request_timeout(),
    {
        self.request_timeout
    }

    /// How long a pooled connection may stay idle.
    pub fn get_pool_idle_timeout(&self) -> (d: Delay)
        ensures
            d == self.spec_pool_idle_timeout(),
    {
        self.pool_idle_timeout
    }

    /// How many idle connections are kept per host.
    pub fn get_pool_max_idle_per_host(&self) -> (n: usize)
        ensures
            n == self.spec_pool_max_idle_per_host(),
    {
        self.pool_max_idle_per_host
    }
}

/// A client for one JSON API: the transport, the base URL that every request
/// stays under, the retry policy of GET requests, the response size limit,
/// and the connection-pool and SSE settings it was made with.
pub struct HttpClient {
    transport: reqwest::Client,
    base_url: Url,
    retry_policy: Option<RetryPolicy>,
    max_response_bytes: usize,
    pool_idle_timeout: Delay,
    pool_max_idle_per_host: usize,
    sse_idle_timeout: Option<Delay>,
}

impl HttpClient {
    /// The transport that carries the requests.
    pub closed spec fn spec_transport(&self) -> reqwest::Client {
        self.transport
    }

    /// The base URL that every request stays under.
    pub closed spec fn spec_base_url(&self) -> Url {
        self.base_url
    }

    /// The retry policy of GET requests.
    pub closed spec fn spec_retry_policy(&self) -> Option<RetryPolicy> {
        self.retry_policy
    }

    /// The response size limit in bytes.
    pub closed spec fn spec_max_response_bytes(&self) -> usize {
        self.max_response_bytes
    }

    /// How long a pooled connection may stay idle.
    pub closed spec fn spec_pool_idle_timeout(&self) -> Delay {
        self.pool_idle_timeout
    }

    /// How many idle connections are kept per host.
    pub closed spec fn spec_pool_max_idle_per_host(&self) -> usize {
        self.pool_max_idle_per_host
    }

    /// The longest gap allowed between two chunks of an SSE stream.
    pub closed spec fn spec_sse_idle_timeout(&self) -> Option<Delay> {
        self.sse_idle_timeout
    }

    /// A client over `transport` (a `reqwest` client built from `config`'s
    /// pool and timeout settings) for the `http` or `https` API at
    /// `base_url`, whose path is given a trailing `/` so that request paths
    /// are joined under it.
    pub fn new(transport: reqwest::Client, base_url: Url, config: HttpClientConfig) -> (c: HttpClient)
        requires
            has_supported_scheme(base_url),
            base_url_fits(base_url),
        ensures
            c.spec_transport() == transport,
            c.spec_base_url() == normalized_base_url(base_url),
            has_supported_scheme(c.spec_base_url()),
            c.spec_retry_policy() == config.spec_retry_policy(),
            c.spec_max_response_bytes() == config.spec_max_response_bytes(),
            c.spec_pool_idle_timeout() == config.spec_pool_idle_timeout(),
            c.spec_pool_max_idle_per_host() == config.spec_pool_max_idle_per_host(),
            c.spec_sse_idle_timeout() == config.spec_sse_idle_timeout(),
    {
        HttpClient {
            transport,
            base_url: normalize_base_url(base_url),
            retry_policy: config.retry_policy,
            max_response_bytes: config.max_response_bytes,
            pool_idle_timeout: config.pool_idle_timeout,
            pool_max_idle_per_host: config.pool_max_idle_per_host,
            sse_idle_timeout: config.sse_idle_timeout,
        }
    }

    /// `new`, when `base_url`'s scheme is `http` or `https` and it is short
    /// enough for its path to be given a trailing `/`; `None` otherwise.
    pub fn try_new(transport: reqwest::Client, base_url: Url, config: HttpClientConfig) -> (r: Option<
        HttpClient,
    >)
        ensures
            r is Some <==> has_supported_scheme(base_url) && base_url_fits(base_url),
            r matches Some(c) ==> {
                &&& c.spec_transport() == transport
                &&& c.spec_base_url() == normalized_base_url(base_url)
                &&& c.spec_retry_policy() == config.spec_retry_policy()
                &&& c.spec_max_response_bytes() == config.spec_max_response_bytes()
                &&& c.spec_pool_idle_timeout() == config.spec_pool_idle_timeout()
                &&& c.spec_pool_max_idle_per_host() == config.spec_pool_max_idle_per_host()
                &&& c.spec_sse_idle_timeout() == config.spec_sse_idle_timeout()
            },
    {
        if url_has_supported_scheme(&base_url) && fits_base_url(&base_url) {
            Some(HttpClient::new(transport, base_url, config))
        } else {
            None
        }
    }

    /// The transport that carries the requests.
    pub fn transport(&self) -> (t: &reqwest::Client)
        ensures
            *t == self.spec_transport(),
    {
        &self.transport
    }

    /// The base URL, its path ending with `/`.
    pub fn base_url(&self) -> (u: &Url)
        ensures
            *u == self.spec_base_url(),
    {
        &self.base_url
    }

    /// The retry policy of GET requests.
    pub fn retry_policy(&self) -> (p: &Option<RetryPolicy>)
        ensures
            *p == self.spec_retry_policy(),
    {
        &self.retry_policy
    }

    /// The response size limit in bytes.
    pub fn max_response_bytes(&self) -> (n: usize)
        ensures
            n == self.spec_max_response_bytes(),
    {
        self.max_response_bytes
    }

    /// How long a pooled connection may stay idle.
    pub fn pool_idle_timeout(&self) -> (d: Delay)
        ensures
            d == self.spec_pool_idle_timeout(),
    {
        self.pool_idle_timeout
    }

    /// How many idle connections are kept per host.
    pub fn pool_max_idle_per_host(&self) -> (n: usize)
        ensures
            n == self.spec_pool_max_idle_per_host(),
    {
        self.pool_max_idle_per_host
    }

    /// The longest gap allowed between two chunks of an SSE stream.
    pub fn sse_idle_timeout(&self) -> (d: Option<Delay>)
        ensures
            d == self.spec_sse_idle_timeout(),
    {
        self.sse_idle_timeout
    }

    /// A GET request to `path`; it starts with the client's retry policy.
    pub fn get<'a>(&'a self, path: &'a str) -> (r: RequestBuilder<'a>)
        ensures
            r.spec_client() == *self,
            r.spec_method() == RequestMethod::Get,
            r.spec_path() == path@,
            r.spec_json_body() is None,
            same_optional_policy(r.spec_retry_policy(), self.spec_retry_policy()),
    {
        RequestBuilder {
            client: self,
            method: RequestMethod::Get,
            path,
            json_body: None,
            retry_policy: clone_optional_policy(&self.retry_policy),
        }
    }

    /// A POST request to `path` carrying `json_body`, the JSON encoding of
    /// its payload. It is not retried unless a policy is given with
    /// `with_retry`: a repeated POST could repeat its effect.
    pub fn post<'a>(&'a self, path: &'a str, json_body: Vec<u8>) -> (r: RequestBuilder<'a>)
        ensures
            r.spec_client() == *self,
            r.spec_method() == RequestMethod::Post,
            r.spec_path() == path@,
            r.spec_json_body() == Some(json_body@),
            r.spec_retry_policy() is None,
    {
        RequestBuilder {
            client: self,
            method: RequestMethod::Post,
            path,
            json_body: Some(json_body),
            retry_policy: None,
        }
    }
}

/// The HTTP method of a request.
#[derive(Clone, Copy, Debug, PartialEq, Eq, Structural)]
pub enum RequestMethod {
    Get,
    Post,
}

/// A request being prepared: its client, method, path, JSON body and retry
/// policy. Nothing is sent until the caller sends it.
#[must_use]
pub struct RequestBuilder<'a> {
    client: &'a HttpClient,
    method: RequestMethod,
    path: &'a str,
    json_body: Option<Vec<u8>>,
    retry_policy: Option<RetryPolicy>,
}

impl<'a> RequestBuilder<'a> {
    /// The client that sends the request.
    pub closed spec fn spec_client(&self) -> HttpClient {
        *self.client
    }

    /// The request's method.
    pub closed spec fn spec_method(&self) -> RequestMethod {
        self.method
    }

    /// The request path, as given.
    pub closed spec fn spec_path(&self) -> Seq<char> {
        self.path@
    }

    /// The JSON body, if the request has one.
    pub closed spec fn spec_json_body(&self) -> Option<Seq<u8>> {
        match self.json_body {
            Some(b) => Some(b@),
            None => None,
        }
    }

    /// The retry policy, if the request is retried.
    pub closed spec fn spec_retry_policy(&self) -> Option<RetryPolicy> {
        self.retry_policy
    }

    /// The same request, retried under `retry_policy`.
    pub fn with_retry(self, retry_policy: RetryPolicy) -> (r: RequestBuilder<'a>)
        ensures
            r.spec_client() == self.spec_client(),
            r.spec_method() == self.spec_method(),
            r.spec_path() == self.spec_path(),
            r.spec_json_body() == self.spec_json_body(),
            r.spec_retry_policy() == Some(retry_policy),
    {
        RequestBuilder { retry_policy: Some(retry_policy), ..self }
    }

    /// The client that sends the request.
    pub fn client(&self) -> (c: &'a HttpClient)
        ensures
            *c == self.spec_client(),
    {
        self.client
    }

    /// The request's method.
    pub fn method(&self) -> (m: RequestMethod)
        ensures
            m == self.spec_method(),
    {
        self.method
    }

    /// The request path, as given.
    pub fn path(&self) -> (p: &'a str)
        ensures
            p@ == self.spec_path(),
    {
        self.path
    }

    /// The JSON body, if the request has one.
    pub fn json_body(&self) -> (b: Option<&[u8]>)
        ensures
            match b {
                Some(s) => self.spec_json_body() == Some(s@),
                None => self.spec_json_body() is None,
            },
    {
        match &self.json_body {
            Some(v) => Some(v.as_slice()),
            None => None,
        }
    }

    /// The retry policy, if the request is retried.
    pub fn retry_policy(&self) -> (p: &Option<RetryPolicy>)
        ensures
            *p == self.spec_retry_policy(),
    {
        &self.retry_policy
    }

    /// The URL the request goes to: the client's base URL joined with the
    /// request path, keeping the base URL's scheme, host and port, with no
    /// fragment. A refused path (absolute URL, fragment, `.`/`..` segment)
    /// yields `InvalidRequestPath` and nothing is sent.
    pub fn request_url(&self) -> (r: Result<Url, HttpClientError>)
        requires
            request_url_fits(self.spec_client().spec_base_url(), self.spec_path()),
        ensures
            match path_rejection(self.spec_path()) {
                Some(rej) => r matches Err(HttpClientError::InvalidRequestPath(m)) && m@
                    == rejection_message(rej),
                None => r == Ok::<Url, HttpClientError>(
                    request_url_of(self.spec_client().spec_base_url(), self.spec_path()),
                ),
            },
            r matches Ok(u) ==> {
                &&& url_scheme_of(u) == url_scheme_of(self.spec_client().spec_base_url())
                &&& url_host_of(u) == url_host_of(self.spec_client().spec_base_url())
                &&& url_port_of(u) == url_port_of(self.spec_client().spec_base_url())
                &&& url_fragment_of(u) is None
            },
    {
        build_request_url(&self.client.base_url, self.path)
    }

    /// `request_url`, when the URL fits the `url` crate's `u32::MAX`-byte
    /// limit; `None` otherwise.
    pub fn try_request_url(&self) -> (r: Option<Result<Url, HttpClientError>>)
        ensures
            r is Some <==> request_url_fits(self.spec_client().spec_base_url(), self.spec_path()),
            r matches Some(res) ==> match path_rejection(self.spec_path()) {
                Some(rej) => res matches Err(HttpClientError::InvalidRequestPath(m)) && m@
                    == rejection_message(rej),
                None => res == Ok::<Url, HttpClientError>(
                    request_url_of(self.spec_client().spec_base_url(), self.spec_path()),
                ),
            },
    {
        if fits_request_url(&self.client.base_url, self.path) {
            Some(self.request_url())
        } else {
            None
        }
    }
}

} // verus!
