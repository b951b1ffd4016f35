# rust_json_client

A client for JSON APIs over HTTP, in two parts.

- `src/` is the verified library (Verus). It holds every decision the client
  takes, each with a contract:
  - `target`: a request path is trimmed, refused when it is an absolute URL,
    carries a fragment, or has a `.`/`..` segment (also percent-encoded),
    whether as written or as the URL parser reads it (`\` as `/`, tab, CR
    and LF dropped), and otherwise joined under the base URL's path. The
    path handed to the `url` crate is the base path followed by a part with
    none of these (`lemma_accepted_path_stays_under_base`), and the URL built
    keeps the base URL's scheme, host and port and has no fragment. How
    `url` then percent-encodes the path is the `url` crate's own.
  - `retry`: the retry policy, which failures are retryable, and the
    schedule that counts attempts, gives up exactly when attempts are spent
    or the failure is permanent, and picks the delay from `backon`'s
    exponential backoff: the backoff's current delay is first the base delay,
    then at least doubles (less `f32` rounding) up to the maximum delay, and
    each of its 3 delays lies between the current delay and about twice it
    (jitter); after them the maximum delay is used. No wait is shorter than
    the smaller of the base and maximum delays; a longer `Retry-After` hint
    replaces the delay.
  - `body`: the `Content-Length` precheck, the streamed size cap, the bounded
    error preview cut on a UTF-8 boundary, and the `Retry-After` parser.
  - `sse`: Server-Sent-Events decoding, independent of how the stream is cut
    into chunks (`lemma_sse_scan_append`, `lemma_sse_chunking_independent`)
    and stopping at `[DONE]`.
  - `client`: the client's settings, and the requests it prepares (GET
    inherits the client's retry policy, POST is not retried unless asked).
  - `delay`, `ascii`, `text`: durations and byte/character helpers.
- `app/` is the asynchronous side: it builds the `reqwest` transport, sends
  requests, reads responses chunk by chunk, sleeps between attempts and
  decodes JSON into the caller's types, handing each decision to the library.

`tests/` exercises the library on concrete values.
