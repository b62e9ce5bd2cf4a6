# reqwest for WASI HTTP, verified

An HTTP client for WebAssembly components that run on the `wasi:http` 0.2
host interface, keeping the API of `reqwest`. The library's logic is written
in Verus and proved against its contracts.

## Layout

- `src/` — the verified library.
  - `client.rs`: `ClientBuilder`, `Client`, `Request`, `RequestBuilder`, and
    `Client::plan`, which turns a request into exactly what is handed to the
    host (fields, method, path, scheme, authority, timeouts, body).
  - `headers.rs`: `http::HeaderMap` described by its ordered entries; header
    name and value rules; inserting, merging, filtering and building maps.
  - `body.rs`: bodies (readers, bytes, host streams, chunk streams) and the
    readers over them.
  - `transfer.rs`: the decisions taken while moving bytes to and from the
    host: pieces of a chunk to write, collecting a body from reads, waiting
    for a response against a deadline.
  - `response.rs`: responses, `Content-Length`, the charset of the text and
    its decoding, status errors.
  - `chunk.rs`, `number.rs`, `timeout.rs`, `status.rs`, `method.rs`,
    `url.rs`, `byte_buf.rs`, `text.rs`, `conversions.rs`, `error.rs`: the
    smaller pieces.
- `app/` — plain Rust around the library: the calls into the host
  (`wasi::http`, `wasi::io`), awaiting futures, user readers and streams,
  JSON, and `std::io` adapters.
- `tests/` — tests of the library, run natively.
