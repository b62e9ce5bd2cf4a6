//! The client, its builder, requests, and the preparation of a request for
//! the WASI HTTP interface.

use vstd::prelude::*;

use std::sync::Arc;

use crate::body::{Body, Kind};
use crate::number::{decimal_digits, format_u64};
use crate::error::{Error, Source};
use crate::headers::{
    accept_name, entries_get, fields_valid, flatten, header_map_entries, header_map_insert,
    header_map_new, header_map_with_capacity, header_value_from_static, header_value_from_str,
    insert_all, insert_every, is_header_value, lemma_get_after_insert_all, user_agent_name,
    visible_header_pairs, visible_pairs, canonical_fields, fields_to_header_map, entries_wf,
    map_insert, header_map_keys_len, header_map_get, content_length_name, HEADER_MAP_SAFE_LEN,
};
use crate::method::{encode_method, wasi_method_of, Method, WasiMethod};
use crate::status::StatusCode;
use crate::timeout::{nanos_of, optional_nanos, timeout_or, Timeout};
use crate::url::{path_with_query_of, ParsedUrl, WasiScheme};
use http::HeaderMap;
use vstd::utf8::encode_utf8;
use wasi_async_runtime::Reactor;

verus! {

#[verifier::external_type_specification]
#[verifier::external_body]
pub struct ExReactor(Reactor);

/// The settings a builder collects.
struct Config {
    headers: HeaderMap,
    connect_timeout: Option<Timeout>,
    timeout: Option<Timeout>,
    error: Option<Error>,
}

/// Collects the settings of a `Client`.
pub struct ClientBuilder {
    config: Config,
    reactor: Reactor,
}

/// What a client holds; shared by its copies.
pub struct ClientRef {
    reactor: Reactor,
    headers: HeaderMap,
    connect_timeout: Option<Timeout>,
    first_byte_timeout: Option<Timeout>,
    between_bytes_timeout: Option<Timeout>,
}

/// A client to make requests with.
pub struct Client {
    inner: Arc<ClientRef>,
}

/// `Arc::clone`: another pointer to the same value.
#[verifier::external_body]
fn share(inner: &Arc<ClientRef>) -> (r: Arc<ClientRef>)
    ensures
        r == *inner,
{
    Arc::clone(inner)
}

/// The error a builder holds after `user_agent(value)`: a value that is
/// not a valid header value records a builder error; a valid one keeps
/// what was held.
pub open spec fn error_after_user_agent(before: Option<Error>, value: Seq<char>) -> Option<Error> {
    if is_header_value(encode_utf8(value)) {
        before
    } else {
        Some(Error::builder_spec(Source::InvalidHeaderValue))
    }
}

/// The error a builder holds after `user_agent` with each value in turn;
/// the other setters leave the error as it is.
pub open spec fn error_after_user_agents(before: Option<Error>, values: Seq<Seq<char>>) -> Option<
    Error,
>
    decreases values.len(),
{
    if values.len() == 0 {
        before
    } else {
        error_after_user_agent(error_after_user_agents(before, values.drop_last()), values.last())
    }
}

/// The timeout of a new builder, in nanoseconds: thirty seconds.
pub open spec fn default_timeout_nanos() -> nat {
    30_000_000_000
}

/// The default headers of a new builder: `accept: */*`.
pub open spec fn initial_headers() -> Seq<(Seq<char>, Seq<Seq<u8>>)> {
    seq![("accept"@, seq![encode_utf8("*/*"@)])]
}

impl ClientBuilder {
    /// The default headers the built client sends.
    pub closed spec fn headers_entries(&self) -> Seq<(Seq<char>, Seq<Seq<u8>>)> {
        header_map_entries(self.config.headers)
    }

    pub closed spec fn spec_timeout(&self) -> Option<Timeout> {
        self.config.timeout
    }

    pub closed spec fn spec_connect_timeout(&self) -> Option<Timeout> {
        self.config.connect_timeout
    }

    /// The error recorded by a setting that could not be applied.
    pub closed spec fn spec_error(&self) -> Option<Error> {
        self.config.error
    }

    pub closed spec fn spec_reactor(&self) -> Reactor {
        self.reactor
    }

    /// The number of distinct header names the built client will send.
    pub fn header_count(&self) -> (r: usize)
        ensures
            r == self.headers_entries().len(),
    {
        header_map_keys_len(&self.config.headers)
    }

    /// A builder that sends `accept: */*`, with a timeout of thirty seconds
    /// and no timeout of its own for connecting.
    pub fn new(reactor: Reactor) -> (b: ClientBuilder)
        ensures
            b.headers_entries() == initial_headers(),
            b.spec_timeout() matches Some(t) && t@ == default_timeout_nanos() && t.wf(),
            b.spec_connect_timeout() is None,
            b.spec_error() is None,
            b.spec_reactor() == reactor,
    {
        let mut headers = header_map_with_capacity(2);
        proof {
            reveal_strlit("*/*");
            assert(crate::headers::is_visible_text(encode_utf8("*/*"@))) by {
                vstd::utf8::is_ascii_chars_encode_utf8("*/*"@);
            }
        }
        header_map_insert(&mut headers, accept_name(), header_value_from_static("*/*"));
        assert(header_map_entries(headers) =~= initial_headers());
        ClientBuilder {
            reactor,
            config: Config {
                headers,
                connect_timeout: None,
                timeout: Some(Timeout::from_secs(30)),
                error: None,
            },
        }
    }

    /// Returns a client with this configuration, or the error recorded by a
    /// setting that could not be applied. The timeout bounds connecting,
    /// unless a timeout for connecting was set, and receiving the response.
    pub fn build(self) -> (r: Result<Client, Error>)
        ensures
            self.spec_error() matches Some(e) ==> r == Err::<Client, Error>(e),
            self.spec_error() is None ==> (r matches Ok(c) && c.headers_entries()
                == self.headers_entries() && c.spec_connect_timeout() == or_timeout(
                self.spec_connect_timeout(),
                self.spec_timeout(),
            ) && c.spec_first_byte_timeout() == self.spec_timeout()
                && c.spec_between_bytes_timeout() == self.spec_timeout() && c.spec_reactor()
                == self.spec_reactor()),
    {
        match self.config.error {
            Some(e) => Err(e),
            None => {
                let connect = timeout_or(&self.config.connect_timeout, &self.config.timeout);
                let first_byte = timeout_or(&self.config.timeout, &None);
                Ok(
                    Client {
                        inner: Arc::new(
                            ClientRef {
                                reactor: self.reactor,
                                headers: self.config.headers,
                                connect_timeout: connect,
                                first_byte_timeout: first_byte,
                                between_bytes_timeout: self.config.timeout,
                            },
                        ),
                    },
                )
            },
        }
    }

    /// Sets the `user-agent` header the client sends; text that is not a
    /// valid header value records a builder error instead.
    pub fn user_agent(self, value: &str) -> (b: ClientBuilder)
        requires
            self.headers_entries().len() < HEADER_MAP_SAFE_LEN,
        ensures
            b.spec_timeout() == self.spec_timeout(),
            b.spec_connect_timeout() == self.spec_connect_timeout(),
            b.spec_reactor() == self.spec_reactor(),
            b.spec_error() == error_after_user_agent(self.spec_error(), value@),
            is_header_value(encode_utf8(value@)) ==> b.headers_entries() == map_insert(
                self.headers_entries(),
                "user-agent"@,
                encode_utf8(value@),
            ),
            !is_header_value(encode_utf8(value@)) ==> b.headers_entries()
                == self.headers_entries(),
    {
        let mut s = self;
        match header_value_from_str(value) {
            Ok(v) => {
                header_map_insert(&mut s.config.headers, user_agent_name(), v);
            },
            Err(_) => {
                s.config.error = Some(Error::builder(Source::InvalidHeaderValue));
            },
        }
        s
    }

    /// Adds `headers` to the headers the client sends: each of their pairs is
    /// inserted in turn, so a later pair for a name replaces an earlier one.
    pub fn default_headers(self, headers: HeaderMap) -> (b: ClientBuilder)
        requires
            insert_all(self.headers_entries(), flatten(header_map_entries(headers))).len()
                < HEADER_MAP_SAFE_LEN,
        ensures
            b.headers_entries() == insert_all(
                self.headers_entries(),
                flatten(header_map_entries(headers)),
            ),
            b.spec_timeout() == self.spec_timeout(),
            b.spec_connect_timeout() == self.spec_connect_timeout(),
            b.spec_error() == self.spec_error(),
            b.spec_reactor() == self.spec_reactor(),
    {
        let mut s = self;
        insert_every(&mut s.config.headers, &headers);
        s
    }

    /// Sets the timeout for receiving the response, both to its first byte
    /// and between its bytes; `None` means no timeout.
    pub fn timeout(self, timeout: Option<Timeout>) -> (b: ClientBuilder)
        ensures
            b.spec_timeout() == timeout,
            b.headers_entries() == self.headers_entries(),
            b.spec_connect_timeout() == self.spec_connect_timeout(),
            b.spec_error() == self.spec_error(),
            b.spec_reactor() == self.spec_reactor(),
    {
        let mut s = self;
        s.config.timeout = timeout;
        s
    }

    /// Sets the timeout for connecting; `None` means no timeout.
    pub fn connect_timeout(self, timeout: Option<Timeout>) -> (b: ClientBuilder)
        ensures
            b.spec_connect_timeout() == timeout,
            b.headers_entries() == self.headers_entries(),
            b.spec_timeout() == self.spec_timeout(),
            b.spec_error() == self.spec_error(),
            b.spec_reactor() == self.spec_reactor(),
    {
        let mut s = self;
        s.config.connect_timeout = timeout;
        s
    }
}

/// A request: method, URL, headers, optional body and optional timeout.
pub struct Request<R, S> {
    method: Method,
    url: ParsedUrl,
    headers: HeaderMap,
    body: Option<Body<R, S>>,
    timeout: Option<Timeout>,
}

impl<R, S> Request<R, S> {
    pub closed spec fn spec_method(&self) -> Method {
        self.method
    }

    pub closed spec fn spec_url(&self) -> ParsedUrl {
        self.url
    }

    pub closed spec fn headers_entries(&self) -> Seq<(Seq<char>, Seq<Seq<u8>>)> {
        header_map_entries(self.headers)
    }

    pub closed spec fn spec_body(&self) -> Option<Body<R, S>> {
        self.body
    }

    pub closed spec fn spec_timeout(&self) -> Option<Timeout> {
        self.timeout
    }

    /// A request with no headers, body or timeout.
    pub fn new(method: Method, url: ParsedUrl) -> (r: Self)
        ensures
            r.spec_method() == method,
            r.spec_url() == url,
            r.headers_entries() == Seq::<(Seq<char>, Seq<Seq<u8>>)>::empty(),
            r.spec_body() is None,
            r.spec_timeout() is None,
    {
        Request { method, url, headers: header_map_new(), body: None, timeout: None }
    }

    pub fn method(&self) -> (r: &Method)
        ensures
            *r == self.spec_method(),
    {
        &self.method
    }

    pub fn url(&self) -> (r: &ParsedUrl)
        ensures
            *r == self.spec_url(),
    {
        &self.url
    }

    pub fn headers(&self) -> (r: &HeaderMap)
        ensures
            header_map_entries(*r) == self.headers_entries(),
    {
        &self.headers
    }

    /// Replaces the headers.
    pub fn set_headers(&mut self, headers: HeaderMap)
        ensures
            final(self).headers_entries() == header_map_entries(headers),
            final(self).spec_method() == old(self).spec_method(),
            final(self).spec_url() == old(self).spec_url(),
            final(self).spec_body() == old(self).spec_body(),
            final(self).spec_timeout() == old(self).spec_timeout(),
    {
        self.headers = headers;
    }

    /// Replaces the body.
    pub fn set_body(&mut self, body: Option<Body<R, S>>)
        ensures
            final(self).spec_body() == body,
            final(self).headers_entries() == old(self).headers_entries(),
            final(self).spec_method() == old(self).spec_method(),
            final(self).spec_url() == old(self).spec_url(),
            final(self).spec_timeout() == old(self).spec_timeout(),
    {
        self.body = body;
    }

    /// Replaces the timeout.
    pub fn set_timeout(&mut self, timeout: Option<Timeout>)
        ensures
            final(self).spec_timeout() == timeout,
            final(self).headers_entries() == old(self).headers_entries(),
            final(self).spec_method() == old(self).spec_method(),
            final(self).spec_url() == old(self).spec_url(),
            final(self).spec_body() == old(self).spec_body(),
    {
        self.timeout = timeout;
    }

    /// The parts of the request.
    pub fn pieces(self) -> (r: (Method, ParsedUrl, HeaderMap, Option<Body<R, S>>, Option<Timeout>))
        ensures
            r.0 == self.spec_method(),
            r.1 == self.spec_url(),
            header_map_entries(r.2) == self.headers_entries(),
            r.3 == self.spec_body(),
            r.4 == self.spec_timeout(),
    {
        (self.method, self.url, self.headers, self.body, self.timeout)
    }
}

/// A request under construction for a client, or the error that stopped it.
pub struct RequestBuilder<R, S> {
    client: Client,
    request: Result<Request<R, S>, Error>,
}

impl<R, S> RequestBuilder<R, S> {
    pub closed spec fn spec_request(&self) -> Result<Request<R, S>, Error> {
        self.request
    }

    pub closed spec fn spec_client(&self) -> Client {
        self.client
    }

    pub fn new(client: Client, request: Result<Request<R, S>, Error>) -> (b: Self)
        ensures
            b.spec_client() == client,
            b.spec_request() == request,
    {
        RequestBuilder { client, request }
    }

    /// The client the request is for.
    pub fn client(&self) -> (r: &Client)
        ensures
            *r == self.spec_client(),
    {
        &self.client
    }

    /// The request, or the error that stopped its construction.
    pub fn build(self) -> (r: Result<Request<R, S>, Error>)
        ensures
            r == self.spec_request(),
    {
        self.request
    }
}

/// A request prepared for the WASI HTTP interface.
pub struct OutgoingPlan<R, S> {
    /// The (name, value) fields to send.
    pub headers: Vec<(String, Vec<u8>)>,
    pub method: WasiMethod,
    pub path_with_query: String,
    pub scheme: WasiScheme,
    pub authority: String,
    /// Timeouts in nanoseconds.
    pub connect_timeout: Option<u64>,
    pub first_byte_timeout: Option<u64>,
    pub between_bytes_timeout: Option<u64>,
    /// How long to wait for the response.
    pub receive_timeout: Option<Timeout>,
    pub body: Option<Body<R, S>>,
    pub url: ParsedUrl,
}

/// The `content-length` field sent for a body read from a reader of known
/// length, unless the client's or the request's headers set one: the
/// length in decimal.
pub open spec fn length_field<R, S>(
    body: Option<Body<R, S>>,
    client_entries: Seq<(Seq<char>, Seq<Seq<u8>>)>,
    request_entries: Seq<(Seq<char>, Seq<Seq<u8>>)>,
) -> Seq<(Seq<char>, Seq<u8>)> {
    match body {
        Some(b) => match b.kind {
            Some(Kind::Reader(_, Some(n))) => if entries_get(client_entries, "content-length"@)
                is None && entries_get(request_entries, "content-length"@) is None {
                seq![("content-length"@, decimal_digits(n as nat))]
            } else {
                seq![]
            },
            _ => seq![],
        },
        None => seq![],
    }
}

/// `a`, or `b` when `a` is absent.
pub open spec fn or_timeout(a: Option<Timeout>, b: Option<Timeout>) -> Option<Timeout> {
    match a {
        Some(t) => Some(t),
        None => b,
    }
}

/// A request's own timeout wins over the client's; without one the
/// client's applies.
pub proof fn law_request_timeout_wins(own: Timeout, client: Option<Timeout>)
    ensures
        or_timeout(Some(own), client) == Some(own),
        or_timeout(None, client) == client,
{
}

/// Only a body read from a reader of known length is announced, and only
/// when neither the client's nor the request's headers give a length.
pub proof fn law_length_field_only_for_sized<R, S>(
    body: Option<Body<R, S>>,
    client_entries: Seq<(Seq<char>, Seq<Seq<u8>>)>,
    request_entries: Seq<(Seq<char>, Seq<Seq<u8>>)>,
)
    ensures
        !(body matches Some(b) && b.kind matches Some(Kind::Reader(_, Some(_)))) ==> length_field(
            body,
            client_entries,
            request_entries,
        ).len() == 0,
        entries_get(client_entries, "content-length"@) is Some ==> length_field(
            body,
            client_entries,
            request_entries,
        ).len() == 0,
        entries_get(request_entries, "content-length"@) is Some ==> length_field(
            body,
            client_entries,
            request_entries,
        ).len() == 0,
{
}

impl Client {
    pub closed spec fn headers_entries(&self) -> Seq<(Seq<char>, Seq<Seq<u8>>)> {
        header_map_entries(self.inner.headers)
    }

    pub closed spec fn spec_connect_timeout(&self) -> Option<Timeout> {
        self.inner.connect_timeout
    }

    pub closed spec fn spec_first_byte_timeout(&self) -> Option<Timeout> {
        self.inner.first_byte_timeout
    }

    pub closed spec fn spec_between_bytes_timeout(&self) -> Option<Timeout> {
        self.inner.between_bytes_timeout
    }

    pub closed spec fn spec_reactor(&self) -> Reactor {
        self.inner.reactor
    }

    /// A client with the default configuration: it sends `accept: */*`, and
    /// connecting and receiving each time out after thirty seconds.
    pub fn new(reactor: Reactor) -> (c: Client)
        ensures
            c.headers_entries() == initial_headers(),
            c.spec_connect_timeout() matches Some(t) && t@ == default_timeout_nanos(),
            c.spec_first_byte_timeout() matches Some(t) && t@ == default_timeout_nanos(),
            c.spec_between_bytes_timeout() matches Some(t) && t@ == default_timeout_nanos(),
            c.spec_reactor() == reactor,
    {
        match Client::builder(reactor).build() {
            Ok(c) => c,
            Err(_) => vstd::pervasive::unreached(),
        }
    }

    /// A builder for a client; the same as `ClientBuilder::new`.
    pub fn builder(reactor: Reactor) -> (b: ClientBuilder)
        ensures
            b.headers_entries() == initial_headers(),
            b.spec_timeout() matches Some(t) && t@ == default_timeout_nanos() && t.wf(),
            b.spec_connect_timeout() is None,
            b.spec_error() is None,
            b.spec_reactor() == reactor,
    {
        ClientBuilder::new(reactor)
    }

    /// The runtime the client waits on.
    pub fn reactor(&self) -> (r: &Reactor)
        ensures
            *r == self.spec_reactor(),
    {
        &self.inner.reactor
    }

    /// Another handle on the same client.
    pub fn duplicate(&self) -> (r: Client)
        ensures
            r == *self,
    {
        Client { inner: share(&self.inner) }
    }

    /// Starts a request with `method` to `url`; text that is not a URL makes
    /// the request an error.
    pub fn request<R, S>(&self, method: Method, url: &str) -> (b: RequestBuilder<R, S>)
        ensures
            b.spec_client() == *self,
            b.spec_request() is Ok <==> crate::url::url_components(url@) is Some,
            b.spec_request() matches Ok(r) ==> r.spec_method() == method && Some(r.spec_url()@)
                == crate::url::url_components(url@) && r.headers_entries().len() == 0
                && r.spec_body() is None && r.spec_timeout() is None,
            b.spec_request() matches Err(e) ==> e.kind == crate::error::Kind::Builder && e.source
                == Some(Source::InvalidUrl),
    {
        let req = match ParsedUrl::parse(url) {
            Ok(u) => Ok(Request::new(method, u)),
            Err(e) => Err(e),
        };
        RequestBuilder::new(self.duplicate(), req)
    }

    /// A `GET` request to `url`.
    pub fn get<R, S>(&self, url: &str) -> (b: RequestBuilder<R, S>)
        ensures
            b.spec_client() == *self,
            b.spec_request() is Ok <==> crate::url::url_components(url@) is Some,
            b.spec_request() matches Ok(r) ==> r.spec_method() == Method::Get && Some(r.spec_url()@)
                == crate::url::url_components(url@) && r.headers_entries().len() == 0
                && r.spec_body() is None && r.spec_timeout() is None,
            b.spec_request() matches Err(e) ==> e.kind == crate::error::Kind::Builder && e.source
                == Some(Source::InvalidUrl),
    {
        self.request(Method::Get, url)
    }

    /// A `POST` request to `url`.
    pub fn post<R, S>(&self, url: &str) -> (b: RequestBuilder<R, S>)
        ensures
            b.spec_client() == *self,
            b.spec_request() is Ok <==> crate::url::url_components(url@) is Some,
            b.spec_request() matches Ok(r) ==> r.spec_method() == Method::Post && Some(r.spec_url()@)
                == crate::url::url_components(url@) && r.headers_entries().len() == 0
                && r.spec_body() is None && r.spec_timeout() is None,
            b.spec_request() matches Err(e) ==> e.kind == crate::error::Kind::Builder && e.source
                == Some(Source::InvalidUrl),
    {
        self.request(Method::Post, url)
    }

    /// A `PUT` request to `url`.
    pub fn put<R, S>(&self, url: &str) -> (b: RequestBuilder<R, S>)
        ensures
            b.spec_client() == *self,
            b.spec_request() is Ok <==> crate::url::url_components(url@) is Some,
            b.spec_request() matches Ok(r) ==> r.spec_method() == Method::Put && Some(r.spec_url()@)
                == crate::url::url_components(url@) && r.headers_entries().len() == 0
                && r.spec_body() is None && r.spec_timeout() is None,
            b.spec_request() matches Err(e) ==> e.kind == crate::error::Kind::Builder && e.source
                == Some(Source::InvalidUrl),
    {
        self.request(Method::Put, url)
    }

    /// A `PATCH` request to `url`.
    pub fn patch<R, S>(&self, url: &str) -> (b: RequestBuilder<R, S>)
        ensures
            b.spec_client() == *self,
            b.spec_request() is Ok <==> crate::url::url_components(url@) is Some,
            b.spec_request() matches Ok(r) ==> r.spec_method() == Method::Patch && Some(r.spec_url()@)
                == crate::url::url_components(url@) && r.headers_entries().len() == 0
                && r.spec_body() is None && r.spec_timeout() is None,
            b.spec_request() matches Err(e) ==> e.kind == crate::error::Kind::Builder && e.source
                == Some(Source::InvalidUrl),
    {
        self.request(Method::Patch, url)
    }

    /// A `DELETE` request to `url`.
    pub fn delete<R, S>(&self, url: &str) -> (b: RequestBuilder<R, S>)
        ensures
            b.spec_client() == *self,
            b.spec_request() is Ok <==> crate::url::url_components(url@) is Some,
            b.spec_request() matches Ok(r) ==> r.spec_method() == Method::Delete && Some(r.spec_url()@)
                == crate::url::url_components(url@) && r.headers_entries().len() == 0
                && r.spec_body() is None && r.spec_timeout() is None,
            b.spec_request() matches Err(e) ==> e.kind == crate::error::Kind::Builder && e.source
                == Some(Source::InvalidUrl),
    {
        self.request(Method::Delete, url)
    }

    /// A `HEAD` request to `url`.
    pub fn head<R, S>(&self, url: &str) -> (b: RequestBuilder<R, S>)
        ensures
            b.spec_client() == *self,
            b.spec_request() is Ok <==> crate::url::url_components(url@) is Some,
            b.spec_request() matches Ok(r) ==> r.spec_method() == Method::Head && Some(r.spec_url()@)
                == crate::url::url_components(url@) && r.headers_entries().len() == 0
                && r.spec_body() is None && r.spec_timeout() is None,
            b.spec_request() matches Err(e) ==> e.kind == crate::error::Kind::Builder && e.source
                == Some(Source::InvalidUrl),
    {
        self.request(Method::Head, url)
    }

    /// Prepares `request` for the WASI HTTP interface: the client's headers
    /// and then the request's, each only where its value is visible ASCII,
    /// and then the length of a body of known length unless a header gives
    /// it; the encoded method; the path with its query; the scheme and
    /// authority; the timeouts in nanoseconds, where the request's timeout
    /// takes the place of the client's first-byte and between-bytes
    /// timeouts; and the body.
    pub fn plan<R, S>(&self, request: Request<R, S>) -> (p: OutgoingPlan<R, S>)
        ensures
            p.headers.deep_view() == visible_pairs(flatten(self.headers_entries())) + visible_pairs(
                flatten(request.headers_entries()),
            ) + length_field(
                request.spec_body(),
                self.headers_entries(),
                request.headers_entries(),
            ),
            p.method == wasi_method_of(request.spec_method()),
            p.path_with_query@ == path_with_query_of(
                request.spec_url()@.3,
                request.spec_url()@.4,
            ),
            request.spec_url()@.1 == "http"@ ==> p.scheme == WasiScheme::Http,
            request.spec_url()@.1 == "https"@ ==> p.scheme == WasiScheme::Https,
            request.spec_url()@.1 != "http"@ && request.spec_url()@.1 != "https"@ ==> (
            p.scheme matches WasiScheme::Other(s) && s@ == request.spec_url()@.1),
            p.authority@ == request.spec_url()@.2,
            p.connect_timeout == nanos_of(self.spec_connect_timeout()),
            p.first_byte_timeout == nanos_of(
                or_timeout(request.spec_timeout(), self.spec_first_byte_timeout()),
            ),
            p.between_bytes_timeout == nanos_of(
                or_timeout(request.spec_timeout(), self.spec_between_bytes_timeout()),
            ),
            p.receive_timeout == or_timeout(request.spec_timeout(), self.spec_first_byte_timeout()),
            p.body == request.spec_body(),
            p.url == request.spec_url(),
    {
        let mut headers: Vec<(String, Vec<u8>)> = Vec::new();
        visible_header_pairs(&self.inner.headers, &mut headers);
        let (method, url, req_headers, body, timeout) = request.pieces();
        visible_header_pairs(&req_headers, &mut headers);
        assert(Seq::<(Seq<char>, Seq<u8>)>::empty() + visible_pairs(flatten(self.headers_entries()))
            =~= visible_pairs(flatten(self.headers_entries())));
        let ghost listed = headers.deep_view();
        match &body {
            Some(Body { kind: Some(Kind::Reader(_, Some(n))) }) => {
                let name = content_length_name();
                if header_map_get(&self.inner.headers, &name).is_none() && header_map_get(
                    &req_headers,
                    &name,
                ).is_none() {
                    let digits = format_u64(*n);
                    let field = ("content-length".to_owned(), digits);
                    proof {
                        reveal_strlit("content-length");
                        assert(digits.deep_view() =~= digits@);
                    }
                    headers.push(field);
                    assert(headers.deep_view() =~= listed + length_field(
                        body,
                        self.headers_entries(),
                        request.headers_entries(),
                    ));
                } else {
                    assert(headers.deep_view() =~= listed + length_field(
                        body,
                        self.headers_entries(),
                        request.headers_entries(),
                    ));
                }
            },
            _ => {
                assert(headers.deep_view() =~= listed + length_field(
                    body,
                    self.headers_entries(),
                    request.headers_entries(),
                ));
            },
        }
        let scheme = url.wasi_scheme();
        let path_with_query = url.path_with_query();
        let authority = url.authority().to_owned();
        let first_byte = timeout_or(&timeout, &self.inner.first_byte_timeout);
        let between_bytes = timeout_or(&timeout, &self.inner.between_bytes_timeout);
        let receive_timeout = timeout_or(&timeout, &self.inner.first_byte_timeout);
        OutgoingPlan {
            headers,
            method: encode_method(method),
            path_with_query,
            scheme,
            authority,
            connect_timeout: optional_nanos(&self.inner.connect_timeout),
            first_byte_timeout: optional_nanos(&first_byte),
            between_bytes_timeout: optional_nanos(&between_bytes),
            receive_timeout,
            body,
            url,
        }
    }

    /// Whether the fields of a response are valid header fields: every name
    /// is a valid header name and every value a valid header value.
    pub fn fields_acceptable(fields: &Vec<(String, Vec<u8>)>) -> (r: bool)
        ensures
            r == fields_valid(fields.deep_view()),
    {
        let ghost fs = fields.deep_view();
        let mut i: usize = 0;
        while i < fields.len()
            invariant
                0 <= i <= fields@.len(),
                fs == fields.deep_view(),
                forall|k: int|
                    0 <= k < i ==> crate::headers::is_header_name(encode_utf8((#[trigger] fs[k]).0))
                        && is_header_value(fs[k].1),
            decreases fields@.len() - i,
        {
            let (name, value) = &fields[i];
            assert(fs[i as int] == (name@, value@));
            if crate::headers::header_name_from_bytes(name.as_str().as_bytes()).is_err() {
                return false;
            }
            if crate::headers::header_value_from_bytes(value.as_slice()).is_err() {
                return false;
            }
            i = i + 1;
        }
        true
    }

    /// The status and headers of a response from its status number and
    /// valid fields: a number outside `100..=999` is a decode error; the
    /// fields become a header map in which a repeated name keeps its last
    /// value, or `None` when that map would reach `HEADER_MAP_SAFE_LEN`
    /// distinct names.
    pub fn response_head(status: u16, fields: &Vec<(String, Vec<u8>)>) -> (r: Result<
        Option<(StatusCode, HeaderMap)>,
        Error,
    >)
        requires
            fields_valid(fields.deep_view()),
        ensures
            r is Ok <==> 100 <= status <= 999,
            r matches Ok(h) ==> (h is Some <==> insert_all(
                Seq::empty(),
                canonical_fields(fields.deep_view()),
            ).len() < HEADER_MAP_SAFE_LEN),
            r matches Ok(Some(h)) ==> h.0@ == status && h.0.wf() && header_map_entries(h.1)
                == insert_all(Seq::empty(), canonical_fields(fields.deep_view())) && entries_wf(
                header_map_entries(h.1),
            ),
            r matches Err(e) ==> e.kind == crate::error::Kind::Decode && e.source == Some(
                Source::InvalidStatusCode,
            ) && e.url is None,
    {
        let code = match StatusCode::from_u16(status) {
            Ok(c) => c,
            Err(e) => return Err(e),
        };
        match fields_to_header_map(fields) {
            Some(headers) => Ok(Some((code, headers))),
            None => Ok(None),
        }
    }
}

/// A body read from a reader of known length, sent without a
/// `content-length` header of the client's or the request's, is announced by
/// one `content-length` field that reads back as that length.
pub proof fn law_sized_body_announces_length<R, S>(
    reader: R,
    n: u64,
    client_entries: Seq<(Seq<char>, Seq<Seq<u8>>)>,
    request_entries: Seq<(Seq<char>, Seq<Seq<u8>>)>,
)
    requires
        entries_get(client_entries, "content-length"@) is None,
        entries_get(request_entries, "content-length"@) is None,
    ensures
        ({
            let f = length_field(
                Some(Body::<R, S> { kind: Some(Kind::Reader(reader, Some(n))) }),
                client_entries,
                request_entries,
            );
            &&& f.len() == 1
            &&& f[0].0 == "content-length"@
            &&& crate::number::decimal_u64(f[0].1) == Some(n)
        }),
{
    crate::number::law_decimal_round_trip(n);
}

/// Across any run of `user_agent` calls, the builder ends up holding a
/// builder error exactly when one of the values was not a valid header
/// value, and otherwise holds what it held before; `build` then fails with
/// that error, or succeeds when none is held.
pub proof fn law_builder_error_sticks(before: Option<Error>, values: Seq<Seq<char>>)
    ensures
        error_after_user_agents(before, values) == if exists|i: int|
            0 <= i < values.len() && !is_header_value(encode_utf8(#[trigger] values[i])) {
            Some(Error::builder_spec(Source::InvalidHeaderValue))
        } else {
            before
        },
    decreases values.len(),
{
    if values.len() > 0 {
        let init = values.drop_last();
        law_builder_error_sticks(before, init);
        if exists|i: int| 0 <= i < init.len() && !is_header_value(encode_utf8(#[trigger] init[i])) {
            let i = choose|i: int| 0 <= i < init.len() && !is_header_value(encode_utf8(#[trigger] init[i]));
            assert(values[i] == init[i]);
        }
        if exists|i: int| 0 <= i < values.len() && !is_header_value(encode_utf8(#[trigger] values[i])) {
            let i = choose|i: int| 0 <= i < values.len() && !is_header_value(encode_utf8(#[trigger] values[i]));
            if i < values.len() - 1 {
                assert(init[i] == values[i]);
            } else {
                assert(values.last() == values[i]);
            }
        } else {
            assert forall|i: int| 0 <= i < init.len() implies is_header_value(encode_utf8(#[trigger] init[i])) by {
                assert(values[i] == init[i]);
            }
            assert(is_header_value(encode_utf8(values[values.len() - 1])));
        }
    }
}

/// After `default_headers`, every name the given map holds reads the value
/// of its last pair there, and every other name reads what it read before.
pub proof fn law_default_headers_override(b: ClientBuilder, headers: HeaderMap, n: Seq<char>)
    ensures
        entries_get(insert_all(b.headers_entries(), flatten(header_map_entries(headers))), n)
            == match crate::headers::last_value(flatten(header_map_entries(headers)), n) {
            Some(v) => Some(v),
            None => entries_get(b.headers_entries(), n),
        },
{
    lemma_get_after_insert_all(b.headers_entries(), flatten(header_map_entries(headers)), n);
}

} // verus!
