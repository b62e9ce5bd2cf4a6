//! Responses.

use vstd::prelude::*;
use vstd::utf8::encode_utf8;

use crate::body::{Body, Kind};
use crate::error::{Error, Kind as ErrorKind};
use crate::headers::{
    ascii_chars, content_length_name, content_type_name, entries_get, header_map_entries,
    header_map_get, header_value_as_bytes, header_value_to_str, is_visible_text,
};
use crate::number::{decimal_digits, decimal_u64, parse_u64};
use crate::status::{StatusCode, Version};
use crate::url::ParsedUrl;
use http::{Extensions, HeaderMap};
use wasi_async_runtime::Reactor;
use wasi::http::types::{IncomingBody, IncomingResponse};
use wasi::io::streams::InputStream;

verus! {

#[verifier::external_type_specification]
#[verifier::external_body]
pub struct ExIncomingResponse(IncomingResponse);

#[verifier::external_type_specification]
#[verifier::external_body]
pub struct ExExtensions(Extensions);

/// The number of extensions a set holds, as `Extensions::len` counts them.
pub uninterp spec fn extensions_len(e: Extensions) -> nat;

/// `Extensions::default`: an empty set of extensions.
#[verifier::external_body]
fn new_extensions() -> (r: Extensions)
    ensures
        extensions_len(r) == 0,
{
    Extensions::default()
}

/// What `mime` makes of a `Content-Type` text: the value of the `charset`
/// parameter of the media type parsed from it, if it parses and has one.
pub uninterp spec fn mime_charset(content_type: Seq<char>) -> Option<Seq<char>>;

/// The text `encoding_rs` decodes from `bytes` with the encoding that
/// `label` names (a leading byte order mark selects its own encoding and is
/// dropped; malformed sequences become U+FFFD); `None` when no encoding has
/// that label.
pub uninterp spec fn label_decoding(label: Seq<u8>, bytes: Seq<u8>) -> Option<Seq<char>>;

/// The text `encoding_rs` decodes from `bytes` as UTF-8 (a leading byte
/// order mark selects its own encoding and is dropped; malformed sequences
/// become U+FFFD).
pub uninterp spec fn utf8_decoding(bytes: Seq<u8>) -> Seq<char>;

/// `str::parse::<mime::Mime>` and then `Mime::get_param("charset")`.
#[verifier::external_body]
fn content_type_charset(content_type: &str) -> (r: Option<String>)
    ensures
        r is Some <==> mime_charset(content_type@) is Some,
        r matches Some(c) ==> c@ == mime_charset(content_type@).unwrap(),
{
    match content_type.parse::<mime::Mime>() {
        Ok(m) => m.get_param("charset").map(|c| c.as_str().to_string()),
        Err(_) => None,
    }
}

/// `encoding_rs::Encoding::for_label` and then `Encoding::decode`, the text
/// taken as an owned string.
#[verifier::external_body]
fn decode_with_label(label: &[u8], bytes: &[u8]) -> (r: Option<String>)
    ensures
        r is Some <==> label_decoding(label@, bytes@) is Some,
        r matches Some(t) ==> t@ == label_decoding(label@, bytes@).unwrap(),
{
    match encoding_rs::Encoding::for_label(label) {
        Some(e) => Some(e.decode(bytes).0.into_owned()),
        None => None,
    }
}

/// `encoding_rs::UTF_8.decode`, the text taken as an owned string.
#[verifier::external_body]
fn decode_as_utf8(bytes: &[u8]) -> (r: String)
    ensures
        r@ == utf8_decoding(bytes@),
{
    encoding_rs::UTF_8.decode(bytes).0.into_owned()
}

/// The label of the encoding a response's text is decoded with: the
/// `charset` of a visible `Content-Type` header, else `default`.
pub open spec fn charset_label_of(
    entries: Seq<(Seq<char>, Seq<Seq<u8>>)>,
    default: Seq<char>,
) -> Seq<char> {
    match entries_get(entries, "content-type"@) {
        Some(v) => if is_visible_text(v) {
            match mime_charset(ascii_chars(v)) {
                Some(c) => c,
                None => default,
            }
        } else {
            default
        },
        None => default,
    }
}

/// The length a `Content-Length` header gives: its value when visible text
/// that reads as a `u64`.
pub open spec fn content_length_of(entries: Seq<(Seq<char>, Seq<Seq<u8>>)>) -> Option<u64> {
    match entries_get(entries, "content-length"@) {
        Some(v) => if is_visible_text(v) {
            decimal_u64(v)
        } else {
            None
        },
        None => None,
    }
}

/// The text of a body decoded with the encoding `label` names, or as UTF-8
/// when no encoding has that label.
pub open spec fn decoded_text(label: Seq<char>, bytes: Seq<u8>) -> Seq<char> {
    match label_decoding(encode_utf8(label), bytes) {
        Some(t) => t,
        None => utf8_decoding(bytes),
    }
}

/// Decodes the full bytes of a body with the encoding `label` names, or as
/// UTF-8 when no encoding has that label.
pub fn decode_text(label: &str, full: &[u8]) -> (r: String)
    ensures
        r@ == decoded_text(label@, full@),
{
    match decode_with_label(label.as_bytes(), full) {
        Some(t) => t,
        None => decode_as_utf8(full),
    }
}

/// The encoding label for a response's text: the default the caller gave
/// when there is no `Content-Type` header, when its value is not visible
/// text, or when it names no `charset`; the header's `charset` otherwise.
pub proof fn law_charset_label(entries: Seq<(Seq<char>, Seq<Seq<u8>>)>, default: Seq<char>)
    ensures
        entries_get(entries, "content-type"@) is None ==> charset_label_of(entries, default)
            == default,
        entries_get(entries, "content-type"@) matches Some(v) ==> (!is_visible_text(v)
            ==> charset_label_of(entries, default) == default),
        entries_get(entries, "content-type"@) matches Some(v) ==> (is_visible_text(v) ==> (
        mime_charset(ascii_chars(v)) matches Some(c) ==> charset_label_of(entries, default) == c)),
        entries_get(entries, "content-type"@) matches Some(v) ==> (is_visible_text(v) ==> (
        mime_charset(ascii_chars(v)) is None ==> charset_label_of(entries, default) == default)),
{
}

/// The `Content-Length` of a response is the number its first value
/// denotes when that value is visible text; with no such header, or an
/// unreadable value, there is none. In particular the decimal text of any
/// `n`, zero included, gives `n`.
pub proof fn law_content_length(entries: Seq<(Seq<char>, Seq<Seq<u8>>)>, n: u64)
    ensures
        entries_get(entries, "content-length"@) is None ==> content_length_of(entries) is None,
        entries_get(entries, "content-length"@) matches Some(v) ==> (is_visible_text(v)
            ==> content_length_of(entries) == decimal_u64(v)),
        entries_get(entries, "content-length"@) matches Some(v) ==> (!is_visible_text(v)
            ==> content_length_of(entries) is None),
        entries_get(entries, "content-length"@) == Some(decimal_digits(n as nat))
            ==> content_length_of(entries) == Some(n),
{
    crate::number::law_decimal_round_trip(n);
    crate::number::lemma_decimal_digits_visible(n as nat);
}

/// A body's text is the decoding by the encoding its label names, whatever
/// that encoding is; only a label no encoding has falls back to UTF-8.
pub proof fn law_decoded_text(label: Seq<char>, bytes: Seq<u8>)
    ensures
        label_decoding(encode_utf8(label), bytes) matches Some(t) ==> decoded_text(label, bytes)
            == t,
        label_decoding(encode_utf8(label), bytes) is None ==> decoded_text(label, bytes)
            == utf8_decoding(bytes),
{
}

/// The length a `Content-Length` header in `headers` gives, if it is there
/// and reads as a number.
pub fn content_length(headers: &HeaderMap) -> (r: Option<u64>)
    ensures
        r == content_length_of(header_map_entries(*headers)),
{
    match header_map_get(headers, &content_length_name()) {
        Some(v) => match header_value_to_str(v) {
            Ok(_) => parse_u64(header_value_as_bytes(v)),
            Err(_) => None,
        },
        None => None,
    }
}

/// The label of the encoding to decode a body's text with: the `charset`
/// of the `Content-Type` header in `headers`, else `default_encoding`.
pub fn charset_label(headers: &HeaderMap, default_encoding: &str) -> (r: String)
    ensures
        r@ == charset_label_of(header_map_entries(*headers), default_encoding@),
{
    match header_map_get(headers, &content_type_name()) {
        Some(v) => match header_value_to_str(v) {
            Ok(s) => match content_type_charset(s) {
                Some(c) => c,
                None => default_encoding.to_owned(),
            },
            Err(_) => default_encoding.to_owned(),
        },
        None => default_encoding.to_owned(),
    }
}

/// The error for a response to `url` with `status`, when the status is a
/// client error (`400..=499`) or a server error (`500..=599`).
pub fn status_error(status: &StatusCode, url: &ParsedUrl) -> (r: Option<Error>)
    ensures
        r is Some <==> 400 <= status@ < 600,
        r matches Some(e) ==> e.kind == ErrorKind::Status(status@) && e.source is None && (
        e.url matches Some(u) && u@ == url@),
{
    if status.is_client_error() || status.is_server_error() {
        Some(Error::status_code(url.duplicate(), status.as_u16()))
    } else {
        None
    }
}

/// A response to a request.
pub struct Response<R, S> {
    status: StatusCode,
    headers: HeaderMap,
    body: Option<Body<R, S>>,
    incoming_response: IncomingResponse,
    url: ParsedUrl,
    extensions: Extensions,
    reactor: Reactor,
}

impl<R, S> Response<R, S> {
    pub closed spec fn spec_status(&self) -> StatusCode {
        self.status
    }

    pub closed spec fn headers_entries(&self) -> Seq<(Seq<char>, Seq<Seq<u8>>)> {
        header_map_entries(self.headers)
    }

    pub closed spec fn spec_body(&self) -> Option<Body<R, S>> {
        self.body
    }

    pub closed spec fn spec_url(&self) -> ParsedUrl {
        self.url
    }

    pub closed spec fn spec_incoming_response(&self) -> IncomingResponse {
        self.incoming_response
    }

    pub closed spec fn spec_extensions(&self) -> Extensions {
        self.extensions
    }

    pub closed spec fn spec_reactor(&self) -> Reactor {
        self.reactor
    }

    pub fn new(
        status: StatusCode,
        headers: HeaderMap,
        body: Body<R, S>,
        incoming_response: IncomingResponse,
        url: ParsedUrl,
        reactor: Reactor,
    ) -> (r: Self)
        ensures
            r.spec_status() == status,
            r.headers_entries() == header_map_entries(headers),
            r.spec_body() == Some(body),
            r.spec_incoming_response() == incoming_response,
            r.spec_url() == url,
            extensions_len(r.spec_extensions()) == 0,
            r.spec_reactor() == reactor,
    {
        Response {
            status,
            headers,
            body: Some(body),
            incoming_response,
            url,
            extensions: new_extensions(),
            reactor,
        }
    }

    /// The runtime the body of the response is waited for on.
    pub fn reactor(&self) -> (r: &Reactor)
        ensures
            *r == self.spec_reactor(),
    {
        &self.reactor
    }

    /// The status code.
    pub fn status(&self) -> (r: StatusCode)
        ensures
            r@ == self.spec_status()@,
            self.spec_status().wf() ==> r.wf(),
    {
        self.status.copy()
    }

    /// The headers.
    pub fn headers(&self) -> (r: &HeaderMap)
        ensures
            header_map_entries(*r) == self.headers_entries(),
    {
        &self.headers
    }

    /// The headers, to change.
    pub fn headers_mut(&mut self) -> (r: &mut HeaderMap)
        ensures
            header_map_entries(*r) == old(self).headers_entries(),
            final(self).headers_entries() == header_map_entries(*final(r)),
            final(self).spec_status() == old(self).spec_status(),
            final(self).spec_body() == old(self).spec_body(),
            final(self).spec_url() == old(self).spec_url(),
    {
        &mut self.headers
    }

    /// The protocol version: always HTTP/1.1.
    pub fn version(&self) -> (r: Version)
        ensures
            r == Version::Http11,
    {
        Version::Http11
    }

    /// The URL of the request.
    pub fn url(&self) -> (r: &ParsedUrl)
        ensures
            *r == self.spec_url(),
    {
        &self.url
    }

    /// The extensions of the response.
    pub fn extensions(&self) -> (r: &Extensions)
        ensures
            *r == self.spec_extensions(),
    {
        &self.extensions
    }

    /// The extensions of the response, to change.
    pub fn extensions_mut(&mut self) -> (r: &mut Extensions)
        ensures
            *r == old(self).spec_extensions(),
            final(self).spec_extensions() == *final(r),
            final(self).headers_entries() == old(self).headers_entries(),
            final(self).spec_status() == old(self).spec_status(),
            final(self).spec_body() == old(self).spec_body(),
            final(self).spec_url() == old(self).spec_url(),
    {
        &mut self.extensions
    }

    /// The length the `Content-Length` header gives, if it is there and
    /// reads as a number.
    pub fn content_length(&self) -> (r: Option<u64>)
        ensures
            r == content_length_of(self.headers_entries()),
    {
        content_length(&self.headers)
    }

    /// The label of the encoding to decode the body's text with: the
    /// `charset` of the `Content-Type` header, else `default_encoding`.
    pub fn charset_label(&self, default_encoding: &str) -> (r: String)
        ensures
            r@ == charset_label_of(self.headers_entries(), default_encoding@),
    {
        charset_label(&self.headers, default_encoding)
    }

    /// The body, unless it has been taken out.
    pub fn body(&self) -> (r: Option<&Body<R, S>>)
        ensures
            r is Some <==> self.spec_body() is Some,
            r matches Some(b) ==> Some(*b) == self.spec_body(),
    {
        match &self.body {
            Some(b) => Some(b),
            None => None,
        }
    }

    /// Takes the body out; it can be taken once.
    pub fn take_body(&mut self) -> (b: Body<R, S>)
        requires
            old(self).spec_body() is Some,
        ensures
            b == old(self).spec_body().unwrap(),
            final(self).spec_body() is None,
            final(self).headers_entries() == old(self).headers_entries(),
            final(self).spec_status() == old(self).spec_status(),
            final(self).spec_url() == old(self).spec_url(),
    {
        match self.body.take() {
            Some(b) => b,
            None => vstd::pervasive::unreached(),
        }
    }

    /// The host stream of the body, which must not have been taken and
    /// must come from the host.
    pub fn get_raw_input_stream(&mut self) -> (r: (InputStream, IncomingBody))
        requires
            old(self).spec_body() matches Some(b) && b.kind matches Some(Kind::Incoming { .. }),
        ensures
            old(self).spec_body().unwrap().kind == Some(
                (Kind::<R, S>::Incoming { stream: r.0, incoming_body: r.1 }),
            ),
            final(self).spec_body() is None,
    {
        let body = self.take_body();
        body.into_raw_input_stream()
    }

    /// The response, or an error when its status is a client error
    /// (`400..=499`) or a server error (`500..=599`).
    pub fn error_for_status(self) -> (r: Result<Self, Error>)
        ensures
            r is Err <==> 400 <= self.spec_status()@ < 600,
            r matches Ok(s) ==> s == self,
            r matches Err(e) ==> e.kind == ErrorKind::Status(self.spec_status()@) && e.source is None
                && (e.url matches Some(u) && u@ == self.spec_url()@),
    {
        match status_error(&self.status, &self.url) {
            Some(e) => Err(e),
            None => Ok(self),
        }
    }

    /// The same check as `error_for_status`, on a borrowed response.
    pub fn error_for_status_ref(&self) -> (r: Result<&Self, Error>)
        ensures
            r is Err <==> 400 <= self.spec_status()@ < 600,
            r matches Ok(s) ==> *s == *self,
            r matches Err(e) ==> e.kind == ErrorKind::Status(self.spec_status()@) && e.source is None
                && (e.url matches Some(u) && u@ == self.spec_url()@),
    {
        match status_error(&self.status, &self.url) {
            Some(e) => Err(e),
            None => Ok(self),
        }
    }
}

} // verus!
