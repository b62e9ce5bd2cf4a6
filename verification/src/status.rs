//! Response status codes and protocol versions.

use vstd::prelude::*;

use crate::error::{Error, Kind, Source};
use http::status::InvalidStatusCode;

verus! {

#[verifier::external_type_specification]
#[verifier::external_body]
pub struct ExInvalidStatusCode(InvalidStatusCode);

/// `http::StatusCode::from_u16`, read back as its number: accepts
/// `100..=999` and keeps the number.
#[verifier::external_body]
fn status_from_u16(code: u16) -> (r: Result<u16, InvalidStatusCode>)
    ensures
        r is Ok <==> 100 <= code <= 999,
        r matches Ok(c) ==> c == code,
{
    match http::StatusCode::from_u16(code) {
        Ok(s) => Ok(s.as_u16()),
        Err(e) => Err(e),
    }
}

/// An HTTP status code: a number in `100..=999`.
#[derive(Debug)]
pub struct StatusCode {
    code: u16,
}

impl View for StatusCode {
    type V = u16;

    closed spec fn view(&self) -> u16 {
        self.code
    }
}

impl StatusCode {
    /// The code itself is in range.
    pub closed spec fn wf(&self) -> bool {
        100 <= self.code <= 999
    }

    /// A status code from its number; numbers outside `100..=999` are
    /// refused with a decode error.
    pub fn from_u16(code: u16) -> (r: Result<StatusCode, Error>)
        ensures
            r is Ok <==> 100 <= code <= 999,
            r matches Ok(s) ==> s@ == code && s.wf(),
            r matches Err(e) ==> e.kind == Kind::Decode && e.source == Some(
                Source::InvalidStatusCode,
            ) && e.url is None,
    {
        match status_from_u16(code) {
            Ok(c) => Ok(StatusCode { code: c }),
            Err(_) => Err(Error::new(Kind::Decode, Some(Source::InvalidStatusCode))),
        }
    }

    pub fn as_u16(&self) -> (r: u16)
        ensures
            r == self@,
    {
        self.code
    }

    /// Whether the status is in `400..=499`.
    pub fn is_client_error(&self) -> (r: bool)
        ensures
            r == (400 <= self@ < 500),
    {
        400 <= self.code && self.code < 500
    }

    /// Whether the status is in `500..=599`.
    pub fn is_server_error(&self) -> (r: bool)
        ensures
            r == (500 <= self@ < 600),
    {
        500 <= self.code && self.code < 600
    }

    pub fn copy(&self) -> (r: StatusCode)
        ensures
            r@ == self@,
            self.wf() ==> r.wf(),
    {
        StatusCode { code: self.code }
    }
}

/// The HTTP protocol version of a response.
#[derive(Debug)]
pub enum Version {
    Http09,
    Http10,
    Http11,
    H2,
    H3,
}

} // verus!
