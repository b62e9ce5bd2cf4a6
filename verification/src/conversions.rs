//! Errors of the WASI HTTP interface turned into errors of this crate.

use vstd::prelude::*;

use crate::error::{Error, IoErrorKind, Kind, Source};
use wasi::http::types::{ErrorCode, HeaderError};
use wasi::io::streams::StreamError;

verus! {

#[verifier::external_type_specification]
#[verifier::external_body]
pub struct ExErrorCode(ErrorCode);

#[verifier::external_type_specification]
#[verifier::external_body]
pub struct ExHeaderError(HeaderError);

#[verifier::external_type_specification]
#[verifier::external_body]
pub struct ExStreamError(StreamError);

/// The `Debug` text of an `ErrorCode`, as its `Debug` writes it.
pub uninterp spec fn error_code_text(e: ErrorCode) -> Seq<char>;

/// `format!("{:?}", ..)` on an `ErrorCode`: its `Debug` text.
#[verifier::external_body]
fn debug_error_code(e: &ErrorCode) -> (r: String)
    ensures
        r@ == error_code_text(*e),
{
    format!("{:?}", e)
}

/// The `Debug` text of a `HeaderError`, as its `Debug` writes it.
pub uninterp spec fn header_error_text(e: HeaderError) -> Seq<char>;

/// `format!("{:?}", ..)` on a `HeaderError`: its `Debug` text.
#[verifier::external_body]
fn debug_header_error(e: &HeaderError) -> (r: String)
    ensures
        r@ == header_error_text(*e),
{
    format!("{:?}", e)
}

/// The `Debug` text of a `StreamError`, as its `Debug` writes it; for a
/// failed operation it shows the number of the host's error handle the value
/// holds.
pub uninterp spec fn stream_error_text(e: StreamError) -> Seq<char>;

/// `format!("{:?}", ..)` on a `StreamError`: its `Debug` text.
#[verifier::external_body]
fn debug_stream_error(e: &StreamError) -> (r: String)
    ensures
        r@ == stream_error_text(*e),
{
    format!("{:?}", e)
}

/// Whether `e` is a request error carrying an I/O error of kind `Other`.
pub open spec fn is_host_request_error(e: Error) -> bool {
    &&& e.kind == Kind::Request
    &&& e.source matches Some(Source::Io(IoErrorKind::Other, _))
    &&& e.url is None
}

/// The error for a failure the host reports for a request, described by
/// the failure's `Debug` text.
pub fn error_from_error_code(e: &ErrorCode) -> (r: Error)
    ensures
        is_host_request_error(r),
        r.source matches Some(Source::Io(IoErrorKind::Other, m)) && m@ == error_code_text(*e),
{
    Error::request_io(IoErrorKind::Other, debug_error_code(e))
}

/// The error for header fields the host refuses, described by the
/// refusal's `Debug` text.
pub fn error_from_header_error(e: &HeaderError) -> (r: Error)
    ensures
        is_host_request_error(r),
        r.source matches Some(Source::Io(IoErrorKind::Other, m)) && m@ == header_error_text(*e),
{
    Error::request_io(IoErrorKind::Other, debug_header_error(e))
}

/// The error for a failed stream operation, described by the failure's
/// `Debug` text.
pub fn error_from_stream_error(e: &StreamError) -> (r: Error)
    ensures
        is_host_request_error(r),
        r.source matches Some(Source::Io(IoErrorKind::Other, m)) && m@ == stream_error_text(*e),
{
    Error::request_io(IoErrorKind::Other, debug_stream_error(e))
}

} // verus!
