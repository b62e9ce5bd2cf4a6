use vstd::prelude::*;

use crate::url::ParsedUrl;

verus! {

/// What went wrong, in broad strokes.
#[derive(Debug)]
pub enum Kind {
    /// The client or the request could not be built.
    Builder,
    /// Sending the request or receiving the response failed.
    Request,
    /// The server answered with a client or server error status.
    Status(u16),
    /// Reading or writing a body failed.
    Body,
    /// The response could not be decoded.
    Decode,
}

/// The kind of I/O failure carried by an error raised at an I/O boundary.
#[derive(Debug)]
pub enum IoErrorKind {
    Other,
    TimedOut,
    WriteZero,
}

/// What caused an error.
#[derive(Debug)]
pub enum Source {
    /// An I/O error with its kind and message.
    Io(IoErrorKind, String),
    /// A failure reported by the host as text.
    Message(String),
    /// A status number outside `100..=999`.
    InvalidStatusCode,
    /// A header value holding a byte that is not allowed in a header.
    InvalidHeaderValue,
    /// A URL that could not be parsed.
    InvalidUrl,
}

/// The error type of this crate.
#[derive(Debug)]
pub struct Error {
    pub kind: Kind,
    pub source: Option<Source>,
    /// The URL of the request the error belongs to, if known.
    pub url: Option<ParsedUrl>,
}

impl Error {
    /// An error of the given kind with the given cause.
    pub fn new(kind: Kind, source: Option<Source>) -> (e: Error)
        ensures
            e.kind == kind,
            e.source == source,
            e.url is None,
    {
        Error { kind, source, url: None }
    }
}

impl Error {
    /// The error raised while building, for the given cause.
    pub open spec fn builder_spec(source: Source) -> Error {
        Error { kind: Kind::Builder, source: Some(source), url: None }
    }

    /// An error raised while building a client or a request.
    pub fn builder(source: Source) -> (e: Error)
        ensures
            e == Error::builder_spec(source),
    {
        Error::new(Kind::Builder, Some(source))
    }

    /// A body could not be read; `message` says why.
    pub fn body(message: String) -> (e: Error)
        ensures
            e.kind == Kind::Body,
            e.source == Some(Source::Message(message)),
            e.url is None,
    {
        Error::new(Kind::Body, Some(Source::Message(message)))
    }

    /// The response did not arrive in time.
    pub fn timed_out() -> (e: Error)
        ensures
            e.kind == Kind::Request,
            e.source matches Some(Source::Io(IoErrorKind::TimedOut, msg)) && msg@
                == "Request timed out"@,
            e.url is None,
    {
        Error::new(Kind::Request, Some(Source::Io(IoErrorKind::TimedOut, "Request timed out".to_owned())))
    }

    /// A request failed with an I/O error of the given kind and message.
    pub fn request_io(kind: IoErrorKind, message: String) -> (e: Error)
        ensures
            e.kind == Kind::Request,
            e.source == Some(Source::Io(kind, message)),
            e.url is None,
    {
        Error::new(Kind::Request, Some(Source::Io(kind, message)))
    }

    /// The server answered `url` with the error status `code`.
    pub fn status_code(url: ParsedUrl, code: u16) -> (e: Error)
        ensures
            e.kind == Kind::Status(code),
            e.source is None,
            e.url == Some(url),
    {
        Error { kind: Kind::Status(code), source: None, url: Some(url) }
    }
}

/// The error reported when the host refuses one of the request-building
/// steps named by `s`.
pub fn failure_point(s: &str, _unit: ()) -> (e: Error)
    ensures
        e.kind == Kind::Request,
        e.source matches Some(Source::Io(IoErrorKind::Other, msg)) && msg@ == s@,
        e.url is None,
{
    Error::new(Kind::Request, Some(Source::Io(IoErrorKind::Other, s.to_owned())))
}

} // verus!
