//! The decisions taken while moving bodies to and from the host: how much
//! of a request body to write next, how read chunks add up to a response
//! body, and how a pending response is waited for.

use vstd::prelude::*;

use crate::error::{failure_point, Error, IoErrorKind, Kind, Source};
use crate::timeout::{deadline_nanos, default_wait_nanos, Timeout};
use wasi::io::streams::OutputStream;
use wasi_async_runtime::Reactor;

verus! {

/// The size of the buffers chunks are read into.
pub const CHUNK_SIZE: usize = 4096;

#[verifier::external_type_specification]
#[verifier::external_body]
pub struct ExOutputStream(OutputStream);

/// The host stream a request body is written to, with the runtime that
/// waits for it to accept bytes.
pub struct OutputStreamWriter {
    pub stream: OutputStream,
    pub reactor: Reactor,
}

impl OutputStreamWriter {
    pub fn new(stream: OutputStream, reactor: Reactor) -> (w: OutputStreamWriter)
        ensures
            w.stream == stream,
            w.reactor == reactor,
    {
        OutputStreamWriter { stream, reactor }
    }
}

/// Writes a chunk to an output stream in as many pieces as the stream
/// permits at a time.
pub struct ChunkWriter<'a> {
    chunk: &'a [u8],
    offset: usize,
}

impl<'a> View for ChunkWriter<'a> {
    /// The whole chunk, and how much of it has been handed out.
    type V = (Seq<u8>, nat);

    closed spec fn view(&self) -> (Seq<u8>, nat) {
        (self.chunk@, self.offset as nat)
    }
}

/// The error when the stream permits no bytes at all.
pub open spec fn is_write_zero_error(e: Error, message: Seq<char>) -> bool {
    &&& e.kind == Kind::Request
    &&& e.source matches Some(Source::Io(IoErrorKind::WriteZero, m)) && m@ == message
    &&& e.url is None
}

impl<'a> ChunkWriter<'a> {
    pub closed spec fn wf(&self) -> bool {
        self.offset <= self.chunk@.len()
    }

    pub fn new(chunk: &'a [u8]) -> (w: ChunkWriter<'a>)
        ensures
            w@ == (chunk@, 0nat),
            w.wf(),
    {
        ChunkWriter { chunk, offset: 0 }
    }

    /// Whether every byte has been handed out.
    pub fn is_done(&self) -> (r: bool)
        requires
            self.wf(),
        ensures
            r == (self@.1 == self@.0.len()),
    {
        self.offset == self.chunk.len()
    }

    /// The next piece to write when the stream permits `permitted` bytes:
    /// the next `min(permitted, remaining)` bytes. A stream that permits
    /// nothing is closed, which is an error.
    pub fn next_piece(&mut self, permitted: u64) -> (r: Result<&'a [u8], Error>)
        requires
            old(self).wf(),
            old(self)@.1 < old(self)@.0.len(),
        ensures
            final(self).wf(),
            final(self)@.0 == old(self)@.0,
            permitted == 0 ==> (r matches Err(e) && is_write_zero_error(
                e,
                "Request body stream is closed (check_write returned 0)"@,
            ) && final(self)@ == old(self)@),
            permitted > 0 ==> (r matches Ok(p) && p@.len() == min_int(
                permitted as usize as int,
                old(self)@.0.len() - old(self)@.1,
            ) && p@ == old(self)@.0.subrange(old(self)@.1 as int, final(self)@.1 as int)
                && final(self)@.1 == old(self)@.1 + p@.len()),
    {
        if permitted == 0 {
            return Err(
                Error::request_io(
                    IoErrorKind::WriteZero,
                    "Request body stream is closed (check_write returned 0)".to_owned(),
                ),
            );
        }
        let max = permitted as usize;
        let remaining = self.chunk.len() - self.offset;
        let len = if max < remaining {
            max
        } else {
            remaining
        };
        let piece = vstd::slice::slice_subrange(self.chunk, self.offset, self.offset + len);
        self.offset = self.offset + len;
        Ok(piece)
    }
}

/// The smaller of two integers.
pub open spec fn min_int(a: int, b: int) -> int {
    if a < b {
        a
    } else {
        b
    }
}

/// Pieces handed out one after another join up: what was handed out before
/// a piece, followed by the piece, is what has been handed out after it.
pub proof fn law_pieces_join(chunk: Seq<u8>, before: nat, after: nat)
    requires
        before <= after <= chunk.len(),
    ensures
        chunk.take(before as int) + chunk.subrange(before as int, after as int) == chunk.take(
            after as int,
        ),
        after == chunk.len() ==> chunk.take(after as int) == chunk,
{
    assert(chunk.take(before as int) + chunk.subrange(before as int, after as int) =~= chunk.take(
        after as int,
    ));
    if after == chunk.len() {
        assert(chunk.take(after as int) =~= chunk);
    }
}

/// How a write to an output stream failed.
#[derive(Debug)]
pub enum StreamFailure {
    /// The stream is closed.
    Closed,
    /// The last operation failed, as the host describes.
    LastOperationFailed(String),
}

/// The error for a failed write of a request body.
pub fn write_failure(f: StreamFailure) -> (e: Error)
    ensures
        e.kind == Kind::Request,
        e.url is None,
        f is Closed ==> is_write_zero_error(e, "Request body stream is closed"@),
        f matches StreamFailure::LastOperationFailed(m) ==> e.source == Some(
            Source::Io(IoErrorKind::Other, m),
        ),
{
    match f {
        StreamFailure::Closed => Error::request_io(
            IoErrorKind::WriteZero,
            "Request body stream is closed".to_owned(),
        ),
        StreamFailure::LastOperationFailed(m) => Error::request_io(IoErrorKind::Other, m),
    }
}

/// What one read of a body gave.
#[derive(Debug)]
pub enum ReadEvent {
    /// Some bytes.
    Data(Vec<u8>),
    /// The end of the body.
    End,
    /// A failure.
    Failed(Error),
}

/// What a read of a host stream means for the body: the bytes read, the end
/// of the body when the stream is closed, or a body error with the host's
/// description of the failure.
pub fn host_read_event(r: Result<Vec<u8>, StreamFailure>) -> (e: ReadEvent)
    ensures
        match r {
            Ok(d) => e == ReadEvent::Data(d),
            Err(StreamFailure::Closed) => e is End,
            Err(StreamFailure::LastOperationFailed(m)) => e matches ReadEvent::Failed(err)
                && err.kind == Kind::Body && err.source == Some(Source::Message(m))
                && err.url is None,
        },
{
    match r {
        Ok(d) => ReadEvent::Data(d),
        Err(StreamFailure::Closed) => ReadEvent::End,
        Err(StreamFailure::LastOperationFailed(m)) => ReadEvent::Failed(Error::body(m)),
    }
}

/// Collects the bytes of a body from successive reads.
pub struct BodyCollector {
    bytes: Vec<u8>,
}

impl View for BodyCollector {
    type V = Seq<u8>;

    closed spec fn view(&self) -> Seq<u8> {
        self.bytes@
    }
}

impl BodyCollector {
    pub fn new() -> (c: BodyCollector)
        ensures
            c@ == Seq::<u8>::empty(),
    {
        BodyCollector { bytes: Vec::new() }
    }

    /// Takes in the result of a read: data is appended and reading goes on
    /// (`None`); the end finishes reading (`Some(Ok)`); a failure stops it
    /// with that error.
    pub fn feed(&mut self, event: ReadEvent) -> (r: Option<Result<(), Error>>)
        ensures
            match event {
                ReadEvent::Data(d) => r is None && final(self)@ == old(self)@ + d@,
                ReadEvent::End => r == Some(Ok::<(), Error>(())) && final(self)@ == old(self)@,
                ReadEvent::Failed(e) => r == Some(Err::<(), Error>(e)) && final(self)@ == old(
                    self,
                )@,
            },
    {
        match event {
            ReadEvent::Data(d) => {
                let mut d = d;
                self.bytes.append(&mut d);
                None
            },
            ReadEvent::End => Some(Ok(())),
            ReadEvent::Failed(e) => Some(Err(e)),
        }
    }

    /// The bytes collected.
    pub fn into_bytes(self) -> (r: Vec<u8>)
        ensures
            r@ == self@,
    {
        self.bytes
    }
}

/// The chunk made of what a read put into `buf`: the first `n` bytes, or
/// nothing at the end of the body (`n == 0`).
pub fn chunk_from_read(buf: Vec<u8>, n: usize) -> (r: Option<Vec<u8>>)
    requires
        n <= buf@.len(),
    ensures
        n == 0 ==> r is None,
        n > 0 ==> (r matches Some(c) && c@ == buf@.take(n as int)),
{
    if n == 0 {
        None
    } else {
        let mut buf = buf;
        buf.truncate(n);
        Some(buf)
    }
}

/// The outcome of sending a request, once the response has been waited for
/// and the body written: the response's failure if it has one, else the
/// body's failure if writing it failed, else the response.
pub fn sending_outcome<T>(response: Result<T, Error>, body: Result<(), Error>) -> (r: Result<
    T,
    Error,
>)
    ensures
        match (response, body) {
            (Err(e), _) => r == Err::<T, Error>(e),
            (Ok(_), Err(e)) => r == Err::<T, Error>(e),
            (Ok(t), Ok(())) => r == Ok::<T, Error>(t),
        },
{
    match response {
        Err(e) => Err(e),
        Ok(t) => match body {
            Err(e) => Err(e),
            Ok(()) => Ok(t),
        },
    }
}

/// The next step while waiting for a response.
#[derive(Debug)]
pub enum IncomingStep<T> {
    /// The response, or why there is none.
    Ready(Result<T, Error>),
    /// Wait for the response or for this many nanoseconds, whichever comes
    /// first, then decide with `after_wait`.
    Wait { deadline_nanos: u64 },
}

/// What a poll of the pending response gave: nothing yet (`None`), the
/// response or the host's error for it (`Some(Ok(..))`), or a failure to
/// take it (`Some(Err(()))`).
pub type IncomingPoll<T> = Option<Result<Result<T, Error>, ()>>;

/// Whether `e` is the error for a response that could not be taken.
pub open spec fn is_take_failure(e: Error) -> bool {
    &&& e.kind == Kind::Request
    &&& e.source matches Some(Source::Io(IoErrorKind::Other, m)) && m@ == "get_incoming_response"@
    &&& e.url is None
}

/// Decides on the first poll of a pending response: a result is final; when
/// nothing has arrived yet, wait until the deadline set by `timeout`.
pub fn first_poll<T>(poll: IncomingPoll<T>, timeout: &Option<Timeout>) -> (r: IncomingStep<T>)
    ensures
        match poll {
            Some(Ok(Ok(t))) => r == IncomingStep::<T>::Ready(Ok(t)),
            Some(Ok(Err(e))) => r == IncomingStep::<T>::Ready(Err(e)),
            Some(Err(())) => (r matches IncomingStep::Ready(Err(e)) && is_take_failure(e)),
            None => r == (IncomingStep::<T>::Wait {
                deadline_nanos: match *timeout {
                    Some(t) => t@ as u64,
                    None => default_wait_nanos(),
                },
            }),
        },
{
    match poll {
        Some(Ok(Ok(t))) => IncomingStep::Ready(Ok(t)),
        Some(Ok(Err(e))) => IncomingStep::Ready(Err(e)),
        Some(Err(())) => IncomingStep::Ready(Err(failure_point("get_incoming_response", ()))),
        None => IncomingStep::Wait { deadline_nanos: deadline_nanos(timeout) },
    }
}

/// Decides after waiting: the response if it came, the host's error, or a
/// time-out when the deadline passed first (`None`).
pub fn after_wait<T>(poll: IncomingPoll<T>) -> (r: Result<T, Error>)
    ensures
        match poll {
            Some(Ok(Ok(t))) => r == Ok::<T, Error>(t),
            Some(Ok(Err(e))) => r == Err::<T, Error>(e),
            Some(Err(())) => (r matches Err(e) && is_take_failure(e)),
            None => (r matches Err(e) && e.kind == Kind::Request && (e.source matches Some(
                Source::Io(IoErrorKind::TimedOut, m),
            ) && m@ == "Request timed out"@) && e.url is None),
        },
{
    match poll {
        Some(Ok(Ok(t))) => Ok(t),
        Some(Ok(Err(e))) => Err(e),
        Some(Err(())) => Err(failure_point("get_incoming_response", ())),
        None => Err(Error::timed_out()),
    }
}

} // verus!
