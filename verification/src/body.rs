//! Request and response bodies.

use vstd::prelude::*;

use crate::chunk::{handed_out, next_chunk_len};
use crate::headers::ascii_chars;
use crate::number::decimal_digits;
use crate::byte_buf::{
    bytes_as_slice, bytes_clone, bytes_contents, bytes_from_static, bytes_from_vec, ExBytes,
};
use bytes::Bytes;
use wasi::http::types::IncomingBody;
use wasi::io::streams::InputStream;

verus! {

#[verifier::external_type_specification]
#[verifier::external_body]
pub struct ExInputStream(InputStream);

#[verifier::external_type_specification]
#[verifier::external_body]
pub struct ExIncomingBody(IncomingBody);

/// Where the bytes of a body come from.
///
/// `R` is a reader supplied by the user, `S` a stream of chunks supplied by
/// the user.
pub enum Kind<R, S> {
    /// A reader, with the number of bytes it holds when known in advance.
    Reader(R, Option<u64>),
    /// Bytes held in memory.
    Bytes(Bytes),
    /// The body of a response, read from the host.
    Incoming { stream: InputStream, incoming_body: IncomingBody },
    /// A stream of chunks.
    Stream(S),
}

/// A request or response body; `kind` is `None` once the body has been
/// taken apart.
pub struct Body<R, S> {
    pub kind: Option<Kind<R, S>>,
}

/// A reader over a body.
pub enum Reader<R> {
    Reader(R),
    Bytes(BytesCursor),
    Wasi { body_stream: InputStream, incoming_body: IncomingBody },
}

/// A reader over a body that may also be a stream of chunks.
pub enum AsyncReader<R, S> {
    ReaderBased { reader: Reader<R> },
    StreamBased { stream: S },
}

/// What buffering a body has to do.
#[derive(Debug)]
pub enum BufferStep {
    /// Nothing: the body already holds its bytes.
    Ready,
    /// Read the user's reader to its end, with room for the length it was
    /// given, if any.
    ReadReader(Option<u64>),
    /// Read the host stream to its end.
    ReadHost,
    /// Take every chunk of the stream.
    ReadStream,
    /// Nothing can be done: the body has been taken apart.
    Taken,
}

/// The `Debug` text of a `bytes::Bytes` holding `b`, as the `bytes` crate
/// writes it.
pub uninterp spec fn bytes_debug_text(b: Seq<u8>) -> Seq<char>;

/// `format!("{:?}", ..)` on a `Bytes`: its `Debug` text.
#[verifier::external_body]
fn bytes_debug(b: &Bytes) -> (r: String)
    ensures
        r@ == bytes_debug_text(bytes_contents(*b)),
{
    format!("{:?}", b)
}

/// `u64::to_string`: the number in decimal.
#[verifier::external_body]
fn u64_text(n: u64) -> (r: String)
    ensures
        r@ == ascii_chars(decimal_digits(n as nat)),
{
    n.to_string()
}

/// How a body's source is described.
pub open spec fn kind_description<R, S>(k: Kind<R, S>) -> Seq<char> {
    match k {
        Kind::Reader(_, Some(n)) => "Reader { length: "@ + ascii_chars(decimal_digits(n as nat))
            + " }"@,
        Kind::Reader(_, None) => "Reader { length: Unknown }"@,
        Kind::Bytes(b) => bytes_debug_text(bytes_contents(b)),
        Kind::Incoming { .. } => "Incoming"@,
        Kind::Stream(_) => "Stream"@,
    }
}

/// How a body is described.
pub open spec fn body_description<R, S>(b: Body<R, S>) -> Seq<char> {
    match b.kind {
        Some(k) => "Body { kind: Some("@ + kind_description(k) + ") }"@,
        None => "Body { kind: None }"@,
    }
}

/// A read position in a byte buffer.
pub struct BytesCursor {
    bytes: Bytes,
    pos: usize,
}

impl View for BytesCursor {
    /// The bytes and the read position.
    type V = (Seq<u8>, nat);

    closed spec fn view(&self) -> (Seq<u8>, nat) {
        (bytes_contents(self.bytes), self.pos as nat)
    }
}

impl BytesCursor {
    pub closed spec fn wf(&self) -> bool {
        self.pos <= bytes_contents(self.bytes).len()
    }

    pub fn new(bytes: Bytes) -> (c: BytesCursor)
        ensures
            c@ == (bytes_contents(bytes), 0nat),
            c.wf(),
    {
        BytesCursor { bytes, pos: 0 }
    }

    /// Reads the next `min(max, remaining)` bytes and moves past them.
    pub fn read_chunk(&mut self, max: usize) -> (r: Vec<u8>)
        requires
            old(self).wf(),
        ensures
            final(self).wf(),
            final(self)@.0 == old(self)@.0,
            r@ == old(self)@.0.subrange(
                old(self)@.1 as int,
                (old(self)@.1 + min_nat(max as nat, (old(self)@.0.len() - old(self)@.1) as nat)) as int,
            ),
            final(self)@.1 == old(self)@.1 + r@.len(),
    {
        let s = bytes_as_slice(&self.bytes);
        let remaining = s.len() - self.pos;
        let n = if max < remaining {
            max
        } else {
            remaining
        };
        let chunk = vstd::slice::slice_subrange(s, self.pos, self.pos + n);
        self.pos = self.pos + n;
        vstd::slice::slice_to_vec(chunk)
    }
}

/// Reading a cursor `size` bytes at a time hands out the chunks of the
/// bytes: at any position short of the end, the next read gives the first
/// of the chunks of what remains and leaves the others; at the end it gives
/// nothing.
pub proof fn law_cursor_reads_chunks(b: Seq<u8>, pos: nat, size: nat)
    requires
        size > 0,
        pos <= b.len(),
    ensures
        pos == b.len() ==> b.subrange(pos as int, (pos + min_nat(size, (b.len() - pos) as nat)) as int)
            == Seq::<u8>::empty() && handed_out(b.skip(pos as int), size) == Seq::<Seq<u8>>::empty(),
        pos < b.len() ==> ({
            let k = min_nat(size, (b.len() - pos) as nat);
            &&& handed_out(b.skip(pos as int), size).len() > 0
            &&& b.subrange(pos as int, (pos + k) as int) == handed_out(b.skip(pos as int), size)[0]
            &&& handed_out(b.skip((pos + k) as int), size) == handed_out(
                b.skip(pos as int),
                size,
            ).drop_first()
        }),
{
    let rest = b.skip(pos as int);
    if pos == b.len() {
        assert(rest.len() == 0);
        assert(b.subrange(pos as int, pos as int) =~= Seq::<u8>::empty());
    } else {
        let k = min_nat(size, (b.len() - pos) as nat);
        assert(k == next_chunk_len(rest, size));
        let h = handed_out(rest, size);
        assert(h =~= seq![rest.take(k as int)] + handed_out(rest.skip(k as int), size));
        assert(rest.take(k as int) =~= b.subrange(pos as int, (pos + k) as int));
        assert(rest.skip(k as int) =~= b.skip((pos + k) as int));
        assert(h.drop_first() =~= handed_out(rest.skip(k as int), size));
    }
}

/// The smaller of two numbers.
pub open spec fn min_nat(a: nat, b: nat) -> nat {
    if a < b {
        a
    } else {
        b
    }
}

impl<R, S> Body<R, S> {
    /// A body read from `reader`, of unknown length.
    pub fn new(reader: R) -> (b: Self)
        ensures
            b.kind == Some(Kind::<R, S>::Reader(reader, None)),
    {
        Body { kind: Some(Kind::Reader(reader, None)) }
    }

    /// A body read from `reader`, holding `len` bytes.
    pub fn sized(reader: R, len: u64) -> (b: Self)
        ensures
            b.kind == Some(Kind::<R, S>::Reader(reader, Some(len))),
    {
        Body { kind: Some(Kind::Reader(reader, Some(len))) }
    }

    /// A body made of the chunks of `stream`.
    pub fn from_stream(stream: S) -> (b: Self)
        ensures
            b.kind == Some(Kind::<R, S>::Stream(stream)),
    {
        Body { kind: Some(Kind::Stream(stream)) }
    }

    /// A body holding the bytes of a buffer.
    pub fn from_bytes(bytes: Bytes) -> (b: Self)
        ensures
            b.kind == Some(Kind::<R, S>::Bytes(bytes)),
    {
        Body { kind: Some(Kind::Bytes(bytes)) }
    }

    /// A body holding the bytes of a vector.
    pub fn from_vec(v: Vec<u8>) -> (b: Self)
        ensures
            b.held_bytes() == Some(v@),
    {
        Body { kind: Some(Kind::Bytes(bytes_from_vec(v))) }
    }

    /// A body holding the UTF-8 bytes of a string.
    pub fn from_string(s: String) -> (b: Self)
        ensures
            b.held_bytes() == Some(vstd::utf8::encode_utf8(s@)),
    {
        let v = vstd::slice::slice_to_vec(s.as_str().as_bytes());
        Body::from_vec(v)
    }

    /// A body holding static bytes.
    pub fn from_static_bytes(s: &'static [u8]) -> (b: Self)
        ensures
            b.held_bytes() == Some(s@),
    {
        Body { kind: Some(Kind::Bytes(bytes_from_static(s))) }
    }

    /// A body holding the UTF-8 bytes of a static string.
    pub fn from_static_str(s: &'static str) -> (b: Self)
        ensures
            b.held_bytes() == Some(vstd::utf8::encode_utf8(s@)),
    {
        Body::from_static_bytes(s.as_bytes())
    }

    /// A response body read from the host.
    pub fn from_incoming(stream: InputStream, incoming_body: IncomingBody) -> (b: Self)
        ensures
            b.kind == Some((Kind::<R, S>::Incoming { stream, incoming_body })),
    {
        Body { kind: Some(Kind::Incoming { stream, incoming_body }) }
    }

    /// The bytes the body holds in memory, if it does.
    pub open spec fn held_bytes(&self) -> Option<Seq<u8>> {
        match self.kind {
            Some(Kind::Bytes(b)) => Some(bytes_contents(b)),
            _ => None,
        }
    }

    /// The body's bytes when it holds them in memory; `None` for readers,
    /// streams and host bodies.
    pub fn as_bytes(&self) -> (r: Option<&[u8]>)
        ensures
            r is Some <==> self.held_bytes() is Some,
            r matches Some(s) ==> s@ == self.held_bytes().unwrap(),
    {
        match &self.kind {
            Some(Kind::Bytes(b)) => Some(bytes_as_slice(b)),
            _ => None,
        }
    }

    /// A description of the body for debugging: the length of a reader
    /// (`Unknown` when not given), the bytes held, or which kind of stream it
    /// reads.
    pub fn describe(&self) -> (r: String)
        ensures
            r@ == body_description(*self),
    {
        match &self.kind {
            None => String::from_str("Body { kind: None }"),
            Some(k) => {
                let mut s = String::from_str("Body { kind: Some(");
                match k {
                    Kind::Reader(_, Some(n)) => {
                        s.append("Reader { length: ");
                        let t = u64_text(*n);
                        s.append(t.as_str());
                        s.append(" }");
                    },
                    Kind::Reader(_, None) => {
                        s.append("Reader { length: Unknown }");
                    },
                    Kind::Bytes(b) => {
                        let t = bytes_debug(b);
                        s.append(t.as_str());
                    },
                    Kind::Incoming { .. } => {
                        s.append("Incoming");
                    },
                    Kind::Stream(_) => {
                        s.append("Stream");
                    },
                }
                s.append(") }");
                s
            },
        }
    }

    /// What buffering the body has to do: nothing when it holds its bytes
    /// already, otherwise read its source to the end.
    pub fn buffer_step(&self) -> (r: BufferStep)
        ensures
            r == buffer_step_of(*self),
    {
        match &self.kind {
            Some(Kind::Bytes(_)) => BufferStep::Ready,
            Some(Kind::Reader(_, len)) => BufferStep::ReadReader(*len),
            Some(Kind::Incoming { .. }) => BufferStep::ReadHost,
            Some(Kind::Stream(_)) => BufferStep::ReadStream,
            None => BufferStep::Taken,
        }
    }

    /// Replaces the body by the bytes read from it and hands them out.
    pub fn set_buffered(&mut self, bytes: Vec<u8>) -> (r: &[u8])
        ensures
            final(self).held_bytes() == Some(bytes@),
            r@ == bytes@,
    {
        self.kind = Some(Kind::Bytes(bytes_from_vec(bytes)));
        match &self.kind {
            Some(Kind::Bytes(b)) => bytes_as_slice(b),
            _ => vstd::pervasive::unreached(),
        }
    }

    /// The host stream behind a response body; only such a body has one.
    pub fn into_raw_input_stream(self) -> (r: (InputStream, IncomingBody))
        requires
            self.kind matches Some(Kind::Incoming { .. }),
        ensures
            self.kind == Some((Kind::<R, S>::Incoming { stream: r.0, incoming_body: r.1 })),
    {
        match self.kind {
            Some(Kind::Incoming { stream, incoming_body }) => (stream, incoming_body),
            _ => vstd::pervasive::unreached(),
        }
    }

    /// A reader over the body; a stream body has none.
    pub fn into_reader(self) -> (r: Reader<R>)
        requires
            self.kind is Some,
            !(self.kind matches Some(Kind::Stream(_))),
        ensures
            match self.kind {
                Some(Kind::Reader(rd, _)) => r == Reader::<R>::Reader(rd),
                Some(Kind::Bytes(b)) => r matches Reader::Bytes(c) && c@ == (
                    bytes_contents(b),
                    0nat,
                ) && c.wf(),
                Some(Kind::Incoming { stream, incoming_body }) => r == (Reader::<R>::Wasi {
                    body_stream: stream,
                    incoming_body,
                }),
                _ => false,
            },
    {
        match self.kind {
            Some(Kind::Reader(r, _)) => Reader::Reader(r),
            Some(Kind::Bytes(b)) => Reader::Bytes(BytesCursor::new(b)),
            Some(Kind::Incoming { stream, incoming_body }) => Reader::Wasi {
                body_stream: stream,
                incoming_body,
            },
            _ => vstd::pervasive::unreached(),
        }
    }

    /// A reader that may also follow a stream of chunks.
    pub fn into_async_reader(self) -> (r: AsyncReader<R, S>)
        requires
            self.kind is Some,
        ensures
            match self.kind {
                Some(Kind::Stream(s)) => r == (AsyncReader::<R, S>::StreamBased { stream: s }),
                Some(Kind::Reader(rd, _)) => r == (AsyncReader::<R, S>::ReaderBased {
                    reader: Reader::Reader(rd),
                }),
                Some(Kind::Bytes(b)) => (r matches AsyncReader::ReaderBased {
                    reader: Reader::Bytes(c),
                } && c@ == (bytes_contents(b), 0nat) && c.wf()),
                Some(Kind::Incoming { stream, incoming_body }) => r
                    == (AsyncReader::<R, S>::ReaderBased {
                    reader: Reader::Wasi { body_stream: stream, incoming_body },
                }),
                None => false,
            },
    {
        match self.kind {
            Some(Kind::Stream(s)) => AsyncReader::StreamBased { stream: s },
            other => {
                let body = Body { kind: other };
                AsyncReader::ReaderBased { reader: body.into_reader() }
            },
        }
    }

    /// A copy of the body when it holds its bytes in memory; readers,
    /// streams and host bodies cannot be copied.
    pub fn try_clone(&self) -> (r: Option<Self>)
        requires
            self.kind is Some,
        ensures
            r is Some <==> self.held_bytes() is Some,
            r matches Some(b) ==> b.held_bytes() == self.held_bytes(),
    {
        match &self.kind {
            Some(Kind::Bytes(b)) => Some(Body { kind: Some(Kind::Bytes(bytes_clone(b))) }),
            _ => None,
        }
    }

    /// The number of bytes in the body, when known: the length a reader was
    /// given, or the length of bytes held in memory.
    pub fn len(&self) -> (r: Option<u64>)
        ensures
            r == match self.kind {
                Some(Kind::Reader(_, len)) => len,
                Some(Kind::Bytes(b)) => Some(bytes_contents(b).len() as u64),
                _ => None,
            },
    {
        match &self.kind {
            Some(Kind::Reader(_, len)) => *len,
            Some(Kind::Bytes(b)) => Some(bytes_as_slice(b).len() as u64),
            _ => None,
        }
    }
}

/// What buffering `b` has to do.
pub open spec fn buffer_step_of<R, S>(b: Body<R, S>) -> BufferStep {
    match b.kind {
        Some(Kind::Bytes(_)) => BufferStep::Ready,
        Some(Kind::Reader(_, len)) => BufferStep::ReadReader(len),
        Some(Kind::Incoming { .. }) => BufferStep::ReadHost,
        Some(Kind::Stream(_)) => BufferStep::ReadStream,
        None => BufferStep::Taken,
    }
}

/// Buffering reads a body's own source, and nothing else: a host body's
/// stream, a reader with the length it was given, a stream of chunks; a body
/// holding bytes is not read again, and one taken apart cannot be buffered.
pub proof fn law_buffer_reads_the_source<R, S>(
    stream: InputStream,
    incoming_body: IncomingBody,
    reader: R,
    len: Option<u64>,
    chunks: S,
    bytes: Bytes,
)
    ensures
        buffer_step_of(Body::<R, S> { kind: Some(Kind::Incoming { stream, incoming_body }) })
            is ReadHost,
        buffer_step_of(Body::<R, S> { kind: Some(Kind::Reader(reader, len)) })
            == BufferStep::ReadReader(len),
        buffer_step_of(Body::<R, S> { kind: Some(Kind::Stream(chunks)) }) is ReadStream,
        buffer_step_of(Body::<R, S> { kind: Some(Kind::Bytes(bytes)) }) is Ready,
        buffer_step_of(Body::<R, S> { kind: None }) is Taken,
{
}

/// Buffering settles a body: a body that holds bytes, as `set_buffered`
/// leaves it, has nothing more to read when buffered again, and `as_bytes`
/// hands back those bytes.
pub proof fn law_buffer_settles<R, S>(b: Body<R, S>, bytes: Seq<u8>)
    requires
        b.held_bytes() == Some(bytes),
    ensures
        buffer_step_of(b) is Ready,
        b.kind matches Some(Kind::Bytes(x)) && bytes_contents(x) == bytes,
{
}

impl<R> Reader<R> {
    pub fn into_async<S>(self) -> (r: AsyncReader<R, S>)
        ensures
            r == (AsyncReader::<R, S>::ReaderBased { reader: self }),
    {
        AsyncReader::ReaderBased { reader: self }
    }
}

} // verus!
