use reqwest::body::{AsyncReader, Body, BufferStep, Kind, Reader};
use reqwest::error::{IoErrorKind, Kind as ErrorKind, Source};
use reqwest::transfer::{
    after_wait, chunk_from_read, first_poll, sending_outcome, host_read_event, write_failure,
    BodyCollector,
    ChunkWriter, IncomingStep, ReadEvent, StreamFailure,
};
use reqwest::timeout::Timeout;
use reqwest::Error;

type TestBody = Body<std::io::Cursor<Vec<u8>>, ()>;

#[test]
fn writer_hands_out_what_the_stream_permits() {
    let data = b"abcdefghij".to_vec();
    let mut w = ChunkWriter::new(&data);
    let mut written = Vec::new();
    for permit in [3u64, 100, 4] {
        if w.is_done() {
            break;
        }
        let piece = w.next_piece(permit).unwrap();
        written.extend_from_slice(piece);
    }
    assert!(w.is_done());
    assert_eq!(written, data);
    let mut w2 = ChunkWriter::new(&data);
    assert_eq!(w2.next_piece(4).unwrap(), b"abcd");
    assert_eq!(w2.next_piece(10).unwrap(), b"efghij");
}

#[test]
fn writer_refuses_a_closed_stream() {
    let data = b"abc".to_vec();
    let mut w = ChunkWriter::new(&data);
    let e = w.next_piece(0).unwrap_err();
    assert!(matches!(e.kind, ErrorKind::Request));
    match e.source {
        Some(Source::Io(IoErrorKind::WriteZero, m)) => {
            assert_eq!(m, "Request body stream is closed (check_write returned 0)")
        }
        other => panic!("unexpected {:?}", other),
    }
    assert_eq!(w.next_piece(1).unwrap(), b"a");
}

#[test]
fn write_failures() {
    match write_failure(StreamFailure::Closed).source {
        Some(Source::Io(IoErrorKind::WriteZero, m)) => assert_eq!(m, "Request body stream is closed"),
        other => panic!("unexpected {:?}", other),
    }
    match write_failure(StreamFailure::LastOperationFailed("broken".to_string())).source {
        Some(Source::Io(IoErrorKind::Other, m)) => assert_eq!(m, "broken"),
        other => panic!("unexpected {:?}", other),
    }
}

#[test]
fn collector_joins_chunks_until_the_end() {
    let mut c = BodyCollector::new();
    assert!(c.feed(ReadEvent::Data(b"hel".to_vec())).is_none());
    assert!(c.feed(ReadEvent::Data(Vec::new())).is_none());
    assert!(c.feed(ReadEvent::Data(b"lo".to_vec())).is_none());
    assert!(matches!(c.feed(ReadEvent::End), Some(Ok(()))));
    assert_eq!(c.into_bytes(), b"hello".to_vec());
    let mut c = BodyCollector::new();
    let r = c.feed(ReadEvent::Failed(Error::body("gone".to_string())));
    match r {
        Some(Err(e)) => assert!(matches!(e.kind, ErrorKind::Body)),
        other => panic!("unexpected {:?}", other),
    }
}

#[test]
fn chunks_from_reads() {
    assert_eq!(chunk_from_read(vec![1, 2, 3, 4], 2), Some(vec![1, 2]));
    assert_eq!(chunk_from_read(vec![1, 2, 3, 4], 0), None);
    assert_eq!(chunk_from_read(vec![1, 2, 0, 0], 2), Some(vec![1, 2]));
    assert_eq!(chunk_from_read(vec![1, 2], 0), None);
}

#[test]
fn waiting_for_a_response() {
    match first_poll::<u8>(Some(Ok(Ok(7))), &None) {
        IncomingStep::Ready(Ok(7)) => {}
        other => panic!("unexpected {:?}", other),
    }
    match first_poll::<u8>(None, &None) {
        IncomingStep::Wait { deadline_nanos } => assert_eq!(deadline_nanos, 10_000_000_000_000_000_000),
        other => panic!("unexpected {:?}", other),
    }
    match first_poll::<u8>(None, &Some(Timeout::from_millis(250))) {
        IncomingStep::Wait { deadline_nanos } => assert_eq!(deadline_nanos, 250_000_000),
        other => panic!("unexpected {:?}", other),
    }
    match first_poll::<u8>(Some(Err(())), &None) {
        IncomingStep::Ready(Err(e)) => match e.source {
            Some(Source::Io(IoErrorKind::Other, m)) => assert_eq!(m, "get_incoming_response"),
            other => panic!("unexpected {:?}", other),
        },
        other => panic!("unexpected {:?}", other),
    }
    let e = after_wait::<u8>(None).unwrap_err();
    match e.source {
        Some(Source::Io(IoErrorKind::TimedOut, m)) => assert_eq!(m, "Request timed out"),
        other => panic!("unexpected {:?}", other),
    }
    assert_eq!(after_wait::<u8>(Some(Ok(Ok(3)))).unwrap(), 3);
    let host = after_wait::<u8>(Some(Ok(Err(Error::body("x".to_string()))))).unwrap_err();
    assert!(matches!(host.kind, ErrorKind::Body));
}

#[test]
fn bodies_in_memory() {
    let b = TestBody::from_vec(b"abc".to_vec());
    assert_eq!(b.as_bytes(), Some(&b"abc"[..]));
    assert_eq!(b.len(), Some(3));
    let c = b.try_clone().unwrap();
    assert_eq!(c.as_bytes(), Some(&b"abc"[..]));
    assert_eq!(TestBody::from_string("héllo".to_string()).as_bytes(), Some("héllo".as_bytes()));
    assert_eq!(TestBody::from_static_str("static").len(), Some(6));
    assert_eq!(TestBody::from_static_bytes(b"xy").as_bytes(), Some(&b"xy"[..]));
}

#[test]
fn bodies_from_readers_and_streams() {
    let r = TestBody::new(std::io::Cursor::new(vec![1, 2]));
    assert!(r.as_bytes().is_none());
    assert_eq!(r.len(), None);
    assert!(r.try_clone().is_none());
    let s = TestBody::sized(std::io::Cursor::new(vec![1, 2]), 2);
    assert_eq!(s.len(), Some(2));
    let st = TestBody::from_stream(());
    assert!(st.len().is_none() && st.as_bytes().is_none() && st.try_clone().is_none());
    assert!(matches!(st.into_async_reader(), AsyncReader::StreamBased { .. }));
}

#[test]
fn buffering_replaces_the_body_by_its_bytes() {
    let mut b = TestBody::new(std::io::Cursor::new(vec![9]));
    assert_eq!(b.set_buffered(vec![9, 8]), &[9, 8]);
    assert_eq!(b.as_bytes(), Some(&[9u8, 8][..]));
    assert!(matches!(b.kind, Some(Kind::Bytes(_))));
}

#[test]
fn reading_bytes_through_a_reader() {
    let b = TestBody::from_vec((0u8..10).collect());
    match b.into_reader() {
        Reader::Bytes(mut c) => {
            assert_eq!(c.read_chunk(4), vec![0, 1, 2, 3]);
            assert_eq!(c.read_chunk(4), vec![4, 5, 6, 7]);
            assert_eq!(c.read_chunk(4), vec![8, 9]);
            assert_eq!(c.read_chunk(4), Vec::<u8>::new());
        }
        _ => panic!("expected a byte reader"),
    }
}

#[test]
fn host_reads_become_body_events() {
    assert!(matches!(host_read_event(Ok(b"ab".to_vec())), ReadEvent::Data(ref d) if d == b"ab"));
    assert!(matches!(host_read_event(Err(StreamFailure::Closed)), ReadEvent::End));
    match host_read_event(Err(StreamFailure::LastOperationFailed("boom".to_string()))) {
        ReadEvent::Failed(e) => {
            assert!(matches!(e.kind, ErrorKind::Body));
            assert!(matches!(e.source, Some(Source::Message(ref m)) if m == "boom"));
            assert!(e.url.is_none());
        }
        _ => panic!("expected a failure"),
    }
}

#[test]
fn a_failed_body_write_fails_the_request() {
    let ok: Result<u8, Error> = Ok(1);
    assert!(matches!(sending_outcome(ok, Ok(())), Ok(1)));
    let r = sending_outcome(Ok::<u8, Error>(1), Err(Error::body("w".to_string())));
    assert!(matches!(r, Err(ref e) if matches!(e.kind, ErrorKind::Body)));
    let r = sending_outcome(Err::<u8, Error>(Error::timed_out()), Err(Error::body("w".to_string())));
    assert!(matches!(r, Err(ref e) if matches!(e.kind, ErrorKind::Request)));
}

#[test]
fn bodies_describe_themselves() {
    let b = TestBody::sized(std::io::Cursor::new(vec![1, 2, 3]), 3);
    assert_eq!(b.describe(), "Body { kind: Some(Reader { length: 3 }) }");
    let b = TestBody::new(std::io::Cursor::new(vec![]));
    assert_eq!(b.describe(), "Body { kind: Some(Reader { length: Unknown }) }");
    let b = TestBody::from_vec(b"hi\n\x01".to_vec());
    assert_eq!(b.describe(), "Body { kind: Some(b\"hi\\n\\x01\") }");
    let b = TestBody::from_stream(());
    assert_eq!(b.describe(), "Body { kind: Some(Stream) }");
    let b = TestBody { kind: None };
    assert_eq!(b.describe(), "Body { kind: None }");
}

#[test]
fn buffering_steps() {
    assert!(matches!(TestBody::from_vec(vec![1]).buffer_step(), BufferStep::Ready));
    let b = TestBody::sized(std::io::Cursor::new(vec![1, 2]), 2);
    assert!(matches!(b.buffer_step(), BufferStep::ReadReader(Some(2))));
    assert!(matches!(TestBody::from_stream(()).buffer_step(), BufferStep::ReadStream));
    assert!(matches!(TestBody { kind: None }.buffer_step(), BufferStep::Taken));
    let mut b = TestBody::new(std::io::Cursor::new(vec![]));
    assert_eq!(b.set_buffered(vec![7, 8]), &[7, 8]);
    assert!(matches!(b.buffer_step(), BufferStep::Ready));
    assert_eq!(b.as_bytes(), Some(&[7u8, 8][..]));
}

#[test]
fn a_cursor_reads_the_chunks_of_its_bytes() {
    let data: Vec<u8> = (0..9000u32).map(|i| (i % 13) as u8).collect();
    let body = TestBody::from_vec(data.clone());
    let mut cursor = match body.into_reader() {
        Reader::Bytes(c) => c,
        _ => panic!("expected a cursor"),
    };
    let mut chunks = Vec::new();
    loop {
        let c = cursor.read_chunk(4096);
        if c.is_empty() {
            break;
        }
        chunks.push(c);
    }
    let expected: Vec<Vec<u8>> = data.chunks(4096).map(|c| c.to_vec()).collect();
    assert_eq!(chunks, expected);
}
