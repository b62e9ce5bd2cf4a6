use reqwest::chunk::ChunkIterator;

#[test]
fn test_chunk_iterator_regular_slices() {
    let data = b"hello world".to_vec();
    let mut chunk_iter = ChunkIterator::new(&data, 5);

    assert_eq!(chunk_iter.next(), Some(&b"hello"[..]));
    assert_eq!(chunk_iter.next(), Some(&b" worl"[..]));
    assert_eq!(chunk_iter.next(), Some(&b"d"[..]));
    assert_eq!(chunk_iter.next(), None);
}

#[test]
fn test_chunk_iterator_only_one_chunk() {
    let data = b"hello world".to_vec();
    let mut chunk_iter = ChunkIterator::new(&data, 11);

    assert_eq!(chunk_iter.next(), Some(&b"hello world"[..]));
    assert_eq!(chunk_iter.next(), None);
}

#[test]
fn test_chunk_iterator_single_byte() {
    let data = b"x".to_vec();
    let mut chunk_iter = ChunkIterator::new(&data, 2);

    assert_eq!(chunk_iter.next(), Some(&b"x"[..]));
    assert_eq!(chunk_iter.next(), None);
}

#[test]
fn test_chunk_iterator_empty_slice() {
    let data: Vec<u8> = vec![];
    let mut chunk_iter = ChunkIterator::new(&data, 5);

    assert_eq!(chunk_iter.next(), None);
}

#[test]
fn chunk_size_zero_hands_out_empty_chunks() {
    let data = b"ab".to_vec();
    let mut chunk_iter = ChunkIterator::new(&data, 0);
    assert_eq!(chunk_iter.next(), Some(&b""[..]));
    assert_eq!(chunk_iter.next(), Some(&b""[..]));
}

#[test]
fn chunks_join_back_to_the_bytes() {
    let data: Vec<u8> = (0u8..=200).collect();
    let mut chunk_iter = ChunkIterator::new(&data, 7);
    let mut joined = Vec::new();
    let mut count = 0;
    while let Some(c) = chunk_iter.next() {
        assert!(c.len() <= 7 && !c.is_empty());
        joined.extend_from_slice(c);
        count += 1;
    }
    assert_eq!(joined, data);
    assert_eq!(count, 29);
}

#[test]
fn a_run_of_next_calls_rejoins_the_bytes() {
    let data: Vec<u8> = (0..10_000u32).map(|i| (i % 251) as u8).collect();
    for size in [1usize, 7, 4096, 10_000, 20_000] {
        let mut it = ChunkIterator::new(&data, size);
        let mut chunks = Vec::new();
        while let Some(c) = it.next() {
            chunks.push(c.to_vec());
        }
        assert!(it.next().is_none());
        assert_eq!(chunks.len(), (data.len() + size - 1) / size);
        assert_eq!(chunks.concat(), data);
        for c in &chunks[..chunks.len() - 1] {
            assert_eq!(c.len(), size);
        }
        assert!(!chunks.last().unwrap().is_empty());
    }
}
