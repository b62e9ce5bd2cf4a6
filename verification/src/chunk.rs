//! Splitting a byte slice into chunks of a fixed size.

use vstd::prelude::*;

verus! {

/// Hands out a byte slice front to back in chunks of at most `chunk_size`
/// bytes.
pub struct ChunkIterator<'a> {
    bytes: &'a [u8],
    chunk_size: usize,
}

/// The chunks of `b` of size `size` in order: all of length `size` but the
/// last, which holds what is left.
pub open spec fn chunks_of(b: Seq<u8>, size: nat) -> Seq<Seq<u8>>
    recommends
        size > 0,
    decreases b.len(),
{
    if b.len() == 0 || size == 0 {
        seq![]
    } else if b.len() <= size {
        seq![b]
    } else {
        seq![b.take(size as int)] + chunks_of(b.skip(size as int), size)
    }
}

/// All chunks joined back together.
pub open spec fn concat(cs: Seq<Seq<u8>>) -> Seq<u8>
    decreases cs.len(),
{
    if cs.len() == 0 {
        seq![]
    } else {
        cs[0] + concat(cs.drop_first())
    }
}

/// The length of the next chunk handed out from `b`.
pub open spec fn next_chunk_len(b: Seq<u8>, size: nat) -> nat {
    if size < b.len() {
        size
    } else {
        b.len()
    }
}

impl<'a> View for ChunkIterator<'a> {
    /// The bytes not yet handed out, and the chunk size.
    type V = (Seq<u8>, nat);

    closed spec fn view(&self) -> (Seq<u8>, nat) {
        (self.bytes@, self.chunk_size as nat)
    }
}

impl<'a> ChunkIterator<'a> {
    pub fn new(bytes: &'a [u8], chunk_size: usize) -> (it: Self)
        ensures
            it@ == (bytes@, chunk_size as nat),
    {
        ChunkIterator { bytes, chunk_size }
    }

    /// The next chunk: `None` once every byte has been handed out, otherwise
    /// the next `min(chunk_size, remaining)` bytes.
    pub fn next(&mut self) -> (r: Option<&'a [u8]>)
        ensures
            final(self)@.1 == old(self)@.1,
            old(self)@.0.len() == 0 ==> r is None && final(self)@ == old(self)@,
            old(self)@.0.len() > 0 ==> (r matches Some(c) && c@ == old(self)@.0.take(
                next_chunk_len(old(self)@.0, old(self)@.1) as int,
            ) && final(self)@.0 == old(self)@.0.skip(
                next_chunk_len(old(self)@.0, old(self)@.1) as int,
            )),
    {
        if self.bytes.len() == 0 {
            return None;
        }
        let chunk_size = if self.chunk_size < self.bytes.len() {
            self.chunk_size
        } else {
            self.bytes.len()
        };
        let (chunk, rest) = self.bytes.split_at(chunk_size);
        self.bytes = rest;
        Some(chunk)
    }
}

/// Joined back together, the chunks give the bytes.
pub proof fn law_chunks_concat(b: Seq<u8>, size: nat)
    requires
        size > 0,
    ensures
        concat(chunks_of(b, size)) == b,
    decreases b.len(),
{
    if b.len() == 0 {
    } else if b.len() <= size {
        let cs = chunks_of(b, size);
        assert(cs.drop_first() =~= Seq::<Seq<u8>>::empty());
        assert(concat(cs.drop_first()) =~= Seq::<u8>::empty());
        assert(concat(cs) =~= b);
    } else {
        law_chunks_concat(b.skip(size as int), size);
        let cs = chunks_of(b, size);
        assert(cs.drop_first() =~= chunks_of(b.skip(size as int), size));
        assert(b.take(size as int) + b.skip(size as int) =~= b);
    }
}

/// Every chunk is non-empty; all but the last hold exactly `size` bytes.
pub proof fn law_chunk_lengths(b: Seq<u8>, size: nat)
    requires
        size > 0,
    ensures
        forall|i: int|
            0 <= i < chunks_of(b, size).len() ==> 0 < (#[trigger] chunks_of(b, size)[i]).len()
                <= size,
        forall|i: int|
            0 <= i < chunks_of(b, size).len() - 1 ==> (#[trigger] chunks_of(b, size)[i]).len()
                == size,
    decreases b.len(),
{
    if b.len() > size {
        law_chunk_lengths(b.skip(size as int), size);
        let cs = chunks_of(b, size);
        let rest = chunks_of(b.skip(size as int), size);
        assert(cs =~= seq![b.take(size as int)] + rest);
        assert forall|i: int| 0 < i < cs.len() implies #[trigger] cs[i] == rest[i - 1] by {}
    }
}

/// What successive calls of `next` hand out from an iterator over `b`
/// before the first `None`, each call taking `next_chunk_len` bytes off the
/// front as its contract says.
pub open spec fn handed_out(b: Seq<u8>, size: nat) -> Seq<Seq<u8>>
    decreases b.len(),
{
    if b.len() == 0 || size == 0 {
        seq![]
    } else {
        seq![b.take(next_chunk_len(b, size) as int)] + handed_out(
            b.skip(next_chunk_len(b, size) as int),
            size,
        )
    }
}

/// A whole run of `next` calls over `bytes` hands out its chunks: they join
/// back into `bytes`, there are `len / size` of them rounded up, every one
/// but the last holds `size` bytes and the last between one and `size`.
pub proof fn law_chunk_run(bytes: Seq<u8>, size: nat)
    requires
        size > 0,
    ensures
        handed_out(bytes, size) == chunks_of(bytes, size),
        concat(handed_out(bytes, size)) == bytes,
        handed_out(bytes, size).len() == (bytes.len() + size - 1) / (size as int),
        forall|i: int|
            0 <= i < handed_out(bytes, size).len() - 1 ==> (#[trigger] handed_out(bytes, size)[i]).len()
                == size,
        handed_out(bytes, size).len() > 0 ==> 0 < handed_out(bytes, size).last().len() <= size,
    decreases bytes.len(),
{
    if bytes.len() > 0 {
        let k = next_chunk_len(bytes, size);
        law_chunk_run(bytes.skip(k as int), size);
        law_next_follows_chunks(bytes, size);
        let cs = chunks_of(bytes, size);
        assert(handed_out(bytes, size) =~= seq![cs[0]] + cs.drop_first());
        assert(seq![cs[0]] + cs.drop_first() =~= cs);
    }
    law_chunks_concat(bytes, size);
    law_chunk_count(bytes, size);
    law_chunk_lengths(bytes, size);
    let cs = chunks_of(bytes, size);
    if cs.len() > 0 {
        assert(cs.last() == cs[cs.len() - 1]);
    }
}

/// There are as many chunks as `size` goes into the length, rounded up.
pub proof fn law_chunk_count(b: Seq<u8>, size: nat)
    requires
        size > 0,
    ensures
        chunks_of(b, size).len() == (b.len() + size - 1) / (size as int),
    decreases b.len(),
{
    let len = b.len() as int;
    let s = size as int;
    if len == 0 {
        assert((s - 1) / s == 0) by (nonlinear_arith)
            requires
                s > 0,
        ;
    } else if len <= s {
        assert((len + s - 1) / s == 1) by (nonlinear_arith)
            requires
                0 < len <= s,
        ;
    } else {
        law_chunk_count(b.skip(s), size);
        assert(b.skip(s).len() == len - s);
        assert((len + s - 1) / s == (len - s + s - 1) / s + 1) by (nonlinear_arith)
            requires
                len > s > 0,
        ;
    }
}

/// A call of `next` hands out the first of the remaining chunks and leaves
/// the rest of them: repeated calls hand out `chunks_of(bytes, size)` in
/// order, then `None`.
pub proof fn law_next_follows_chunks(b: Seq<u8>, size: nat)
    requires
        size > 0,
        b.len() > 0,
    ensures
        chunks_of(b, size).len() > 0,
        chunks_of(b, size)[0] == b.take(next_chunk_len(b, size) as int),
        chunks_of(b.skip(next_chunk_len(b, size) as int), size) == chunks_of(b, size).drop_first(),
{
    let cs = chunks_of(b, size);
    if b.len() <= size {
        assert(b.take(b.len() as int) =~= b);
        assert(b.skip(b.len() as int) =~= Seq::<u8>::empty());
        assert(cs.drop_first() =~= Seq::<Seq<u8>>::empty());
    } else {
        assert(cs.drop_first() =~= chunks_of(b.skip(size as int), size));
    }
}

} // verus!
