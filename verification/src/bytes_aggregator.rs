//! Per-segment buffering of received chunks until they are handed to the
//! writer as one contiguous buffer.

use bytes::{Bytes, BytesMut};
use std::collections::VecDeque;
use vstd::prelude::*;

verus! {

/// `bytes::Bytes`, an immutable, cheaply cloneable byte buffer.
#[verifier::external_type_specification]
#[verifier::external_body]
pub struct ExBytes(Bytes);

/// `bytes::BytesMut`, a growable byte buffer.
#[verifier::external_type_specification]
#[verifier::external_body]
pub struct ExBytesMut(BytesMut);

/// The bytes that a `Bytes` holds, in order.
pub uninterp spec fn bytes_content(buffer: Bytes) -> Seq<u8>;

/// The bytes that a `BytesMut` holds, in order.
pub uninterp spec fn bytes_mut_content(buffer: BytesMut) -> Seq<u8>;

/// `Bytes::len` returns the number of bytes held.
pub assume_specification[ Bytes::len ](buffer: &Bytes) -> (n: usize)
    ensures
        n == bytes_content(*buffer).len(),
;

/// `Bytes` dereferences to the slice of the bytes it holds.
pub assume_specification[ <Bytes as core::ops::Deref>::deref ](buffer: &Bytes) -> (slice: &[u8])
    ensures
        slice@ == bytes_content(*buffer),
;

/// `BytesMut::with_capacity` returns an empty buffer; the allocation behind
/// it cannot be asked to exceed `isize::MAX` bytes.
pub assume_specification[ BytesMut::with_capacity ](capacity: usize) -> (buffer: BytesMut)
    requires
        capacity <= isize::MAX,
    ensures
        bytes_mut_content(buffer) == Seq::<u8>::empty(),
;

/// `BytesMut::extend_from_slice` appends the slice to the bytes held, growing
/// the allocation where needed, which cannot exceed `isize::MAX` bytes.
pub assume_specification[ BytesMut::extend_from_slice ](buffer: &mut BytesMut, extend: &[u8])
    requires
        bytes_mut_content(*old(buffer)).len() + extend@.len() <= isize::MAX,
    ensures
        bytes_mut_content(*final(buffer)) == bytes_mut_content(*old(buffer)) + extend@,
;

/// `BytesMut::freeze` turns the buffer into a `Bytes` with the same bytes.
pub assume_specification[ BytesMut::freeze ](buffer: BytesMut) -> (frozen: Bytes)
    ensures
        bytes_content(frozen) == bytes_mut_content(buffer),
;

/// The bytes of a queue of chunks, first chunk first.
pub open spec fn concat_chunks(chunks: Seq<Bytes>) -> Seq<u8>
    decreases chunks.len(),
{
    if chunks.len() == 0 {
        Seq::empty()
    } else {
        bytes_content(chunks[0]) + concat_chunks(chunks.skip(1))
    }
}

/// Appending a chunk to a queue appends its bytes to the queue's bytes.
pub proof fn lemma_concat_chunks_push(chunks: Seq<Bytes>, chunk: Bytes)
    ensures
        concat_chunks(chunks.push(chunk)) == concat_chunks(chunks) + bytes_content(chunk),
    decreases chunks.len(),
{
    if chunks.len() == 0 {
        assert(chunks.push(chunk).skip(1) =~= Seq::<Bytes>::empty());
        assert(chunks.push(chunk)[0] == chunk);
        assert(concat_chunks(chunks.push(chunk).skip(1)) =~= Seq::<u8>::empty());
        assert(concat_chunks(chunks.push(chunk)) =~= bytes_content(chunk));
        assert(concat_chunks(chunks) + bytes_content(chunk) =~= bytes_content(chunk));
    } else {
        lemma_concat_chunks_push(chunks.skip(1), chunk);
        assert(chunks.push(chunk).skip(1) =~= chunks.skip(1).push(chunk));
        assert(concat_chunks(chunks.push(chunk)) =~= concat_chunks(chunks) + bytes_content(chunk));
    }
}

/// The chunks received for one segment and not yet written, in arrival
/// order, together with the file offset at which the next write begins.
#[derive(Debug)]
pub struct BytesAggregator {
    queue: VecDeque<Bytes>,
    total_len: usize,
    start_seek: u64,
}

/// What one segment holds: the bytes waiting for the writer and the file
/// offset of the first of them.
pub struct SegmentView {
    pub pending: Seq<u8>,
    pub start_seek: u64,
}

impl View for BytesAggregator {
    type V = SegmentView;

    open spec fn view(&self) -> SegmentView {
        SegmentView { pending: self.pending(), start_seek: self.spec_start_seek() }
    }
}

impl BytesAggregator {
    /// The bytes waiting to be written, in arrival order.
    pub closed spec fn pending(&self) -> Seq<u8> {
        concat_chunks(self.queue@)
    }

    /// The absolute file offset of the first waiting byte.
    pub closed spec fn spec_start_seek(&self) -> u64 {
        self.start_seek
    }

    /// The cached length agrees with the queue, and the waiting bytes fit in
    /// one allocation.
    pub closed spec fn wf(&self) -> bool {
        &&& self.total_len == concat_chunks(self.queue@).len()
        &&& self.total_len <= isize::MAX
    }

    /// An aggregator with nothing waiting, whose first write goes to `start`.
    pub fn new(start: u64) -> (r: Self)
        ensures
            r.wf(),
            r.pending() == Seq::<u8>::empty(),
            r.spec_start_seek() == start,
    {
        Self { queue: VecDeque::new(), total_len: 0, start_seek: start }
    }

    /// Queues a chunk behind those already waiting.
    pub fn push(&mut self, chunk: Bytes)
        requires
            old(self).wf(),
            old(self).pending().len() + bytes_content(chunk).len() <= isize::MAX,
        ensures
            final(self).wf(),
            final(self).pending() == old(self).pending() + bytes_content(chunk),
            final(self).spec_start_seek() == old(self).spec_start_seek(),
    {
        proof {
            lemma_concat_chunks_push(self.queue@, chunk);
        }
        self.total_len = self.total_len + chunk.len();
        self.queue.push_back(chunk);
    }

    /// Hands out everything that waits as one buffer, and moves the offset of
    /// the next write past it.
    pub fn merge_all(&mut self) -> (merged: Bytes)
        requires
            old(self).wf(),
            old(self).spec_start_seek() + old(self).pending().len() <= u64::MAX,
        ensures
            bytes_content(merged) == old(self).pending(),
            final(self).wf(),
            final(self).pending() == Seq::<u8>::empty(),
            final(self).spec_start_seek() == old(self).spec_start_seek() + old(
                self,
            ).pending().len(),
    {
        let mut buf = BytesMut::with_capacity(self.total_len);
        loop
            invariant
                bytes_mut_content(buf) + concat_chunks(self.queue@) == old(self).pending(),
                old(self).pending().len() <= isize::MAX,
                self.total_len == old(self).total_len,
                self.start_seek == old(self).start_seek,
            ensures
                self.queue@.len() == 0,
                bytes_mut_content(buf) == old(self).pending(),
            decreases self.queue@.len(),
        {
            let ghost before = self.queue@;
            let ghost filled = bytes_mut_content(buf);
            match self.queue.pop_front() {
                Some(chunk) => {
                    assert(self.queue@ =~= before.skip(1));
                    assert(filled.len() + bytes_content(chunk).len() <= old(
                        self,
                    ).pending().len());
                    buf.extend_from_slice(&chunk);
                    assert(bytes_mut_content(buf) + concat_chunks(self.queue@) =~= filled
                        + concat_chunks(before));
                },
                None => {
                    assert(bytes_mut_content(buf) =~= filled + concat_chunks(before));
                    break ;
                },
            }
        }
        self.start_seek = self.start_seek + self.total_len as u64;
        self.total_len = 0;
        buf.freeze()
    }

    /// The number of bytes waiting.
    pub fn len(&self) -> (n: usize)
        requires
            self.wf(),
        ensures
            n == self.pending().len(),
    {
        self.total_len
    }

    /// The absolute file offset of the first waiting byte.
    pub fn start_seek(&self) -> (offset: u64)
        ensures
            offset == self.spec_start_seek(),
    {
        self.start_seek
    }
}

} // verus!
