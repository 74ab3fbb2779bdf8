//! The coordinator's bookkeeping: routing received chunks into per-segment
//! aggregators and deciding when a buffer goes to the writer.

use bytes::Bytes;
use vstd::prelude::*;
use crate::bytes_aggregator::{bytes_content, BytesAggregator, SegmentView};
use crate::from_state::{
    frontiers_within_parts, law_downloaded_bytes_follow_frontier,
    law_downloaded_bytes_within_content_length, spec_resumed_bytes,
};
use crate::info::HttpDownloadInfo;
use crate::planner::{
    lemma_part_end_within, lemma_split_pair_fits, spec_part_end, spec_part_len, spec_part_start,
    spec_split_content, spec_split_pair,
};

verus! {

/// An aggregator is flushed to the writer once this many bytes wait in it.
pub const WRITE_SIZE: usize = 1024 * 32;

/// The number of chunks that may wait between the fetch tasks and the
/// coordinator.
pub const CHUNK_QUEUE_CAPACITY: usize = 512;

/// One positional write: `buffer` goes to the file at `offset`, on behalf of
/// segment `index`.
#[derive(Debug)]
pub struct WriteRequest {
    pub index: usize,
    pub offset: u64,
    pub buffer: Bytes,
}

/// A write request with its buffer taken as the bytes it holds.
pub struct WriteRequestView {
    pub index: usize,
    pub offset: u64,
    pub data: Seq<u8>,
}

impl View for WriteRequest {
    type V = WriteRequestView;

    open spec fn view(&self) -> WriteRequestView {
        WriteRequestView {
            index: self.index,
            offset: self.offset,
            data: bytes_content(self.buffer),
        }
    }
}

/// The coordinator's state: the segments, and whether the writer still
/// takes buffers.
pub struct SessionView {
    pub segments: Seq<SegmentView>,
    pub can_write: bool,
}

/// The state of a segment once a chunk of `data` has been queued in it.
pub open spec fn segment_after_chunk(segment: SegmentView, data: Seq<u8>) -> SegmentView {
    SegmentView { pending: segment.pending + data, start_seek: segment.start_seek }
}

/// The write that empties a segment.
pub open spec fn segment_flush_request(segment: SegmentView, index: usize) -> WriteRequestView {
    WriteRequestView { index, offset: segment.start_seek, data: segment.pending }
}

/// The state of a segment once all that waited has gone to the writer.
pub open spec fn segment_after_flush(segment: SegmentView) -> SegmentView {
    SegmentView {
        pending: Seq::empty(),
        start_seek: (segment.start_seek + segment.pending.len()) as u64,
    }
}

/// What receiving a chunk of `data` for segment `index` does to the
/// coordinator's state, and the write it causes, if any. A coordinator whose
/// writer is gone drops the chunk.
pub open spec fn spec_accept_chunk(state: SessionView, data: Seq<u8>, index: usize) -> (
    SessionView,
    Option<WriteRequestView>,
) {
    if !state.can_write {
        (state, None)
    } else {
        let grown = segment_after_chunk(state.segments[index as int], data);
        if grown.pending.len() >= WRITE_SIZE {
            (
                SessionView {
                    segments: state.segments.update(index as int, segment_after_flush(grown)),
                    can_write: true,
                },
                Some(segment_flush_request(grown, index)),
            )
        } else {
            (SessionView { segments: state.segments.update(index as int, grown), can_write: true }, None)
        }
    }
}

/// The writes that empty the first `upto` segments at the end of a download:
/// one for each segment in which something waits, in the order of the
/// segments.
pub open spec fn spec_remainders(segments: Seq<SegmentView>, upto: int) -> Seq<WriteRequestView>
    decreases upto,
{
    if upto <= 0 {
        Seq::empty()
    } else {
        let earlier = spec_remainders(segments, upto - 1);
        if segments[upto - 1].pending.len() > 0 {
            earlier.push(segment_flush_request(segments[upto - 1], (upto - 1) as usize))
        } else {
            earlier
        }
    }
}

/// The views of a list of write requests.
pub open spec fn request_views(requests: Seq<WriteRequest>) -> Seq<WriteRequestView> {
    Seq::new(requests.len(), |i: int| requests[i]@)
}

/// The aggregators of a running download, one per fetch task.
#[derive(Debug)]
pub struct HttpDownloadSession {
    aggregators: Vec<BytesAggregator>,
    parties: usize,
    can_write: bool,
}

impl View for HttpDownloadSession {
    type V = SessionView;

    closed spec fn view(&self) -> SessionView {
        SessionView {
            segments: Seq::new(self.aggregators@.len(), |i: int| self.aggregators@[i]@),
            can_write: self.can_write,
        }
    }
}

impl HttpDownloadSession {
    /// Every aggregator is well formed and holds less than a full write.
    pub closed spec fn wf(&self) -> bool {
        forall|i: int|
            0 <= i < self.aggregators@.len() ==> (#[trigger] self.aggregators@[i]).wf()
                && self.aggregators@[i].pending().len() < WRITE_SIZE
                && self.aggregators@[i].spec_start_seek() + self.aggregators@[i].pending().len()
                <= u64::MAX
    }

    /// The number of tasks that meet when the throttle speed changes.
    pub closed spec fn spec_parties(&self) -> usize {
        self.parties
    }

    /// A session for a download that runs `tasks_count` fetch tasks, with
    /// no segment opened yet and a writer that takes buffers.
    pub fn new(tasks_count: usize) -> (r: Self)
        ensures
            r.wf(),
            r@.segments.len() == 0,
            r@.can_write,
            r.spec_parties() == tasks_count,
    {
        Self { aggregators: Vec::new(), parties: tasks_count, can_write: true }
    }

    /// The number of tasks that meet when the throttle speed changes.
    pub fn parties(&self) -> (r: usize)
        ensures
            r == self.spec_parties(),
    {
        self.parties
    }

    /// The number of segments opened so far.
    pub fn segments(&self) -> (r: usize)
        ensures
            r == self@.segments.len(),
    {
        self.aggregators.len()
    }

    /// Whether the writer still takes buffers.
    pub fn can_write(&self) -> (r: bool)
        ensures
            r == self@.can_write,
    {
        self.can_write
    }

    /// Whether a chunk of `chunk_len` bytes for segment `index` stays within
    /// what file offsets, the byte counter and one allocation can hold.
    pub open spec fn spec_has_room_for(
        &self,
        info: &HttpDownloadInfo,
        chunk_len: nat,
        index: usize,
    ) -> bool {
        &&& index < self@.segments.len()
        &&& chunk_len + WRITE_SIZE <= isize::MAX
        &&& self@.segments[index as int].start_seek + self@.segments[index as int].pending.len()
            + chunk_len <= u64::MAX
        &&& info.spec_downloaded_bytes() + chunk_len <= u64::MAX
    }

    /// Tests whether `accept_chunk` may be called with a chunk of `chunk_len`
    /// bytes for segment `index`.
    pub fn has_room_for(&self, info: &HttpDownloadInfo, chunk_len: usize, index: usize) -> (r: bool)
        requires
            self.wf(),
        ensures
            r == self.spec_has_room_for(info, chunk_len as nat, index),
    {
        if index >= self.aggregators.len() {
            return false;
        }
        if chunk_len > isize::MAX as usize - WRITE_SIZE {
            return false;
        }
        let start: u64 = self.aggregators[index].start_seek();
        let waiting: usize = self.aggregators[index].len();
        let downloaded: u64 = info.downloaded_bytes();
        let wide: u128 = start as u128 + waiting as u128 + chunk_len as u128;
        wide <= u64::MAX as u128 && downloaded as u128 + chunk_len as u128 <= u64::MAX as u128
    }

    /// Takes a chunk received for segment `index`: counts its bytes, queues
    /// it, and, once a full write waits in that segment, returns the write
    /// to hand to the writer. With the writer gone the chunk is dropped and
    /// nothing changes.
    pub fn accept_chunk(&mut self, info: &mut HttpDownloadInfo, chunk: Bytes, index: usize) -> (r:
        Option<WriteRequest>)
        requires
            old(self).wf(),
            old(self).spec_has_room_for(old(info), bytes_content(chunk).len(), index),
        ensures
            final(self).wf(),
            final(self).spec_parties() == old(self).spec_parties(),
            final(self)@ == spec_accept_chunk(old(self)@, bytes_content(chunk), index).0,
            match r {
                Some(request) => Some(request@),
                None => None,
            } == spec_accept_chunk(old(self)@, bytes_content(chunk), index).1,
            final(info).spec_downloaded_bytes() == if old(self)@.can_write {
                old(info).spec_downloaded_bytes() + bytes_content(chunk).len()
            } else {
                old(info).spec_downloaded_bytes() as int
            },
            final(info).spec_filename() == old(info).spec_filename(),
            final(info).spec_content_length() == old(info).spec_content_length(),
            final(info).spec_is_resumable() == old(info).spec_is_resumable(),
    {
        if !self.can_write {
            return None;
        }
        info.add_to_downloaded_bytes(chunk.len() as u64);
        let ghost before = self.aggregators@;
        let aggregator = &mut self.aggregators[index];
        aggregator.push(chunk);
        let mut request: Option<WriteRequest> = None;
        if aggregator.len() >= WRITE_SIZE {
            let offset: u64 = aggregator.start_seek();
            let buffer: Bytes = aggregator.merge_all();
            request = Some(WriteRequest { index, offset, buffer });
        }
        assert(forall|i: int|
            0 <= i < before.len() && i != index ==> self.aggregators@[i] == before[i]);
        assert(final(self)@.segments =~= spec_accept_chunk(
            old(self)@,
            bytes_content(chunk),
            index,
        ).0.segments);
        request
    }

    /// Empties segment `index` at the end of the download: returns the write
    /// for what waits in it, or nothing where nothing waits.
    pub fn flush_remainder(&mut self, index: usize) -> (r: Option<WriteRequest>)
        requires
            old(self).wf(),
            index < old(self)@.segments.len(),
        ensures
            final(self).wf(),
            final(self).spec_parties() == old(self).spec_parties(),
            final(self)@.can_write == old(self)@.can_write,
            final(self)@.segments == old(self)@.segments.update(
                index as int,
                segment_after_flush(old(self)@.segments[index as int]),
            ),
            match r {
                Some(request) => old(self)@.segments[index as int].pending.len() > 0 && request@
                    == segment_flush_request(old(self)@.segments[index as int], index),
                None => old(self)@.segments[index as int].pending.len() == 0,
            },
    {
        let ghost before = self.aggregators@;
        let aggregator = &mut self.aggregators[index];
        let mut request: Option<WriteRequest> = None;
        if aggregator.len() > 0 {
            let offset: u64 = aggregator.start_seek();
            let buffer: Bytes = aggregator.merge_all();
            request = Some(WriteRequest { index, offset, buffer });
        }
        assert(forall|i: int|
            0 <= i < before.len() && i != index ==> self.aggregators@[i] == before[i]);
        assert(old(self)@.segments[index as int].pending.len() == 0 ==> old(
            self,
        )@.segments[index as int].pending =~= Seq::<u8>::empty());
        assert(final(self)@.segments =~= old(self)@.segments.update(
            index as int,
            segment_after_flush(old(self)@.segments[index as int]),
        ));
        request
    }

    /// Ends the drain: empties every segment in which something waits and
    /// returns the writes, in the order of the segments.
    pub fn finish(&mut self) -> (requests: Vec<WriteRequest>)
        requires
            old(self).wf(),
        ensures
            final(self).wf(),
            final(self).spec_parties() == old(self).spec_parties(),
            final(self)@.can_write == old(self)@.can_write,
            final(self)@.segments == Seq::new(
                old(self)@.segments.len(),
                |i: int| segment_after_flush(old(self)@.segments[i]),
            ),
            request_views(requests@) == spec_remainders(
                old(self)@.segments,
                old(self)@.segments.len() as int,
            ),
    {
        let mut requests: Vec<WriteRequest> = Vec::new();
        let count: usize = self.aggregators.len();
        let mut index: usize = 0;
        while index < count
            invariant
                self.wf(),
                index <= count,
                count == old(self)@.segments.len(),
                self@.segments.len() == count,
                self.spec_parties() == old(self).spec_parties(),
                self@.can_write == old(self)@.can_write,
                forall|i: int|
                    0 <= i < index ==> self@.segments[i] == segment_after_flush(
                        old(self)@.segments[i],
                    ),
                forall|i: int| index <= i < count ==> self@.segments[i] == old(self)@.segments[i],
                request_views(requests@) == spec_remainders(old(self)@.segments, index as int),
            decreases count - index,
        {
            let ghost sent = request_views(requests@);
            match self.flush_remainder(index) {
                Some(request) => {
                    requests.push(request);
                    assert(request_views(requests@) =~= sent.push(request@));
                },
                None => {},
            }
            index = index + 1;
        }
        assert(final(self)@.segments =~= Seq::new(
            old(self)@.segments.len(),
            |i: int| segment_after_flush(old(self)@.segments[i]),
        ));
        requests
    }

    /// Records that the writer no longer takes buffers: from here on chunks
    /// are dropped as they arrive.
    pub fn writer_lost(&mut self)
        ensures
            final(self)@.segments == old(self)@.segments,
            !final(self)@.can_write,
            final(self).wf() == old(self).wf(),
            final(self).spec_parties() == old(self).spec_parties(),
    {
        self.can_write = false;
    }

    /// Opens the next segment, whose first byte goes to file offset `start`.
    pub fn open_segment(&mut self, start: u64)
        requires
            old(self).wf(),
        ensures
            final(self).wf(),
            final(self)@.segments == old(self)@.segments.push(
                SegmentView { pending: Seq::empty(), start_seek: start },
            ),
            final(self)@.can_write == old(self)@.can_write,
            final(self).spec_parties() == old(self).spec_parties(),
    {
        self.aggregators.push(BytesAggregator::new(start));
        assert(final(self)@.segments =~= old(self)@.segments.push(
            SegmentView { pending: Seq::empty(), start_seek: start },
        ));
    }
}

/// A chunk as the coordinator receives it: its bytes, and the segment that
/// it belongs to.
pub struct ChunkEvent {
    pub data: Seq<u8>,
    pub index: usize,
}

/// The state that a coordinator reaches from `state` by receiving `events`
/// one after the other, and the writes that it hands to the writer on the
/// way, in order.
pub open spec fn spec_run(state: SessionView, events: Seq<ChunkEvent>) -> (
    SessionView,
    Seq<WriteRequestView>,
)
    decreases events.len(),
{
    if events.len() == 0 {
        (state, Seq::empty())
    } else {
        let (reached, requests) = spec_run(state, events.drop_last());
        let (next, request) = spec_accept_chunk(reached, events.last().data, events.last().index);
        (
            next,
            match request {
                Some(request) => requests.push(request),
                None => requests,
            },
        )
    }
}

/// The bytes received for segment `index`, in arrival order.
pub open spec fn spec_received(events: Seq<ChunkEvent>, index: usize) -> Seq<u8>
    decreases events.len(),
{
    if events.len() == 0 {
        Seq::empty()
    } else if events.last().index == index {
        spec_received(events.drop_last(), index) + events.last().data
    } else {
        spec_received(events.drop_last(), index)
    }
}

/// The bytes that a list of writes holds for segment `index`, in the order
/// of the writes.
pub open spec fn spec_written(requests: Seq<WriteRequestView>, index: usize) -> Seq<u8>
    decreases requests.len(),
{
    if requests.len() == 0 {
        Seq::empty()
    } else if requests.last().index == index {
        spec_written(requests.drop_last(), index) + requests.last().data
    } else {
        spec_written(requests.drop_last(), index)
    }
}

/// Whether the writes for segment `index` lie one behind the other in the
/// file from `origin` on: each begins where the one before it ended.
pub open spec fn spec_tiled(requests: Seq<WriteRequestView>, index: usize, origin: int) -> bool
    decreases requests.len(),
{
    requests.len() == 0 || {
        &&& spec_tiled(requests.drop_last(), index, origin)
        &&& requests.last().index == index ==> requests.last().offset == origin + spec_written(
            requests.drop_last(),
            index,
        ).len()
    }
}

/// Whether every chunk belongs to one of the first `segments` segments.
pub open spec fn events_in_range(events: Seq<ChunkEvent>, segments: nat) -> bool {
    forall|k: int| 0 <= k < events.len() ==> (#[trigger] events[k]).index < segments
}

/// While the writer takes buffers, no byte of a segment is lost, written
/// twice or out of order: the bytes written for the segment, followed by
/// those that still wait in it, are the bytes that waited at first followed
/// by those received since, in arrival order; the writes lie one behind the
/// other in the file from the segment's first offset on; and the next write
/// begins where the last one ended.
pub proof fn law_segment_writes_are_contiguous(
    state: SessionView,
    events: Seq<ChunkEvent>,
    index: usize,
)
    requires
        state.can_write,
        index < state.segments.len(),
        events_in_range(events, state.segments.len()),
        state.segments[index as int].start_seek + state.segments[index as int].pending.len()
            + spec_received(events, index).len() <= u64::MAX,
    ensures
        spec_run(state, events).0.can_write,
        spec_run(state, events).0.segments.len() == state.segments.len(),
        spec_written(spec_run(state, events).1, index) + spec_run(
            state,
            events,
        ).0.segments[index as int].pending == state.segments[index as int].pending
            + spec_received(events, index),
        spec_run(state, events).0.segments[index as int].start_seek
            == state.segments[index as int].start_seek + spec_written(
            spec_run(state, events).1,
            index,
        ).len(),
        spec_tiled(spec_run(state, events).1, index, state.segments[index as int].start_seek as int),
    decreases events.len(),
{
    if events.len() > 0 {
        let earlier = events.drop_last();
        let last = events.last();
        assert(events_in_range(earlier, state.segments.len())) by {
            assert forall|k: int| 0 <= k < earlier.len() implies (#[trigger] earlier[k]).index
                < state.segments.len() by {
                assert(earlier[k] == events[k]);
            }
        }
        assert(spec_received(earlier, index).len() <= spec_received(events, index).len());
        law_segment_writes_are_contiguous(state, earlier, index);
        let (reached, requests) = spec_run(state, earlier);
        let (next, request) = spec_accept_chunk(reached, last.data, last.index);
        assert(last.index < state.segments.len());
        let origin = state.segments[index as int];
        if last.index == index {
            let grown = segment_after_chunk(reached.segments[index as int], last.data);
            assert(spec_written(requests, index) + grown.pending =~= origin.pending
                + spec_received(events, index)) by {
                assert(spec_written(requests, index) + (reached.segments[index as int].pending
                    + last.data) =~= (spec_written(requests, index)
                    + reached.segments[index as int].pending) + last.data);
            }
            if grown.pending.len() >= WRITE_SIZE {
                let sent = requests.push(request.unwrap());
                assert(sent.drop_last() =~= requests);
                assert(spec_written(sent, index) =~= spec_written(requests, index)
                    + grown.pending);
                assert(spec_written(sent, index) + next.segments[index as int].pending
                    =~= spec_written(sent, index));
            }
        } else {
            if request is Some {
                let sent = requests.push(request.unwrap());
                assert(sent.drop_last() =~= requests);
            }
        }
    } else {
        assert(spec_written(Seq::<WriteRequestView>::empty(), index) + state.segments[index as int].pending
            =~= state.segments[index as int].pending + spec_received(events, index));
    }
}

/// At the end of a download the writes that empty the segments come
/// behind those that went before: for each segment in which something
/// waits, exactly one write, which begins at the segment's next offset and
/// holds what waits.
pub proof fn law_remainder_completes_segment(segments: Seq<SegmentView>, upto: int, index: usize)
    requires
        0 <= upto <= segments.len() <= usize::MAX,
    ensures
        spec_written(spec_remainders(segments, upto), index) == if index < upto {
            segments[index as int].pending
        } else {
            Seq::<u8>::empty()
        },
        index < upto ==> spec_tiled(
            spec_remainders(segments, upto),
            index,
            segments[index as int].start_seek as int,
        ),
        index >= upto ==> forall|origin: int|
            spec_tiled(spec_remainders(segments, upto), index, origin),
    decreases upto,
{
    if upto > 0 {
        let earlier = spec_remainders(segments, upto - 1);
        law_remainder_completes_segment(segments, upto - 1, index);
        let segment = segments[upto - 1];
        if segment.pending.len() > 0 {
            let all = earlier.push(segment_flush_request(segment, (upto - 1) as usize));
            assert(all.drop_last() =~= earlier);
            if index == upto - 1 {
                assert(spec_written(all, index) =~= segment.pending);
                assert(spec_tiled(earlier, index, segment.start_seek as int));
                assert(spec_tiled(all, index, segment.start_seek as int));
            } else if index < upto {
                assert(spec_tiled(all, index, segments[index as int].start_seek as int));
            }
            assert forall|origin: int| index >= upto implies spec_tiled(all, index, origin) by {
                assert(spec_tiled(earlier, index, origin));
            }
        } else {
            if index == upto - 1 {
                assert(segment.pending =~= Seq::<u8>::empty());
                assert(spec_tiled(earlier, index, segment.start_seek as int));
            }
        }
    }
}

/// The bytes that two lists of writes hold for a segment, one list after
/// the other, are the bytes of the first followed by those of the second;
/// and where the first list lies one write behind the other from `origin`
/// on and the second from the end of the first on, so do both together.
pub proof fn lemma_writes_concat(
    first: Seq<WriteRequestView>,
    second: Seq<WriteRequestView>,
    index: usize,
    origin: int,
)
    requires
        spec_tiled(first, index, origin),
        spec_tiled(second, index, origin + spec_written(first, index).len()),
    ensures
        spec_written(first + second, index) == spec_written(first, index) + spec_written(
            second,
            index,
        ),
        spec_tiled(first + second, index, origin),
    decreases second.len(),
{
    if second.len() == 0 {
        assert(first + second =~= first);
        assert(spec_written(first, index) + spec_written(second, index) =~= spec_written(
            first,
            index,
        ));
    } else {
        lemma_writes_concat(first, second.drop_last(), index, origin);
        assert((first + second).drop_last() =~= first + second.drop_last());
        assert((first + second).last() == second.last());
        if second.last().index == index {
            assert(spec_written(first + second, index) =~= spec_written(first, index)
                + spec_written(second, index));
        }
    }
}

/// A download writes every byte that it receives exactly once, in order
/// and in its place: with the writes that empty the segments at the end
/// counted in, the bytes written for a segment are the bytes that waited in
/// it at first followed by those received for it; and the writes lie one
/// behind the other in the file from the segment's first offset on.
pub proof fn law_every_byte_is_written_once(
    state: SessionView,
    events: Seq<ChunkEvent>,
    index: usize,
)
    requires
        state.can_write,
        index < state.segments.len() <= usize::MAX,
        events_in_range(events, state.segments.len()),
        state.segments[index as int].start_seek + state.segments[index as int].pending.len()
            + spec_received(events, index).len() <= u64::MAX,
    ensures
        ({
            let (end, requests) = spec_run(state, events);
            let all = requests + spec_remainders(end.segments, end.segments.len() as int);
            &&& spec_written(all, index) == state.segments[index as int].pending + spec_received(
                events,
                index,
            )
            &&& spec_tiled(all, index, state.segments[index as int].start_seek as int)
        }),
{
    let (end, requests) = spec_run(state, events);
    let rest = spec_remainders(end.segments, end.segments.len() as int);
    law_segment_writes_are_contiguous(state, events, index);
    law_remainder_completes_segment(end.segments, end.segments.len() as int, index);
    lemma_writes_concat(requests, rest, index, state.segments[index as int].start_seek as int);
}

/// Whether a coordinator has just opened one segment for each part of the
/// split of `content_length` bytes among `tasks` tasks: nothing waits, and
/// each segment begins at the first byte of its part.
pub open spec fn opened_for_split(state: SessionView, content_length: nat, tasks: nat) -> bool {
    &&& state.can_write
    &&& state.segments.len() == tasks
    &&& forall|i: int|
        0 <= i < tasks ==> (#[trigger] state.segments[i]).pending.len() == 0
            && state.segments[i].start_seek == spec_part_start(
            spec_split_content(content_length, tasks).0,
            spec_split_content(content_length, tasks).1,
            i as nat,
        )
}

/// A download in which every task receives as many bytes as its range
/// holds writes each range exactly once: the writes of a task, those that
/// empty the segments at the end counted in, hold the bytes that the task
/// received, in order, and lie one behind the other from the first byte of
/// its range up to its last. As the ranges are contiguous and cover the
/// content, so do the writes.
pub proof fn law_complete_download_covers_content(
    content_length: u64,
    tasks_count: u8,
    state: SessionView,
    events: Seq<ChunkEvent>,
    index: usize,
)
    requires
        content_length >= 1,
        tasks_count >= 1,
        index < tasks_count,
        opened_for_split(state, content_length as nat, tasks_count as nat),
        events_in_range(events, tasks_count as nat),
        spec_received(events, index).len() == spec_part_len(
            spec_split_content(content_length as nat, tasks_count as nat).0,
            spec_split_content(content_length as nat, tasks_count as nat).1,
            index as nat,
        ),
    ensures
        ({
            let (part_size, decrease) = spec_split_content(
                content_length as nat,
                tasks_count as nat,
            );
            let (end, requests) = spec_run(state, events);
            let all = requests + spec_remainders(end.segments, end.segments.len() as int);
            &&& spec_written(all, index) == spec_received(events, index)
            &&& spec_tiled(all, index, spec_part_start(part_size, decrease, index as nat))
            &&& spec_part_start(part_size, decrease, index as nat) + spec_written(all, index).len()
                == spec_part_end(part_size, decrease, index as nat) + 1
        }),
{
    let (part_size, decrease) = spec_split_content(content_length as nat, tasks_count as nat);
    lemma_part_end_within(content_length as nat, tasks_count as nat, index as nat);
    let segment = state.segments[index as int];
    assert(segment.pending =~= Seq::<u8>::empty());
    law_every_byte_is_written_once(state, events, index);
    assert(segment.pending + spec_received(events, index) =~= spec_received(events, index));
}

/// The write frontier of each segment while a download runs: the file
/// offset behind the last byte received for it, written or still waiting.
pub open spec fn spec_frontiers(state: SessionView) -> Seq<u64> {
    Seq::new(
        state.segments.len(),
        |i: int| (state.segments[i].start_seek + state.segments[i].pending.len()) as u64,
    )
}

/// The number of bytes that a run of chunks holds.
pub open spec fn spec_received_total(events: Seq<ChunkEvent>) -> int
    decreases events.len(),
{
    if events.len() == 0 {
        0
    } else {
        spec_received_total(events.drop_last()) + events.last().data.len()
    }
}

/// A chunk that the coordinator takes moves the frontier of its segment
/// forward by its length, so that the bytes counted part by part, frontier
/// less first byte, grow by just that length; a chunk that is dropped
/// changes nothing.
pub proof fn lemma_counter_follows_chunk(
    split: (u64, u64),
    state: SessionView,
    data: Seq<u8>,
    index: usize,
)
    requires
        index < state.segments.len(),
        state.segments[index as int].start_seek + state.segments[index as int].pending.len()
            + data.len() <= u64::MAX,
    ensures
        spec_resumed_bytes(
            split,
            spec_frontiers(spec_accept_chunk(state, data, index).0),
            state.segments.len() as int,
        ) == spec_resumed_bytes(split, spec_frontiers(state), state.segments.len() as int) + if state.can_write {
            data.len() as int
        } else {
            0
        },
{
    if state.can_write {
        let before = spec_frontiers(state);
        let after = spec_frontiers(spec_accept_chunk(state, data, index).0);
        let moved = (before[index as int] + data.len()) as u64;
        assert(after =~= before.update(index as int, moved));
        law_downloaded_bytes_follow_frontier(
            split,
            before,
            state.segments.len() as int,
            index as int,
            moved,
        );
    }
}

/// While the writer takes buffers, the bytes counted part by part, frontier
/// less first byte, grow by exactly the bytes received.
pub proof fn lemma_counter_follows_run(split: (u64, u64), state: SessionView, events: Seq<ChunkEvent>)
    requires
        state.can_write,
        events_in_range(events, state.segments.len()),
        forall|i: int|
            0 <= i < state.segments.len() ==> (#[trigger] state.segments[i]).start_seek
                + state.segments[i].pending.len() + spec_received(events, i as usize).len()
                <= u64::MAX,
        state.segments.len() <= usize::MAX,
    ensures
        spec_resumed_bytes(
            split,
            spec_frontiers(spec_run(state, events).0),
            state.segments.len() as int,
        ) == spec_resumed_bytes(split, spec_frontiers(state), state.segments.len() as int)
            + spec_received_total(events),
        spec_run(state, events).0.segments.len() == state.segments.len(),
    decreases events.len(),
{
    if events.len() > 0 {
        let earlier = events.drop_last();
        let last = events.last();
        assert(events_in_range(earlier, state.segments.len())) by {
            assert forall|k: int| 0 <= k < earlier.len() implies (#[trigger] earlier[k]).index
                < state.segments.len() by {
                assert(earlier[k] == events[k]);
            }
        }
        assert forall|i: int| 0 <= i < state.segments.len() implies (
        #[trigger] state.segments[i]).start_seek + state.segments[i].pending.len() + spec_received(
            earlier,
            i as usize,
        ).len() <= u64::MAX by {
            assert(spec_received(earlier, i as usize).len() <= spec_received(
                events,
                i as usize,
            ).len());
        }
        lemma_counter_follows_run(split, state, earlier);
        let index = last.index;
        assert(index < state.segments.len());
        let segment = state.segments[index as int];
        assert(segment.start_seek + segment.pending.len() + spec_received(events, index).len()
            <= u64::MAX);
        law_segment_writes_are_contiguous(state, earlier, index);
        let reached = spec_run(state, earlier).0;
        assert(reached.segments[index as int].start_seek + reached.segments[index as int].pending.len()
            == segment.start_seek + segment.pending.len() + spec_received(earlier, index).len())
            by {
            let written = spec_written(spec_run(state, earlier).1, index);
            assert((written + reached.segments[index as int].pending).len() == (segment.pending
                + spec_received(earlier, index)).len());
        }
        lemma_counter_follows_chunk(split, reached, last.data, index);
    }
}

/// The bytes counted as downloaded never exceed the content length while
/// chunks arrive, so long as no task receives more than its range holds.
/// Where the count stands at the bytes that lie before the frontiers when
/// the chunks begin to arrive, as it does for a new download and for one
/// that is resumed, and every frontier lies within its part, then after any
/// run of chunks that keeps every frontier within its part the count, grown
/// by the bytes received, is at most the length of the resource.
pub proof fn law_running_counter_within_content_length(
    content_length: u64,
    tasks_count: u8,
    state: SessionView,
    counter: int,
    events: Seq<ChunkEvent>,
)
    requires
        content_length >= 1,
        tasks_count >= 1,
        state.can_write,
        state.segments.len() == tasks_count,
        events_in_range(events, tasks_count as nat),
        frontiers_within_parts(
            spec_split_pair(content_length, tasks_count),
            spec_frontiers(state),
            tasks_count as int,
        ),
        counter == spec_resumed_bytes(
            spec_split_pair(content_length, tasks_count),
            spec_frontiers(state),
            tasks_count as int,
        ),
        forall|i: int|
            0 <= i < tasks_count ==> (#[trigger] state.segments[i]).start_seek
                + state.segments[i].pending.len() + spec_received(events, i as usize).len()
                <= spec_part_end(
                spec_split_content(content_length as nat, tasks_count as nat).0,
                spec_split_content(content_length as nat, tasks_count as nat).1,
                i as nat,
            ) + 1,
    ensures
        0 <= counter <= counter + spec_received_total(events) <= content_length,
{
    let split = spec_split_pair(content_length, tasks_count);
    let (part_size, decrease) = spec_split_content(content_length as nat, tasks_count as nat);
    lemma_split_pair_fits(content_length, tasks_count);
    assert forall|i: int| 0 <= i < state.segments.len() implies (
    #[trigger] state.segments[i]).start_seek + state.segments[i].pending.len() + spec_received(
        events,
        i as usize,
    ).len() <= u64::MAX by {
        lemma_part_end_within(content_length as nat, tasks_count as nat, i as nat);
    }
    lemma_counter_follows_run(split, state, events);
    let end = spec_run(state, events).0;
    let before = spec_frontiers(state);
    let after = spec_frontiers(end);
    assert(frontiers_within_parts(split, after, tasks_count as int)) by {
        assert forall|i: int| 0 <= i < tasks_count implies spec_part_start(
            split.0 as nat,
            split.1 as nat,
            i as nat,
        ) <= #[trigger] after[i] <= spec_part_end(split.0 as nat, split.1 as nat, i as nat)
            + 1 by {
            let segment = state.segments[i];
            law_segment_writes_are_contiguous(state, events, i as usize);
            let written = spec_written(spec_run(state, events).1, i as usize);
            assert((written + end.segments[i].pending).len() == (segment.pending + spec_received(
                events,
                i as usize,
            )).len());
            assert(spec_part_start(split.0 as nat, split.1 as nat, i as nat) <= before[i]);
            lemma_part_end_within(content_length as nat, tasks_count as nat, i as nat);
        }
    }
    law_downloaded_bytes_within_content_length(content_length, tasks_count, after);
    law_downloaded_bytes_within_content_length(content_length, tasks_count, before);
    assert(spec_received_total(events) >= 0) by {
        lemma_received_total_nonnegative(events);
    }
}

/// A run of chunks holds no less than no bytes.
pub proof fn lemma_received_total_nonnegative(events: Seq<ChunkEvent>)
    ensures
        spec_received_total(events) >= 0,
    decreases events.len(),
{
    if events.len() > 0 {
        lemma_received_total_nonnegative(events.drop_last());
    }
}

} // verus!
