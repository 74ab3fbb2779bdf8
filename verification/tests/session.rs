use bytefetch::bytes_aggregator::BytesAggregator;
use bytefetch::info::HttpDownloadInfo;
use bytefetch::session::{HttpDownloadSession, WriteRequest, CHUNK_QUEUE_CAPACITY, WRITE_SIZE};
use bytes::Bytes;

fn chunk(fill: u8, len: usize) -> Bytes {
    Bytes::from(vec![fill; len])
}

fn triple(request: &WriteRequest) -> (usize, u64, Vec<u8>) {
    (request.index, request.offset, request.buffer.to_vec())
}

#[test]
fn aggregator_merges_chunks_in_arrival_order() {
    let mut aggregator = BytesAggregator::new(100);
    assert_eq!(aggregator.len(), 0);
    assert_eq!(aggregator.start_seek(), 100);
    aggregator.push(Bytes::from_static(b"hello "));
    aggregator.push(Bytes::from_static(b""));
    aggregator.push(Bytes::from_static(b"world"));
    assert_eq!(aggregator.len(), 11);
    assert_eq!(aggregator.start_seek(), 100);
    let merged = aggregator.merge_all();
    assert_eq!(&merged[..], b"hello world");
    assert_eq!(aggregator.len(), 0);
    assert_eq!(aggregator.start_seek(), 111);
    let nothing = aggregator.merge_all();
    assert_eq!(nothing.len(), 0);
    assert_eq!(aggregator.start_seek(), 111);
}

#[test]
fn session_limits() {
    assert_eq!(WRITE_SIZE, 32 * 1024);
    assert_eq!(CHUNK_QUEUE_CAPACITY, 512);
}

#[test]
fn session_starts_without_segments() {
    let mut session = HttpDownloadSession::new(4);
    assert_eq!(session.parties(), 4);
    assert_eq!(session.segments(), 0);
    assert!(session.can_write());
    session.open_segment(0);
    session.open_segment(250);
    assert_eq!(session.segments(), 2);
    assert!(session.finish().is_empty());
}

#[test]
fn chunks_wait_until_a_full_write_is_there() {
    let mut info = HttpDownloadInfo::default();
    let mut session = HttpDownloadSession::new(2);
    session.open_segment(0);
    session.open_segment(1_000_000);
    assert!(session.has_room_for(&info, WRITE_SIZE - 1, 1));
    assert!(session.accept_chunk(&mut info, chunk(1, WRITE_SIZE - 1), 1).is_none());
    assert!(session.accept_chunk(&mut info, chunk(2, 10), 0).is_none());
    assert_eq!(info.downloaded_bytes(), WRITE_SIZE as u64 + 9);
    let request = session.accept_chunk(&mut info, chunk(3, 1), 1).unwrap();
    let mut expected = vec![1u8; WRITE_SIZE - 1];
    expected.push(3);
    assert_eq!(triple(&request), (1, 1_000_000, expected));
    assert_eq!(info.downloaded_bytes(), WRITE_SIZE as u64 + 10);
    let next = session.accept_chunk(&mut info, chunk(4, WRITE_SIZE + 5), 1).unwrap();
    assert_eq!(triple(&next), (1, 1_000_000 + WRITE_SIZE as u64, vec![4u8; WRITE_SIZE + 5]));
    let rest = session.finish();
    assert_eq!(rest.len(), 1);
    assert_eq!(triple(&rest[0]), (0, 0, vec![2u8; 10]));
    assert!(session.finish().is_empty());
}

#[test]
fn writes_of_a_segment_are_contiguous_and_hold_every_byte_once() {
    let mut info = HttpDownloadInfo::default();
    let mut session = HttpDownloadSession::new(3);
    let starts = [0u64, 500_000, 1_000_000];
    for start in starts {
        session.open_segment(start);
    }
    let mut received: Vec<Vec<u8>> = vec![vec![], vec![], vec![]];
    let mut requests: Vec<WriteRequest> = vec![];
    let mut downloaded = 0u64;
    for step in 0..400usize {
        let index = (step * 7 + step / 3) % 3;
        let len = (step * 2503) % 9000;
        let data = vec![(step % 251) as u8; len];
        received[index].extend_from_slice(&data);
        let before = info.downloaded_bytes();
        if let Some(request) = session.accept_chunk(&mut info, Bytes::from(data), index) {
            requests.push(request);
        }
        assert!(info.downloaded_bytes() >= before);
        downloaded += len as u64;
        assert_eq!(info.downloaded_bytes(), downloaded);
    }
    requests.extend(session.finish());
    for index in 0..3 {
        let mut written: Vec<u8> = vec![];
        for request in requests.iter().filter(|request| request.index == index) {
            assert_eq!(request.offset, starts[index] + written.len() as u64);
            written.extend_from_slice(&request.buffer);
        }
        assert_eq!(written, received[index]);
    }
}

#[test]
fn chunks_are_dropped_once_the_writer_is_gone() {
    let mut info = HttpDownloadInfo::default();
    let mut session = HttpDownloadSession::new(1);
    session.open_segment(0);
    assert!(session.accept_chunk(&mut info, chunk(1, 100), 0).is_none());
    session.writer_lost();
    assert!(!session.can_write());
    assert!(session.accept_chunk(&mut info, chunk(2, WRITE_SIZE), 0).is_none());
    assert_eq!(info.downloaded_bytes(), 100);
    let rest = session.finish();
    assert_eq!(rest.len(), 1);
    assert_eq!(triple(&rest[0]), (0, 0, vec![1u8; 100]));
}

#[test]
fn flush_remainder_empties_one_segment() {
    let mut info = HttpDownloadInfo::default();
    let mut session = HttpDownloadSession::new(2);
    session.open_segment(10);
    session.open_segment(20);
    assert!(session.accept_chunk(&mut info, chunk(9, 3), 1).is_none());
    assert!(session.flush_remainder(0).is_none());
    let request = session.flush_remainder(1).unwrap();
    assert_eq!(triple(&request), (1, 20, vec![9u8; 3]));
    assert!(session.flush_remainder(1).is_none());
    assert!(session.accept_chunk(&mut info, chunk(8, 2), 1).is_none());
    let request = session.flush_remainder(1).unwrap();
    assert_eq!(triple(&request), (1, 23, vec![8u8; 2]));
}

#[test]
fn room_is_refused_where_a_limit_would_be_passed() {
    let info = HttpDownloadInfo::default();
    let mut session = HttpDownloadSession::new(1);
    session.open_segment(u64::MAX - 10);
    assert!(session.has_room_for(&info, 10, 0));
    assert!(!session.has_room_for(&info, 11, 0));
    assert!(!session.has_room_for(&info, 1, 1));
    assert!(!session.has_room_for(&info, usize::MAX, 0));
    let mut counted = HttpDownloadInfo::default();
    counted.add_to_downloaded_bytes(u64::MAX - 5);
    let mut fresh = HttpDownloadSession::new(1);
    fresh.open_segment(0);
    assert!(fresh.has_room_for(&counted, 5, 0));
    assert!(!fresh.has_room_for(&counted, 6, 0));
}
