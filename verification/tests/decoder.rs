use hablog::decoder::{copy_with_padding, FrameDecoder};
use hablog::packet::Direction;

/// Builds one wire frame: 4-byte big-endian length, then header and payload.
fn frame(header: u16, payload: &[u8]) -> Vec<u8> {
    let declared = (payload.len() + 2) as u32;
    let mut out = Vec::new();
    out.extend_from_slice(&declared.to_be_bytes());
    out.extend_from_slice(&header.to_be_bytes());
    out.extend_from_slice(payload);
    out
}

#[test]
fn empty_ingest_yields_nothing() {
    let mut d = FrameDecoder::new(Direction::Incoming);
    let frames = d.ingest(&[]);
    assert!(frames.is_empty());
}

#[test]
fn coalesced_frames_in_one_ingest() {
    let f1 = frame(0x04bd, &[1, 2, 3]);
    let f2 = frame(0x0e47, &[9, 8]);
    let mut both = f1.clone();
    both.extend_from_slice(&f2);

    let mut d = FrameDecoder::new(Direction::Incoming);
    let frames = d.ingest(&both);
    assert_eq!(frames.len(), 2);
    assert_eq!(frames[0].bytes, f1);
    assert_eq!(frames[1].bytes, f2);

    let mut p0 = frames[0].clone();
    assert_eq!(p0.get_header(), 0x04bd);
    let mut p0b = frames[0].clone();
    assert_eq!(p0b.get_body(), vec![1, 2, 3]);
    let mut p1 = frames[1].clone();
    assert_eq!(p1.get_header(), 0x0e47);
    let mut p1b = frames[1].clone();
    assert_eq!(p1b.get_body(), vec![9, 8]);
}

#[test]
fn split_frame_three_calls() {
    let f = frame(0x04bd, &[0, 0, 0, 5]);
    assert_eq!(f.len(), 10);

    let mut d = FrameDecoder::new(Direction::Outgoing);
    let first = d.ingest(&f[0..4]);
    assert_eq!(first.len(), 0);
    let second = d.ingest(&f[4..6]);
    assert_eq!(second.len(), 0);
    let third = d.ingest(&f[6..10]);
    assert_eq!(third.len(), 1);
    assert_eq!(third[0].bytes, f);
    let mut p = third[0].clone();
    assert_eq!(p.get_header(), 0x04bd);
    let mut pb = third[0].clone();
    assert_eq!(pb.get_body(), vec![0, 0, 0, 5]);
}

#[test]
fn wire_scenario_exact_bytes() {
    // declared length 6, header 0x04bd, payload 00 00 00 05
    let bytes: Vec<u8> = vec![0x00, 0x00, 0x00, 0x06, 0x04, 0xbd, 0x00, 0x00, 0x00, 0x05];
    let mut d = FrameDecoder::new(Direction::Outgoing);
    let frames = d.ingest(&bytes);
    assert_eq!(frames.len(), 1);
    assert_eq!(frames[0].bytes, bytes);
    let mut p = frames[0].clone();
    assert_eq!(p.read_length(), 6);
    assert_eq!(p.get_header(), 0x04bd);
    let mut pb = frames[0].clone();
    assert_eq!(pb.get_body(), vec![0x00, 0x00, 0x00, 0x05]);
}

#[test]
fn round_trip_independent_of_chunking() {
    // One byte stream holding three frames plus a truncated fourth.
    let mut stream = Vec::new();
    stream.extend_from_slice(&frame(10, b"hello"));
    stream.extend_from_slice(&frame(3655, b"!debug on"));
    stream.extend_from_slice(&frame(0xffff, &[]));
    stream.extend_from_slice(&[0x00, 0x00, 0x00, 0x09, 0x01]); // incomplete tail

    // Deliver it with several different chunkings; the reassembled frames
    // must always be the same, and their concatenation plus the retained
    // tail must equal the stream.
    for chunk_size in [1usize, 2, 3, 7, 16, stream.len()] {
        let mut d = FrameDecoder::new(Direction::Incoming);
        let mut collected: Vec<Vec<u8>> = Vec::new();
        for chunk in stream.chunks(chunk_size) {
            for p in d.ingest(chunk) {
                collected.push(p.bytes);
            }
        }
        assert_eq!(collected.len(), 3, "chunk size {}", chunk_size);
        let mut reassembled: Vec<u8> = Vec::new();
        for f in &collected {
            reassembled.extend_from_slice(f);
        }
        assert_eq!(&stream[0..reassembled.len()], &reassembled[..]);
        assert_eq!(reassembled.len(), stream.len() - 5);
    }
}

#[test]
fn zero_declared_length_frame() {
    // A frame whose declared length is 0 occupies only its length field.
    let bytes: Vec<u8> = vec![0, 0, 0, 0, 0, 0, 0, 2, 0xab, 0xcd];
    let mut d = FrameDecoder::new(Direction::Incoming);
    let frames = d.ingest(&bytes);
    assert_eq!(frames.len(), 2);
    assert_eq!(frames[0].bytes, vec![0, 0, 0, 0]);
    assert_eq!(frames[1].bytes, vec![0, 0, 0, 2, 0xab, 0xcd]);
    let mut p0 = frames[0].clone();
    assert_eq!(p0.get_header(), 0); // no header bytes present
    let mut p1 = frames[1].clone();
    assert_eq!(p1.get_header(), 0xabcd);
}

#[test]
fn copy_with_padding_pads_missing_tail() {
    let original = [1u8, 2, 3, 4];
    assert_eq!(copy_with_padding(&original, 0, 4), vec![1, 2, 3, 4]);
    assert_eq!(copy_with_padding(&original, 1, 3), vec![2, 3]);
    assert_eq!(copy_with_padding(&original, 2, 7), vec![3, 4, 0, 0, 0]);
    assert_eq!(copy_with_padding(&original, 4, 6), vec![0, 0]);
    assert_eq!(copy_with_padding(&original, 2, 2), Vec::<u8>::new());
}

#[test]
fn sustained_traffic_no_loss() {
    // A few megabytes of back-to-back frames, delivered in uneven chunks.
    let payload: Vec<u8> = (0..999u32).map(|i| (i % 251) as u8).collect();
    let one = frame(0x1234, &payload);
    let mut stream = Vec::new();
    for _ in 0..2000 {
        stream.extend_from_slice(&one);
    }
    let mut d = FrameDecoder::new(Direction::Outgoing);
    let mut count = 0usize;
    let mut total = 0usize;
    for chunk in stream.chunks(16384) {
        for p in d.ingest(chunk) {
            assert_eq!(p.bytes, one);
            count += 1;
            total += p.bytes.len();
        }
    }
    assert_eq!(count, 2000);
    assert_eq!(total, stream.len());
}
