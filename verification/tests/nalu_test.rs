use desklink::nalu::{find_nalu_range, find_nalu_range_at, find_start_code, frame_packet, NaluFramer};
use desklink::protocol::{VideoHeader, VIDEO_HEADER_SIZE};

#[test]
fn start_code_forms() {
    assert_eq!(find_start_code(&[9, 0, 0, 1, 5, 6], 0), Some(1));
    assert_eq!(find_start_code(&[9, 0, 0, 0, 1, 5], 0), Some(1));
    assert_eq!(find_start_code(&[0, 0, 1, 7], 1), None);
    assert_eq!(find_start_code(&[1, 2], 0), None);
    // A three-byte start code in the last three bytes is not found.
    assert_eq!(find_start_code(&[7, 7, 0, 0, 1], 0), None);
    assert_eq!(find_start_code(&[7, 0, 0, 1, 9], 0), Some(1));
}

#[test]
fn nalu_range_between_start_codes() {
    let buf = [0, 0, 0, 1, 0x67, 0x42, 0, 0, 1, 0x68, 0xce, 0, 0, 0, 1, 0x65, 0x88];
    assert_eq!(find_nalu_range(&buf), Some((0, 6)));
    assert_eq!(find_nalu_range_at(&buf, 6), Some((6, 11)));
    assert_eq!(find_nalu_range_at(&buf, 11), None);
    assert_eq!(find_nalu_range(&buf[..7]), None);
}

#[test]
fn framed_packet_layout() {
    let nalu = [0u8, 0, 0, 1, 0x65, 0xaa];
    let p = frame_packet(&nalu, 77);
    assert_eq!(p.len(), VIDEO_HEADER_SIZE + nalu.len());
    let mut header = [0u8; VIDEO_HEADER_SIZE];
    header.copy_from_slice(&p[..VIDEO_HEADER_SIZE]);
    assert_eq!(VideoHeader::decode(&header), Ok(VideoHeader::new(6, 77)));
    assert_eq!(&p[VIDEO_HEADER_SIZE..], &nalu);
}

#[test]
fn framer_splits_stream_across_reads() {
    let mut f = NaluFramer::new();
    let first = f.feed(&[0, 0, 0, 1, 0x67, 0x42, 0x1f]);
    assert!(first.is_empty());
    let second = f.feed(&[0, 0, 1, 0x68, 0xce, 0x3c, 0x80, 0, 0, 0, 1, 0x65, 0x88, 0x84, 0x21]);
    assert_eq!(second.len(), 2);
    assert_eq!(&second[0][VIDEO_HEADER_SIZE..], &[0, 0, 0, 1, 0x67, 0x42, 0x1f]);
    assert_eq!(&second[1][VIDEO_HEADER_SIZE..], &[0, 0, 1, 0x68, 0xce, 0x3c, 0x80]);
    // The concatenated payloads are the stream up to the last start code.
    let third = f.feed(&[0, 0, 1, 0x41]);
    assert_eq!(third.len(), 1);
    assert_eq!(&third[0][VIDEO_HEADER_SIZE..], &[0, 0, 0, 1, 0x65, 0x88, 0x84, 0x21]);
}

#[test]
fn framer_compacts_after_threshold() {
    let mut f = NaluFramer::new();
    let mut data = vec![0u8, 0, 0, 1];
    data.extend(std::iter::repeat(0x11u8).take(140_000));
    data.extend_from_slice(&[0, 0, 0, 1, 0x22, 0x22, 0x22, 0x22, 0x22]);
    let packets = f.feed(&data);
    assert_eq!(packets.len(), 1);
    assert_eq!(packets[0].len(), VIDEO_HEADER_SIZE + 140_004);
    // After compaction the unconsumed start code is still found.
    let more = f.feed(&[0, 0, 1, 0x33]);
    assert_eq!(more.len(), 1);
    assert_eq!(&more[0][VIDEO_HEADER_SIZE..], &[0, 0, 0, 1, 0x22, 0x22, 0x22, 0x22, 0x22]);
}
