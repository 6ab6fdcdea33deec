use oxideav_riff::chunk::{read_chunk_header, ByteReader, FOURCC_LIST, FOURCC_RIFF};
use oxideav_riff::padding::{is_padding_fourcc, Junk, DS64_RESERVATION_LEN, FOURCC_JUNK, FOURCC_PAD};
#[test]
fn from_body_preserves_bytes_verbatim() {
    let body = [0xDE, 0xAD, 0xBE, 0xEF, 0x00, 0x7F];
    let j = Junk::from_body(&body);
    assert_eq!(j.filler, body);
    assert_eq!(j.len(), 6);
    assert!(!j.is_empty());
}

#[test]
fn zeroed_builds_a_zero_fill() {
    let j = Junk::zeroed(10);
    assert_eq!(j.len(), 10);
    assert!(j.filler.iter().all(|&b| b == 0));
}

#[test]
fn empty_junk_is_empty() {
    let j = Junk::zeroed(0);
    assert!(j.is_empty());
    assert_eq!(j.len(), 0);
}

#[test]
fn ds64_reservation_is_28_bytes_and_classifies() {
    assert_eq!(DS64_RESERVATION_LEN, 28);
    let j = Junk::ds64_reservation();
    assert_eq!(j.len(), 28);
    assert!(j.is_ds64_reservation());
    // A 27-byte filler is one short — not a valid ds64 reservation.
    assert!(!Junk::zeroed(27).is_ds64_reservation());
    // 28 exactly, and anything larger, qualifies.
    assert!(Junk::zeroed(28).is_ds64_reservation());
    assert!(Junk::zeroed(100).is_ds64_reservation());
}

#[test]
fn encode_chunk_frames_header_and_round_trips_even_body() {
    let j = Junk::from_body(&[1, 2, 3, 4]);
    let chunk = j.encode_chunk().unwrap();
    assert_eq!(&chunk[0..4], b"JUNK");
    assert_eq!(&chunk[4..8], &4u32.to_le_bytes());
    assert_eq!(&chunk[8..12], &[1, 2, 3, 4]);
    // Even body: no pad byte.
    assert_eq!(chunk.len(), 12);

    // Re-read the header and body back.
    let mut cur = ByteReader::new(&chunk);
    let header = read_chunk_header(&mut cur).unwrap().unwrap();
    assert_eq!(header.id, FOURCC_JUNK);
    assert!(!header.is_group());
    assert_eq!(header.size, 4);
}

#[test]
fn padding_encode_chunk_pads_odd_body() {
    // 3-byte body needs a trailing RIFF pad byte.
    let j = Junk::from_body(&[0xAA, 0xBB, 0xCC]);
    let chunk = j.encode_chunk().unwrap();
    assert_eq!(&chunk[4..8], &3u32.to_le_bytes());
    // header(8) + body(3) + pad(1) = 12.
    assert_eq!(chunk.len(), 12);
    assert_eq!(chunk[11], 0, "missing RIFF pad byte");
    // The recorded ckSize excludes the pad.
    assert_eq!(
        u32::from_le_bytes([chunk[4], chunk[5], chunk[6], chunk[7]]),
        3
    );
}

#[test]
fn encode_body_matches_filler() {
    let j = Junk::zeroed(5);
    assert_eq!(j.encode_body(), vec![0u8; 5]);
}

#[test]
fn junk_is_not_a_group_fourcc() {
    // Sanity: JUNK must never collide with the two reserved group IDs.
    assert_ne!(FOURCC_JUNK, FOURCC_RIFF);
    assert_ne!(FOURCC_JUNK, FOURCC_LIST);
}

#[test]
fn ds64_reservation_filler_is_zero() {
    let j = Junk::ds64_reservation();
    assert!(j.filler.iter().all(|&b| b == 0));
}

#[test]
fn pad_fourcc_is_recognised() {
    assert_eq!(FOURCC_PAD, *b"PAD ");
    assert!(is_padding_fourcc(b"PAD "));
    assert!(is_padding_fourcc(b"JUNK"));
    assert!(!is_padding_fourcc(b"data"));
    assert!(!is_padding_fourcc(b"PAD\0"));
    // PAD must never collide with the reserved group IDs.
    assert_ne!(FOURCC_PAD, FOURCC_RIFF);
    assert_ne!(FOURCC_PAD, FOURCC_LIST);
}

#[test]
fn encode_chunk_with_pad_fourcc() {
    let j = Junk::zeroed(4);
    let chunk = j.encode_chunk_with(&FOURCC_PAD).unwrap();
    assert_eq!(&chunk[0..4], b"PAD ");
    assert_eq!(&chunk[4..8], &4u32.to_le_bytes());
    // Same framing as JUNK: header(8) + body(4).
    assert_eq!(chunk.len(), 12);

    let mut cur = ByteReader::new(&chunk);
    let header = read_chunk_header(&mut cur).unwrap().unwrap();
    assert_eq!(header.id, FOURCC_PAD);
    assert_eq!(header.size, 4);
}
