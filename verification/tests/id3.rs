use oxideav_riff::chunk::{read_chunk_header, ByteReader, FOURCC_LIST, FOURCC_RIFF};
use oxideav_riff::id3::{
    build_id3v2_header, is_id3_fourcc, parse_id3v2_header, syncsafe_bytes, syncsafe_u32, Id3Chunk,
    FOURCC_ID3, FOURCC_ID3_UPPER, ID3V2_HEADER_LEN, ID3V2_MAGIC, ID3_FLAG_EXPERIMENTAL,
    ID3_FLAG_EXTENDED_HEADER, ID3_FLAG_FOOTER, ID3_FLAG_UNSYNCHRONISATION,
};
fn sample_tag() -> Vec<u8> {
    // A v2.3 header (flags = 0) claiming 0x1FF bytes follow, then some
    // opaque "frame" bytes (we do NOT decode them).
    let mut t = build_id3v2_header(3, 0, 0, 0x1FF).to_vec();
    t.extend_from_slice(&[b'T', b'I', b'T', b'2', 0, 0, 0, 5, 0, 0]);
    t
}

#[test]
fn fourcc_recognition() {
    assert!(is_id3_fourcc(b"id3 "));
    assert!(is_id3_fourcc(b"ID3 "));
    assert!(!is_id3_fourcc(b"data"));
    assert!(!is_id3_fourcc(b"ID3\0"));
    assert_ne!(FOURCC_ID3, FOURCC_RIFF);
    assert_ne!(FOURCC_ID3, FOURCC_LIST);
}

#[test]
fn syncsafe_round_trips() {
    for v in [0u32, 1, 0x7F, 0x80, 0x1FF, 0x0FFF_FFFF] {
        assert_eq!(syncsafe_u32(&syncsafe_bytes(v)), v, "v = {v:#x}");
    }
    // The encode forces bit 7 of every byte to zero.
    for b in syncsafe_bytes(0x0FFF_FFFF) {
        assert_eq!(b & 0x80, 0);
    }
    // Values past 28 bits truncate to the low 28.
    assert_eq!(syncsafe_u32(&syncsafe_bytes(0xFFFF_FFFF)), 0x0FFF_FFFF);
}

#[test]
fn parses_a_v23_header() {
    let body = sample_tag();
    let h = parse_id3v2_header(&body).unwrap();
    assert_eq!(h.version_major, 3);
    assert_eq!(h.version_revision, 0);
    assert_eq!(h.flags, 0);
    assert_eq!(h.size, 0x1FF);
    assert!(!h.unsynchronisation());
    assert!(!h.has_extended_header());
    assert!(!h.has_footer());
    assert_eq!(h.total_tag_len(), Some(0x1FF + 10));
}

#[test]
fn flag_bits_decode() {
    let flags = ID3_FLAG_UNSYNCHRONISATION
        | ID3_FLAG_EXTENDED_HEADER
        | ID3_FLAG_EXPERIMENTAL
        | ID3_FLAG_FOOTER;
    let body = build_id3v2_header(4, 0, flags, 100).to_vec();
    let h = parse_id3v2_header(&body).unwrap();
    assert!(h.unsynchronisation());
    assert!(h.has_extended_header());
    assert!(h.experimental());
    assert!(h.has_footer());
    // Footer adds a second 10-byte block to the total.
    assert_eq!(h.total_tag_len(), Some(100 + 10 + 10));
}

#[test]
fn unrecognised_body_is_preserved_not_rejected() {
    // A body that doesn't open with the ID3 magic — kept verbatim,
    // header is None.
    let body = [0xDE, 0xAD, 0xBE, 0xEF, 1, 2, 3, 4, 5, 6, 7, 8];
    let c = Id3Chunk::from_body(&body);
    assert!(!c.is_recognised());
    assert_eq!(c.tag, body);
    assert_eq!(c.len(), 12);

    // A body too short to hold a header.
    let short = Id3Chunk::from_body(b"ID3");
    assert!(!short.is_recognised());
    assert_eq!(short.tag, b"ID3");
}

#[test]
fn from_body_recognises_and_preserves() {
    let body = sample_tag();
    let c = Id3Chunk::from_body(&body);
    assert!(c.is_recognised());
    assert_eq!(c.tag_bytes(), &body[..]);
    assert_eq!(c.header.unwrap().version_major, 3);
}

#[test]
fn encode_chunk_round_trips_lowercase() {
    let body = sample_tag();
    let c = Id3Chunk::from_body(&body);
    let chunk = c.encode_chunk().unwrap();
    assert_eq!(&chunk[0..4], b"id3 ");
    assert_eq!(
        u32::from_le_bytes([chunk[4], chunk[5], chunk[6], chunk[7]]),
        body.len() as u32
    );
    assert_eq!(&chunk[8..8 + body.len()], &body[..]);

    let mut cur = ByteReader::new(&chunk);
    let header = read_chunk_header(&mut cur).unwrap().unwrap();
    assert_eq!(header.id, FOURCC_ID3);
    assert_eq!(header.size as usize, body.len());
}

#[test]
fn encode_chunk_preserves_uppercase_spelling() {
    let body = sample_tag();
    let c = Id3Chunk::from_body(&body);
    let chunk = c.encode_chunk_with(&FOURCC_ID3_UPPER).unwrap();
    assert_eq!(&chunk[0..4], b"ID3 ");
}

#[test]
fn id3_encode_chunk_pads_odd_body() {
    // An odd-length tag body needs a trailing RIFF pad byte.
    let mut body = build_id3v2_header(4, 0, 0, 3).to_vec();
    body.extend_from_slice(&[1, 2, 3]); // total 13 bytes (odd)
    let c = Id3Chunk::from_body(&body);
    let chunk = c.encode_chunk().unwrap();
    // header(8) + body(13) + pad(1) = 22.
    assert_eq!(chunk.len(), 22);
    assert_eq!(*chunk.last().unwrap(), 0, "missing RIFF pad byte");
    assert_eq!(
        u32::from_le_bytes([chunk[4], chunk[5], chunk[6], chunk[7]]),
        13
    );
}

#[test]
fn empty_body_is_preserved() {
    let c = Id3Chunk::from_body(&[]);
    assert!(c.is_empty());
    assert!(!c.is_recognised());
    assert_eq!(c.encode_body(), Vec::<u8>::new());
}

#[test]
fn id3_header_constants_and_short_input() {
    assert_eq!(&ID3V2_MAGIC, b"ID3");
    assert_eq!(ID3V2_HEADER_LEN, 10);
    assert!(parse_id3v2_header(b"ID3\x03\x00\x00\x00\x00\x01").is_none());
    let h = build_id3v2_header(4, 1, 0, 0x0FFF_FFFF);
    assert_eq!(&h[0..3], b"ID3");
    assert_eq!(parse_id3v2_header(&h).unwrap().size, 0x0FFF_FFFF);
}

#[test]
fn id3_syncsafe_known_value() {
    assert_eq!(syncsafe_bytes(0x1FF), [0, 0, 0x03, 0x7F]);
    assert_eq!(syncsafe_u32(&[0x7F, 0x7F, 0x7F, 0x7F]), 0x0FFF_FFFF);
}
