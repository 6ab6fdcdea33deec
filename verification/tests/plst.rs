use oxideav_riff::plst::{PlaySegment, Playlist, FOURCC_PLST, PLAY_SEGMENT_LEN};
/// Build one 12-byte play-segment record.
fn seg(name: u32, length: u32, loops: u32) -> Vec<u8> {
    let mut v = Vec::with_capacity(PLAY_SEGMENT_LEN);
    v.extend_from_slice(&name.to_le_bytes());
    v.extend_from_slice(&length.to_le_bytes());
    v.extend_from_slice(&loops.to_le_bytes());
    v
}

/// Build a `plst` chunk body from a list of records (count prefix +
/// records).
fn plst_body(records: &[Vec<u8>]) -> Vec<u8> {
    let mut body = Vec::new();
    body.extend_from_slice(&(records.len() as u32).to_le_bytes());
    for r in records {
        body.extend_from_slice(r);
    }
    body
}

#[test]
fn segment_record_is_12_bytes() {
    assert_eq!(PLAY_SEGMENT_LEN, 12);
    let s = seg(1, 2, 3);
    assert_eq!(s.len(), 12);
}

#[test]
fn parse_single_segment() {
    let body = plst_body(&[seg(1, 44_100, 1)]);
    let pl = Playlist::parse(&body).unwrap();
    assert_eq!(pl.len(), 1);
    let s = &pl.segments()[0];
    assert_eq!(s.name, 1);
    assert_eq!(s.length, 44_100);
    assert_eq!(s.loops, 1);
}

#[test]
fn parse_multiple_segments_preserves_order() {
    let body = plst_body(&[seg(10, 1000, 1), seg(20, 2000, 4), seg(10, 500, 2)]);
    let pl = Playlist::parse(&body).unwrap();
    assert_eq!(pl.len(), 3);
    assert_eq!(pl.segments()[0].name, 10);
    assert_eq!(pl.segments()[1].name, 20);
    assert_eq!(pl.segments()[1].loops, 4);
    // A cue point may appear in more than one play segment.
    assert_eq!(pl.segments()[2].name, 10);
    assert_eq!(pl.segments()[2].loops, 2);
}

#[test]
fn by_name_finds_first_segment() {
    let body = plst_body(&[seg(7, 100, 1), seg(9, 200, 1), seg(7, 300, 5)]);
    let pl = Playlist::parse(&body).unwrap();
    assert_eq!(pl.by_name(9).unwrap().length, 200);
    // First match wins when a cue is referenced twice.
    assert_eq!(pl.by_name(7).unwrap().length, 100);
    assert!(pl.by_name(99).is_none());
}

#[test]
fn empty_playlist() {
    let body = plst_body(&[]);
    let pl = Playlist::parse(&body).unwrap();
    assert!(pl.is_empty());
    assert_eq!(pl.len(), 0);
}

#[test]
fn plst_body_shorter_than_count_is_rejected() {
    let err = Playlist::parse(&[]).unwrap_err();
    assert!(err.to_string().contains("shorter than 4-byte count"));
}

#[test]
fn plst_count_disagreeing_with_body_is_rejected() {
    // Declares 2 segments but supplies only one record's worth.
    let mut body = Vec::new();
    body.extend_from_slice(&2u32.to_le_bytes());
    body.extend_from_slice(&seg(1, 0, 0));
    let err = Playlist::parse(&body).unwrap_err();
    assert!(err.to_string().contains("disagrees with dwSegments"));
}

#[test]
fn plst_overlong_body_is_rejected() {
    // Declares 1 segment but supplies two records.
    let mut body = Vec::new();
    body.extend_from_slice(&1u32.to_le_bytes());
    body.extend_from_slice(&seg(1, 0, 0));
    body.extend_from_slice(&seg(2, 0, 0));
    let err = Playlist::parse(&body).unwrap_err();
    assert!(err.to_string().contains("disagrees with dwSegments"));
}

#[test]
fn segment_parse_rejects_wrong_length() {
    let err = PlaySegment::parse(&[0u8; 11]).unwrap_err();
    assert!(err.to_string().contains("not 12 bytes"));
}

#[test]
fn segment_encode_is_parse_inverse() {
    let raw = seg(20, 2000, 4);
    let s = PlaySegment::parse(&raw).unwrap();
    assert_eq!(&s.encode()[..], &raw[..]);
    assert_eq!(PlaySegment::parse(&s.encode()).unwrap(), s);
}

#[test]
fn plst_encode_body_round_trips() {
    let body = plst_body(&[seg(10, 1000, 1), seg(20, 2000, 4), seg(10, 500, 2)]);
    let pl = Playlist::parse(&body).unwrap();
    let encoded = pl.encode_body();
    assert_eq!(encoded, body);
    assert_eq!(Playlist::parse(&encoded).unwrap(), pl);
}

#[test]
fn empty_encode_body_round_trips() {
    let pl = Playlist::new();
    assert_eq!(pl.encode_body(), 0u32.to_le_bytes().to_vec());
    assert!(Playlist::parse(&pl.encode_body()).unwrap().is_empty());
}

#[test]
fn plst_builder_encode_parse_round_trip() {
    let pl = Playlist::from_segments(vec![PlaySegment::parse(&seg(1, 100, 1)).unwrap()])
        .push(PlaySegment::parse(&seg(2, 200, 3)).unwrap());
    let encoded = pl.encode_body();
    let reparsed = Playlist::parse(&encoded).unwrap();
    assert_eq!(reparsed, pl);
    assert_eq!(encoded[0..4], 2u32.to_le_bytes());
}

#[test]
fn plst_fourcc_and_default() {
    assert_eq!(&FOURCC_PLST, b"plst");
    assert!(Playlist::default().is_empty());
}
