use oxideav_riff::chunk::{encode_chunk, read_chunk_header, ByteReader};
use oxideav_riff::walk::Walker;
use oxideav_riff::wavl::{
    Silence, WaveDataList, WaveSegment, FOURCC_DATA, FOURCC_SLNT, FOURCC_WAVL, SLNT_LEN,
};
#[test]
fn fourcc_and_len_constants() {
    assert_eq!(&FOURCC_WAVL, b"wavl");
    assert_eq!(&FOURCC_SLNT, b"slnt");
    assert_eq!(&FOURCC_DATA, b"data");
    assert_eq!(SLNT_LEN, 4);
}

#[test]
fn silence_parses_dword() {
    let s = Silence::parse(&44_100u32.to_le_bytes()).unwrap();
    assert_eq!(s.samples, 44_100);
}

#[test]
fn silence_zero_samples() {
    let s = Silence::parse(&[0, 0, 0, 0]).unwrap();
    assert_eq!(s.samples, 0);
}

#[test]
fn silence_rejects_short_body() {
    let err = Silence::parse(&[0, 0, 0]).unwrap_err();
    assert!(err.to_string().contains("not exactly 4 bytes"));
}

#[test]
fn silence_rejects_long_body() {
    let err = Silence::parse(&[0, 0, 0, 0, 0]).unwrap_err();
    assert!(err.to_string().contains("not exactly 4 bytes"));
}

#[test]
fn silence_body_round_trips() {
    let s = Silence::new(1_234_567);
    let body = s.encode_body();
    assert_eq!(body, 1_234_567u32.to_le_bytes());
    assert_eq!(Silence::parse(&body).unwrap(), s);
}

#[test]
fn silence_chunk_emits_header_and_no_pad() {
    let s = Silence::new(7);
    let chunk = s.encode_chunk();
    // 8-byte header + 4-byte body, even → no pad byte.
    assert_eq!(chunk.len(), 12);
    assert_eq!(&chunk[0..4], b"slnt");
    assert_eq!(chunk[4..8], 4u32.to_le_bytes());
    assert_eq!(chunk[8..12], 7u32.to_le_bytes());
}

/// Build a `wavl` LIST blob from a list of `(fourcc, body)` children.
fn wavl_blob(children: &[(&[u8; 4], &[u8])]) -> Vec<u8> {
    let mut body = Vec::new();
    body.extend_from_slice(b"wavl");
    for (id, b) in children {
        encode_chunk(&mut body, id, b).unwrap();
    }
    let mut out = Vec::new();
    encode_chunk(&mut out, b"LIST", &body).unwrap();
    out
}

fn open_wavl_walker(blob: &[u8]) -> Vec<WaveSegment> {
    let data = blob.to_vec();
    let mut cur = ByteReader::new(&data);
    let header = read_chunk_header(&mut cur).unwrap().unwrap();
    assert!(header.is_group());
    let mut walker = Walker::open_within(cur, &header).unwrap();
    assert_eq!(walker.form_type(), FOURCC_WAVL);
    WaveDataList::collect_from(&mut walker)
        .unwrap()
        .segments()
        .to_vec()
}

#[test]
fn collect_from_walks_data_and_slnt_in_order() {
    let blob = wavl_blob(&[
        (b"data", &[1, 2, 3, 4]),
        (b"slnt", &100u32.to_le_bytes()),
        (b"data", &[5, 6]),
    ]);
    let segs = open_wavl_walker(&blob);
    assert_eq!(segs.len(), 3);
    assert_eq!(segs[0].data_bytes(), Some(&[1, 2, 3, 4][..]));
    assert_eq!(segs[1].silence_samples(), Some(100));
    assert_eq!(segs[2].data_bytes(), Some(&[5, 6][..]));
}

#[test]
fn collect_from_handles_odd_length_data_pad() {
    // A 3-byte data run needs a RIFF pad byte; the walker must
    // re-sync onto the next child.
    let blob = wavl_blob(&[
        (b"data", &[0xAA, 0xBB, 0xCC]),
        (b"slnt", &5u32.to_le_bytes()),
    ]);
    let segs = open_wavl_walker(&blob);
    assert_eq!(segs.len(), 2);
    assert_eq!(segs[0].data_bytes(), Some(&[0xAA, 0xBB, 0xCC][..]));
    assert_eq!(segs[1].silence_samples(), Some(5));
}

#[test]
fn collect_from_preserves_unknown_child() {
    let blob = wavl_blob(&[(b"data", &[1, 2]), (b"junk", &[9, 9, 9, 9])]);
    let segs = open_wavl_walker(&blob);
    assert_eq!(segs.len(), 2);
    assert!(matches!(&segs[1], WaveSegment::Other(id, b)
        if id == b"junk" && b == &[9, 9, 9, 9]));
}

#[test]
fn collect_from_rejects_malformed_slnt() {
    let blob = wavl_blob(&[(b"slnt", &[0, 0, 0])]);
    let mut cur = ByteReader::new(&blob);
    let header = read_chunk_header(&mut cur).unwrap().unwrap();
    let mut walker = Walker::open_within(cur, &header).unwrap();
    let err = WaveDataList::collect_from(&mut walker).unwrap_err();
    assert!(err.to_string().contains("not exactly 4 bytes"));
}

#[test]
fn collect_from_rejects_non_wavl_list() {
    // A LIST INFO blob fed to the wavl collector.
    let mut body = Vec::new();
    body.extend_from_slice(b"INFO");
    encode_chunk(&mut body, b"INAM", b"x\0").unwrap();
    let mut out = Vec::new();
    encode_chunk(&mut out, b"LIST", &body).unwrap();
    let mut cur = ByteReader::new(&out);
    let header = read_chunk_header(&mut cur).unwrap().unwrap();
    let mut walker = Walker::open_within(cur, &header).unwrap();
    let err = WaveDataList::collect_from(&mut walker).unwrap_err();
    assert!(err.to_string().contains("non-wavl LIST"));
}

#[test]
fn totals_account_data_bytes_and_silent_samples() {
    let mut list = WaveDataList::new();
    list.push_data(vec![0u8; 10]);
    list.push_silence(48_000);
    list.push_data(vec![0u8; 6]);
    list.push_silence(2_000);
    assert_eq!(list.len(), 4);
    assert_eq!(list.total_data_bytes(), 16);
    assert_eq!(list.total_silent_samples(), 50_000);
}

#[test]
fn total_silent_samples_cannot_overflow_u32() {
    let mut list = WaveDataList::new();
    list.push_silence(u32::MAX);
    list.push_silence(u32::MAX);
    assert_eq!(list.total_silent_samples(), 2 * u64::from(u32::MAX));
}

#[test]
fn builder_round_trips_through_collect() {
    let mut list = WaveDataList::new();
    list.push_data(vec![1, 2, 3, 4]);
    list.push_silence(256);
    list.push_data(vec![7, 7, 7]); // odd → pad on encode
    list.push_silence(0);
    let chunk = list.encode_chunk().unwrap();

    let segs = open_wavl_walker(&chunk);
    assert_eq!(segs.len(), 4);
    let mut collected = WaveDataList::new();
    for s in segs {
        collected.push_segment(s);
    }
    assert_eq!(collected, list);
}

#[test]
fn encode_list_body_starts_with_wavl_type() {
    let mut list = WaveDataList::new();
    list.push_silence(1);
    let body = list.encode_list_body().unwrap();
    assert_eq!(&body[0..4], b"wavl");
}

#[test]
fn empty_list_round_trips() {
    let list = WaveDataList::new();
    assert!(list.is_empty());
    let chunk = list.encode_chunk().unwrap();
    let segs = open_wavl_walker(&chunk);
    assert!(segs.is_empty());
}

#[test]
fn push_child_dispatches_by_fourcc() {
    let mut list = WaveDataList::new();
    list.push_child(*b"data", &[1, 2, 3]).unwrap();
    list.push_child(*b"slnt", &9u32.to_le_bytes()).unwrap();
    list.push_child(*b"vend", &[0xFF]).unwrap();
    assert!(list.segments()[0].is_data());
    assert!(list.segments()[1].is_silence());
    assert!(matches!(&list.segments()[2], WaveSegment::Other(id, _) if id == b"vend"));
}

#[test]
fn wavl_push_child_failure_leaves_list_unchanged() {
    let mut list = WaveDataList::new();
    list.push_silence(3);
    assert!(list.push_child(FOURCC_SLNT, &[1, 2]).is_err());
    assert_eq!(list.len(), 1);
    assert_eq!(list.segments()[0].silence_samples(), Some(3));
    assert_eq!(list.segments()[0].data_bytes(), None);
}

#[test]
fn wavl_other_segment_keeps_its_bytes_in_encoding() {
    let mut list = WaveDataList::new();
    list.push_segment(WaveSegment::Other(*b"vend", vec![1, 2, 3]));
    let body = list.encode_list_body().unwrap();
    assert_eq!(body, b"wavlvend\x03\x00\x00\x00\x01\x02\x03\x00".to_vec());
    assert_eq!(Silence::default().samples, 0);
}
