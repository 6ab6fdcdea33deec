use oxideav_riff::walk::{ChunkRef, Walker};
/// Minimal RIFF/WAVE skeleton with two leaf chunks:
/// `fmt ` (4-byte body) and `data` (3-byte body — exercises pad).
fn synthetic_wave() -> Vec<u8> {
    let mut v = Vec::new();
    v.extend_from_slice(b"RIFF");
    v.extend_from_slice(&(4u32 + 8 + 4 + 8 + 3 + 1).to_le_bytes());
    v.extend_from_slice(b"WAVE");
    // fmt chunk
    v.extend_from_slice(b"fmt ");
    v.extend_from_slice(&4u32.to_le_bytes());
    v.extend_from_slice(&[0x01, 0x00, 0x02, 0x00]); // arbitrary
                                                    // data chunk (odd-length → pad)
    v.extend_from_slice(b"data");
    v.extend_from_slice(&3u32.to_le_bytes());
    v.extend_from_slice(&[0xAA, 0xBB, 0xCC]);
    v.push(0); // pad
    v
}

#[test]
fn open_root_decodes_form_type_and_yields_children() {
    let bytes = synthetic_wave();
    let mut walker = Walker::open_root(&bytes).unwrap();
    assert_eq!(&walker.form_type(), b"WAVE");

    let first = walker.read_next().unwrap().unwrap();
    assert_eq!(&first.id, b"fmt ");
    assert_eq!(first.size, 4);
    // The body of fmt starts right after the outer "RIFF"/size/form
    // (12 bytes) + the fmt header (8 bytes) = 20.
    assert_eq!(first.body_offset, 20);
    let body = walker.read_body(&first).unwrap();
    assert_eq!(body, vec![0x01, 0x00, 0x02, 0x00]);

    let second = walker.read_next().unwrap().unwrap();
    assert_eq!(&second.id, b"data");
    assert_eq!(second.size, 3);
    assert_eq!(second.padded_size(), 4);
    let body = walker.read_body(&second).unwrap();
    assert_eq!(body, vec![0xAA, 0xBB, 0xCC]);

    // Parent budget exhausted exactly.
    assert!(walker.read_next().unwrap().is_none());
}

#[test]
fn skip_advances_past_body_and_pad() {
    let bytes = synthetic_wave();
    let mut walker = Walker::open_root(&bytes).unwrap();
    let fmt = walker.read_next().unwrap().unwrap();
    walker.skip(&fmt).unwrap();
    let data = walker.read_next().unwrap().unwrap();
    assert_eq!(&data.id, b"data");
    walker.skip(&data).unwrap();
    assert!(walker.read_next().unwrap().is_none());
}

#[test]
fn open_root_rejects_non_riff_outer() {
    let mut bytes = synthetic_wave();
    bytes[0] = b'X';
    let err = Walker::open_root(&bytes).unwrap_err();
    assert!(err.to_string().contains("outer chunk is not 'RIFF'"));
}

#[test]
fn open_root_rejects_short_outer() {
    // RIFF + ckSize=2 + 2 random bytes — payload < 4.
    let bytes = [b'R', b'I', b'F', b'F', 0x02, 0x00, 0x00, 0x00, b'W', b'A'];
    let err = Walker::open_root(&bytes[..]).unwrap_err();
    assert!(err.to_string().contains("ckSize < 4"));
}

#[test]
fn walker_rejects_child_that_overflows_parent() {
    // Outer parent says payload is 16 bytes (form-type + one
    // child header), but the child claims a 1MB body.
    let mut v = Vec::new();
    v.extend_from_slice(b"RIFF");
    v.extend_from_slice(&16u32.to_le_bytes());
    v.extend_from_slice(b"WAVE");
    v.extend_from_slice(b"fake");
    v.extend_from_slice(&1_000_000u32.to_le_bytes());
    let mut walker = Walker::open_root(&v).unwrap();
    let err = walker.read_next().unwrap_err();
    assert!(err.to_string().contains("overflows parent"));
}

#[test]
fn walker_rejects_truncated_parent() {
    // Outer parent claims 32 bytes but only 12 are present.
    let bytes = [
        b'R', b'I', b'F', b'F', 0x20, 0x00, 0x00, 0x00, b'W', b'A', b'V', b'E',
    ];
    let mut walker = Walker::open_root(&bytes[..]).unwrap();
    // 20 bytes remain unwalked; first child header read should
    // hit EOF and surface a truncated-parent error.
    let err = walker.read_next().unwrap_err();
    let msg = err.to_string();
    assert!(msg.contains("truncated parent"), "{msg}");
}

/// Build a minimal `ds64` chunk body (28-byte prefix, empty table)
/// declaring the given riff/data/sample sizes.
fn ds64_body(riff_size: u64, data_size: u64, sample_count: u64) -> Vec<u8> {
    let mut v = Vec::new();
    v.extend_from_slice(&riff_size.to_le_bytes());
    v.extend_from_slice(&data_size.to_le_bytes());
    v.extend_from_slice(&sample_count.to_le_bytes());
    v.extend_from_slice(&0u32.to_le_bytes()); // tableLength = 0
    v
}

/// `RF64`/`WAVE { ds64 fmt(4) data(4) }`, with the outer + data
/// ckSize fields set to the 0xFFFFFFFF sentinel.
fn synthetic_rf64(magic: &[u8; 4]) -> Vec<u8> {
    let mut v = Vec::new();
    // body after outer header: WAVE(4) + ds64 hdr(8)+body(28)
    //   + fmt hdr(8)+body(4) + data hdr(8)+body(4) = 64
    let riff_size: u64 = 4 + 8 + 28 + 8 + 4 + 8 + 4;
    v.extend_from_slice(magic);
    v.extend_from_slice(&0xFFFF_FFFFu32.to_le_bytes()); // outer sentinel
    v.extend_from_slice(b"WAVE");
    // ds64
    v.extend_from_slice(b"ds64");
    v.extend_from_slice(&28u32.to_le_bytes());
    v.extend_from_slice(&ds64_body(riff_size, 4, 1));
    // fmt
    v.extend_from_slice(b"fmt ");
    v.extend_from_slice(&4u32.to_le_bytes());
    v.extend_from_slice(&[1, 0, 2, 0]);
    // data
    v.extend_from_slice(b"data");
    v.extend_from_slice(&4u32.to_le_bytes());
    v.extend_from_slice(&[9, 8, 7, 6]);
    v
}

#[test]
fn open_rf64_resolves_size_and_yields_post_ds64_chunks() {
    let bytes = synthetic_rf64(b"RF64");
    let mut walker = Walker::open_rf64(&bytes).unwrap();
    assert_eq!(&walker.form_type(), b"WAVE");
    // ds64 is consumed by the constructor and exposed.
    let ds64 = walker.data_size_64().expect("ds64 parsed");
    assert_eq!(ds64.riff_size, 64);
    assert_eq!(ds64.data_size, 4);
    assert_eq!(ds64.sample_count, 1);

    // First yielded chunk is the fmt that follows ds64.
    let fmt = walker.read_next().unwrap().unwrap();
    assert_eq!(&fmt.id, b"fmt ");
    let body = walker.read_body(&fmt).unwrap();
    assert_eq!(body, vec![1, 0, 2, 0]);

    let data = walker.read_next().unwrap().unwrap();
    assert_eq!(&data.id, b"data");
    let body = walker.read_body(&data).unwrap();
    assert_eq!(body, vec![9, 8, 7, 6]);

    // Budget exactly satisfied.
    assert!(walker.read_next().unwrap().is_none());
}

#[test]
fn open_bw64_accepts_the_adm_magic() {
    let bytes = synthetic_rf64(b"BW64");
    let mut walker = Walker::open_bw64(&bytes).unwrap();
    assert_eq!(&walker.form_type(), b"WAVE");
    assert_eq!(walker.data_size_64().unwrap().riff_size, 64);
    let fmt = walker.read_next().unwrap().unwrap();
    assert_eq!(&fmt.id, b"fmt ");
}

#[test]
fn open_rf64_rejects_plain_riff_magic() {
    let mut bytes = synthetic_rf64(b"RF64");
    bytes[0..4].copy_from_slice(b"RIFF");
    let err = Walker::open_rf64(&bytes).unwrap_err();
    assert!(err.to_string().contains("neither 'RF64' nor 'BW64'"));
}

#[test]
fn open_rf64_rejects_missing_ds64() {
    // Replace the ds64 FourCC with something else.
    let mut bytes = synthetic_rf64(b"RF64");
    // Outer hdr(8) + WAVE(4) = offset 12 is the first chunk FourCC.
    bytes[12..16].copy_from_slice(b"junk");
    let err = Walker::open_rf64(&bytes).unwrap_err();
    assert!(err.to_string().contains("not 'ds64'"));
}

#[test]
fn open_root_still_rejects_rf64_magic() {
    // The base constructor stays strict on RIFF.
    let bytes = synthetic_rf64(b"RF64");
    let err = Walker::open_root(&bytes).unwrap_err();
    assert!(err.to_string().contains("not 'RIFF'"));
}

#[test]
fn descend_into_nested_list_chunk() {
    // RIFF / WAVE { LIST(INFO) { INAM "Hi" } }
    let mut v = Vec::new();
    // outer
    v.extend_from_slice(b"RIFF");
    // ckSize = 4 (WAVE) + 8 (LIST hdr) + 4 (INFO) + 8 (INAM hdr) + 2 (body) = 26
    v.extend_from_slice(&26u32.to_le_bytes());
    v.extend_from_slice(b"WAVE");
    // LIST
    v.extend_from_slice(b"LIST");
    // ckSize = 4 (INFO) + 8 (INAM hdr) + 2 (body) = 14
    v.extend_from_slice(&14u32.to_le_bytes());
    v.extend_from_slice(b"INFO");
    // INAM child
    v.extend_from_slice(b"INAM");
    v.extend_from_slice(&2u32.to_le_bytes());
    v.extend_from_slice(b"Hi");

    let mut outer = Walker::open_root(&v).unwrap();
    let list = outer.read_next().unwrap().unwrap();
    assert!(list.is_group());
    assert_eq!(&list.id, b"LIST");
    let form = outer.read_inner_form_type(&list).unwrap();
    assert_eq!(&form, b"INFO");
    // Manually consume the LIST body (children + pad) — the
    // INFO sub-walker bytes are accounted against the *outer*
    // walker via skip after reading.
    let body_len = list.size as i64 - 4; // minus the form-type word
    let rest = ChunkRef {
        id: list.id,
        size: body_len as u32,
        body_offset: list.body_offset + 4,
    };
    outer.skip(&rest).unwrap();
    assert!(outer.read_next().unwrap().is_none());
}

#[test]
fn walk_payload_and_remaining_track_consumption() {
    let bytes = synthetic_wave();
    let mut walker = Walker::open_root(&bytes).unwrap();
    assert_eq!(walker.payload_len(), 28);
    assert_eq!(walker.remaining(), 24);
    let fmt = walker.read_next().unwrap().unwrap();
    assert_eq!(fmt.end_offset(), 24);
    walker.skip(&fmt).unwrap();
    assert_eq!(walker.remaining(), 12);
    assert!(walker.data_size_64().is_none());
}
