use oxideav_riff::chunk::{
    encode_chunk, read_chunk_header, read_form_type, skip_chunk, skip_pad, write_chunk_header,
    ByteReader, ChunkHeader, FOURCC_LIST, FOURCC_RIFF,
};
#[test]
fn header_constants_match_ascii() {
    assert_eq!(&FOURCC_RIFF, b"RIFF");
    assert_eq!(&FOURCC_LIST, b"LIST");
}

#[test]
fn header_is_group_for_riff_and_list_only() {
    let riff = ChunkHeader {
        id: *b"RIFF",
        size: 0,
    };
    let list = ChunkHeader {
        id: *b"LIST",
        size: 0,
    };
    let data = ChunkHeader {
        id: *b"data",
        size: 0,
    };
    let fmt = ChunkHeader {
        id: *b"fmt ",
        size: 0,
    };
    assert!(riff.is_group());
    assert!(list.is_group());
    assert!(!data.is_group());
    assert!(!fmt.is_group());
}

#[test]
fn padded_size_pads_odd() {
    assert_eq!(
        ChunkHeader {
            id: *b"data",
            size: 0
        }
        .padded_size(),
        0
    );
    assert_eq!(
        ChunkHeader {
            id: *b"data",
            size: 1
        }
        .padded_size(),
        2
    );
    assert_eq!(
        ChunkHeader {
            id: *b"data",
            size: 7
        }
        .padded_size(),
        8
    );
    assert_eq!(
        ChunkHeader {
            id: *b"data",
            size: 8
        }
        .padded_size(),
        8
    );
    // u32::MAX is odd: 4_294_967_295 + 1 = 4_294_967_296 fits in u64.
    assert_eq!(
        ChunkHeader {
            id: *b"data",
            size: u32::MAX
        }
        .padded_size(),
        u32::MAX as u64 + 1
    );
}

#[test]
fn read_header_decodes_le_size() {
    let bytes = [b'd', b'a', b't', b'a', 0x10, 0x00, 0x00, 0x00];
    let mut cur = ByteReader::new(&bytes[..]);
    let h = read_chunk_header(&mut cur).unwrap().unwrap();
    assert_eq!(&h.id, b"data");
    assert_eq!(h.size, 0x10);
}

#[test]
fn read_header_returns_none_at_clean_eof() {
    let mut cur = ByteReader::new(&[][..]);
    assert!(read_chunk_header(&mut cur).unwrap().is_none());
}

#[test]
fn read_header_errors_on_partial_header() {
    // Only 5 of 8 header bytes.
    let mut cur = ByteReader::new(&[b'd', b'a', b't', b'a', 0x10][..]);
    let err = read_chunk_header(&mut cur).unwrap_err();
    let msg = err.to_string();
    assert!(msg.contains("truncated"), "{msg}");
}

#[test]
fn read_form_type_reads_four_bytes() {
    let mut cur = ByteReader::new(&b"WAVE"[..]);
    assert_eq!(&read_form_type(&mut cur).unwrap(), b"WAVE");
}

#[test]
fn skip_chunk_advances_padded() {
    // 7-byte body → 8 bytes consumed including pad.
    let data = vec![0u8; 16];
    let mut cur = ByteReader::new(&data);
    cur.set_position(0);
    let h = ChunkHeader {
        id: *b"data",
        size: 7,
    };
    skip_chunk(&mut cur, &h).unwrap();
    assert_eq!(cur.position(), 8);
}

#[test]
fn skip_pad_skips_only_for_odd_sizes() {
    let data = vec![0u8; 4];
    let mut cur = ByteReader::new(&data);
    cur.set_position(0);
    skip_pad(&mut cur, 4).unwrap();
    assert_eq!(cur.position(), 0);
    skip_pad(&mut cur, 5).unwrap();
    assert_eq!(cur.position(), 1);
}

#[test]
fn chunk_encode_pads_odd_body_and_reads_back() {
    let mut out = Vec::new();
    encode_chunk(&mut out, b"abcd", &[1, 2, 3]).unwrap();
    assert_eq!(out, vec![b'a', b'b', b'c', b'd', 3, 0, 0, 0, 1, 2, 3, 0]);
    let mut cur = ByteReader::new(&out);
    let h = read_chunk_header(&mut cur).unwrap().unwrap();
    assert_eq!(h, ChunkHeader { id: *b"abcd", size: 3 });
    assert_eq!(h.padded_size(), 4);
}

#[test]
fn chunk_write_header_is_id_then_le_size() {
    let mut out = Vec::new();
    write_chunk_header(&mut out, b"LIST", 0x0102_0304);
    assert_eq!(out, vec![b'L', b'I', b'S', b'T', 4, 3, 2, 1]);
}

#[test]
fn chunk_read_form_type_errors_when_short() {
    let mut cur = ByteReader::new(&b"WAV"[..]);
    assert!(read_form_type(&mut cur).is_err());
}
