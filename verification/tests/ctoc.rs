use oxideav_riff::ctoc::{
    element_bytes, is_compound_fourcc, CtocChunk, CtocEntry, CTOC_EFU_CODEPAGE,
    CTOC_EFU_COMPRESSPARAM0, CTOC_EFU_COMPRESSPARAM9, CTOC_EFU_LANGUAGE, CTOC_EFU_LASTMODTIME,
    CTOC_EFU_UNUSED, CTOC_EF_DELETED, CTOC_EF_UNUSED, CTOC_HF_SEQUENTIAL,
};
/// Build a minimal but complete CTOC body: no extra fields, two
/// entries (`wNameSize = 4`, `wEntrySize = 24 + 0 + 1 + 4 = 29 → 30`
/// even).
fn sample_ctoc() -> CtocChunk {
    let name = |s: &[u8]| {
        let mut v = s.to_vec();
        v.resize(4, 0);
        v
    };
    // header = 7*4 (info) + 8 (param def) + 0 usage + 0 hdr fields = 36,
    // already even so header_pad empty.
    CtocChunk {
        header_size: 36,
        entries_total: 2,
        entries_deleted: 0,
        entries_unused: 0,
        bytes_total: 30,
        bytes_deleted: 0,
        header_flags: CTOC_HF_SEQUENTIAL,
        entry_size: 30,
        name_size: 4,
        ex_hdr_usage: vec![],
        ex_ent_usage: vec![],
        ex_hdr_fields: vec![],
        header_pad: vec![],
        entries: vec![
            CtocEntry {
                offset: 0,
                size: 10,
                med_type: u32::from_le_bytes(*b"WAVE"),
                med_usage: 0,
                compress_tech: 0,
                uncompress_bytes: 10,
                ex_ent_fields: vec![],
                flags: 0,
                name: name(b"a"),
            },
            CtocEntry {
                offset: 10,
                size: 20,
                med_type: u32::from_le_bytes(*b"RDIB"),
                med_usage: 0,
                compress_tech: 0,
                uncompress_bytes: 20,
                ex_ent_fields: vec![],
                flags: 0,
                name: name(b"bb"),
            },
        ],
    }
}

#[test]
fn round_trip_is_byte_exact() {
    let ctoc = sample_ctoc();
    let body = ctoc.encode_body().unwrap();
    let parsed = CtocChunk::parse(&body).unwrap();
    assert_eq!(parsed, ctoc);
    assert_eq!(parsed.encode_body().unwrap(), body);
}

#[test]
fn header_size_locates_first_entry() {
    let ctoc = sample_ctoc();
    let body = ctoc.encode_body().unwrap();
    // First entry begins exactly at header_size.
    assert_eq!(&body[36..40], &0u32.to_le_bytes()); // entry[0].offset
    assert_eq!(body.len(), 36 + 2 * 30);
}

#[test]
fn entry_name_str_trims_at_nul() {
    let ctoc = sample_ctoc();
    assert_eq!(ctoc.entries[0].name_str(), Some("a"));
    assert_eq!(ctoc.entries[1].name_str(), Some("bb"));
}

#[test]
fn extra_fields_round_trip() {
    let mut ctoc = sample_ctoc();
    // Add one extra header field + one extra entry field.
    ctoc.ex_hdr_usage = vec![CTOC_EFU_LASTMODTIME];
    ctoc.ex_hdr_fields = vec![0x1234_5678];
    ctoc.ex_ent_usage = vec![CTOC_EFU_CODEPAGE];
    // header = 36 base + 2 (ex_hdr_usage) + 2 (ex_ent_usage)
    //   + 4 (ex_hdr_field) = 44, already even.
    ctoc.header_size = 44;
    // entry grows by 4 (one extra DWORD) → min 28+1+4 = 33 → pad to 34.
    ctoc.entry_size = 34;
    for e in &mut ctoc.entries {
        e.ex_ent_fields = vec![0xAABB_CCDD];
    }
    let body = ctoc.encode_body().unwrap();
    let parsed = CtocChunk::parse(&body).unwrap();
    assert_eq!(parsed, ctoc);
    assert_eq!(parsed.ex_hdr_usage, vec![CTOC_EFU_LASTMODTIME]);
    assert_eq!(parsed.entries[0].ex_ent_fields, vec![0xAABB_CCDD]);
}

#[test]
fn header_pad_is_preserved() {
    let mut ctoc = sample_ctoc();
    // Force an odd-length header that needs a pad byte.
    ctoc.ex_hdr_usage = vec![CTOC_EFU_UNUSED]; // +2
    ctoc.ex_hdr_fields = vec![0]; // +4
    ctoc.header_pad = vec![0, 0]; // arbitrary even-up pad
    ctoc.header_size = 36 + 2 + 4 + 2;
    let body = ctoc.encode_body().unwrap();
    let parsed = CtocChunk::parse(&body).unwrap();
    assert_eq!(parsed.header_pad, vec![0, 0]);
}

#[test]
fn element_bytes_resolves_offset_and_size() {
    let ctoc = sample_ctoc();
    let cgrp = (0u8..30).collect::<Vec<_>>();
    let a = element_bytes(&cgrp, &ctoc.entries[0]).unwrap();
    assert_eq!(a, &cgrp[0..10]);
    let b = element_bytes(&cgrp, &ctoc.entries[1]).unwrap();
    assert_eq!(b, &cgrp[10..30]);
}

#[test]
fn element_bytes_rejects_deleted_entry() {
    let mut ctoc = sample_ctoc();
    ctoc.entries[0].flags = CTOC_EF_DELETED;
    let cgrp = vec![0u8; 30];
    let err = element_bytes(&cgrp, &ctoc.entries[0]).unwrap_err();
    assert!(err.to_string().contains("deleted"));
}

#[test]
fn element_bytes_rejects_overrun() {
    let ctoc = sample_ctoc();
    let cgrp = vec![0u8; 5]; // too small for the 10-byte element
    let err = element_bytes(&cgrp, &ctoc.entries[0]).unwrap_err();
    assert!(err.to_string().contains("overruns"));
}

#[test]
fn ctoc_parse_rejects_short_body() {
    let err = CtocChunk::parse(&[0u8; 10]).unwrap_err();
    assert!(err.to_string().contains("too short"));
}

#[test]
fn parse_rejects_inconsistent_header_size() {
    let ctoc = sample_ctoc();
    let mut body = ctoc.encode_body().unwrap();
    // Corrupt dwHeaderSize to point past the body.
    body[0..4].copy_from_slice(&9999u32.to_le_bytes());
    let err = CtocChunk::parse(&body).unwrap_err();
    assert!(err.to_string().contains("dwHeaderSize"));
}

#[test]
fn is_compound_fourcc_matches_ctoc_and_cgrp() {
    assert!(is_compound_fourcc(b"CTOC"));
    assert!(is_compound_fourcc(b"CGRP"));
    assert!(!is_compound_fourcc(b"data"));
}

#[test]
fn usage_code_constants_match_spec() {
    // §2 "Usage Codes" literal values.
    assert_eq!(CTOC_EFU_UNUSED, 0x00);
    assert_eq!(CTOC_EFU_LASTMODTIME, 0x01);
    assert_eq!(CTOC_EFU_CODEPAGE, 0x02);
    assert_eq!(CTOC_EFU_LANGUAGE, 0x03);
    assert_eq!(CTOC_EFU_COMPRESSPARAM0, 0x05);
    assert_eq!(CTOC_EFU_COMPRESSPARAM9, 0x14);
}

#[test]
fn ctoc_element_bytes_rejects_unused_entry() {
    let mut ctoc = sample_ctoc();
    ctoc.entries[1].flags = CTOC_EF_UNUSED;
    let cgrp = vec![0u8; 30];
    assert!(element_bytes(&cgrp, &ctoc.entries[1]).is_err());
    assert!(element_bytes(&cgrp, &ctoc.entries[0]).is_ok());
}

#[test]
fn ctoc_encode_rejects_entry_size_too_small() {
    let mut ctoc = sample_ctoc();
    ctoc.entry_size = 10;
    assert!(ctoc.encode_body().is_err());
}

#[test]
fn ctoc_parse_rejects_bytes_after_last_entry() {
    let mut body = sample_ctoc().encode_body().unwrap();
    body.extend_from_slice(&[0, 0]);
    assert!(CtocChunk::parse(&body).is_err());
}

#[test]
fn ctoc_parse_rejects_nonzero_entry_pad() {
    // Entry layout: 24 fixed bytes + flags (1) + name (4) = 29, padded to
    // the 30-byte stride; the first entry starts at dwHeaderSize = 36, so
    // its pad byte sits at 36 + 29.
    let mut body = sample_ctoc().encode_body().unwrap();
    assert_eq!(body[65], 0);
    body[65] = 1;
    assert!(CtocChunk::parse(&body).is_err());
}
