use oxideav_riff::sxml::{
    AlignmentPoint, AxmlChunk, BxmlChunk, SubXmlChunk, SxmlChunk, ALIGNMENT_POINT_LEN,
    FMT_TYPE_GZIP, FMT_TYPE_UNCOMPRESSED, FOURCC_AXML, FOURCC_BXML, FOURCC_SXML,
    SUB_XML_HEADER_LEN,
};
#[test]
fn fourccs_and_consts_match_spec() {
    assert_eq!(&FOURCC_AXML, b"axml");
    assert_eq!(&FOURCC_BXML, b"bxml");
    assert_eq!(&FOURCC_SXML, b"sxml");
    assert_eq!(FMT_TYPE_UNCOMPRESSED, 0x0000);
    assert_eq!(FMT_TYPE_GZIP, 0x0001);
    assert_eq!(SUB_XML_HEADER_LEN, 8);
    assert_eq!(ALIGNMENT_POINT_LEN, 16);
}

#[test]
fn axml_keeps_xml_verbatim() {
    let xml = b"<audioFormatExtended></audioFormatExtended>";
    let c = AxmlChunk::parse(xml);
    assert_eq!(c.xml, xml);
    assert_eq!(
        c.xml_str(),
        Some("<audioFormatExtended></audioFormatExtended>")
    );
}

#[test]
fn axml_empty_body_is_empty_document() {
    let c = AxmlChunk::parse(&[]);
    assert!(c.xml.is_empty());
    assert_eq!(c.xml_str(), Some(""));
}

#[test]
fn bxml_splits_fmt_type_from_payload() {
    let mut body = Vec::new();
    body.extend_from_slice(&FMT_TYPE_GZIP.to_le_bytes());
    body.extend_from_slice(&[0x1f, 0x8b, 0x08, 0x00]); // gzip magic-ish
    let c = BxmlChunk::parse(&body).unwrap();
    assert_eq!(c.fmt_type, FMT_TYPE_GZIP);
    assert!(c.is_gzip());
    assert!(!c.is_uncompressed());
    assert_eq!(c.xml, &[0x1f, 0x8b, 0x08, 0x00]);
}

#[test]
fn bxml_uncompressed_selector() {
    let mut body = Vec::new();
    body.extend_from_slice(&FMT_TYPE_UNCOMPRESSED.to_le_bytes());
    body.extend_from_slice(b"<adm/>");
    let c = BxmlChunk::parse(&body).unwrap();
    assert!(c.is_uncompressed());
    assert_eq!(c.xml, b"<adm/>");
}

#[test]
fn bxml_too_short_is_rejected() {
    let err = BxmlChunk::parse(&[0x01]).unwrap_err();
    assert!(err.to_string().contains("shorter than the 2-byte fmtType"));
}

/// Build one SubXMLChunk record: subXMLChunkSize (= 4 + xml.len),
/// nSamplesSubDataChunk, then the xml payload.
fn sub_record(n_samples: u32, xml: &[u8]) -> Vec<u8> {
    let mut r = Vec::new();
    let sub_size = (4 + xml.len()) as u32;
    r.extend_from_slice(&sub_size.to_le_bytes());
    r.extend_from_slice(&n_samples.to_le_bytes());
    r.extend_from_slice(xml);
    r
}

/// Assemble an sxml body: fmtType + 64-bit tbSize + nSubXMLChunks +
/// records, then optionally an alignment-point count + records.
fn sxml_body(fmt_type: u16, records: &[Vec<u8>], aligns: &[AlignmentPoint]) -> Vec<u8> {
    let mut table = Vec::new();
    table.extend_from_slice(&(records.len() as u32).to_le_bytes());
    for r in records {
        table.extend_from_slice(r);
    }
    let mut body = Vec::new();
    body.extend_from_slice(&fmt_type.to_le_bytes());
    let tb_size = table.len() as u64;
    body.extend_from_slice(&(tb_size as u32).to_le_bytes());
    body.extend_from_slice(&((tb_size >> 32) as u32).to_le_bytes());
    body.extend_from_slice(&table);
    if !aligns.is_empty() {
        body.extend_from_slice(&(aligns.len() as u32).to_le_bytes());
        for a in aligns {
            body.extend_from_slice(&(a.byte_offset as u32).to_le_bytes());
            body.extend_from_slice(&((a.byte_offset >> 32) as u32).to_le_bytes());
            body.extend_from_slice(&(a.n_samples as u32).to_le_bytes());
            body.extend_from_slice(&((a.n_samples >> 32) as u32).to_le_bytes());
        }
    }
    body
}

#[test]
fn sxml_two_sub_chunks_no_alignment() {
    let recs = vec![sub_record(48_000, b"<a/>"), sub_record(24_000, b"<bb/>")];
    let body = sxml_body(FMT_TYPE_UNCOMPRESSED, &recs, &[]);
    let c = SxmlChunk::parse(&body).unwrap();
    assert!(c.is_uncompressed());
    assert_eq!(c.sub_chunks.len(), 2);
    assert_eq!(c.sub_chunks[0].n_samples, 48_000);
    assert_eq!(c.sub_chunks[0].xml, b"<a/>");
    assert_eq!(c.sub_chunks[1].n_samples, 24_000);
    assert_eq!(c.sub_chunks[1].xml, b"<bb/>");
    assert!(c.alignment_points.is_empty());
    assert_eq!(c.total_samples(), 72_000);
}

#[test]
fn sxml_with_alignment_points() {
    let recs = vec![sub_record(100, b"<x/>")];
    let aligns = vec![
        AlignmentPoint {
            byte_offset: 14,
            n_samples: 0,
        },
        AlignmentPoint {
            byte_offset: 0x1_0000_0002,
            n_samples: 0x2_0000_0003,
        },
    ];
    let body = sxml_body(FMT_TYPE_GZIP, &recs, &aligns);
    let c = SxmlChunk::parse(&body).unwrap();
    assert!(c.is_gzip());
    assert_eq!(c.sub_chunks.len(), 1);
    assert_eq!(c.alignment_points.len(), 2);
    assert_eq!(c.alignment_points[0].byte_offset, 14);
    assert_eq!(c.alignment_points[1].byte_offset, 0x1_0000_0002);
    assert_eq!(c.alignment_points[1].n_samples, 0x2_0000_0003);
}

#[test]
fn sxml_zero_sub_chunks() {
    let body = sxml_body(FMT_TYPE_UNCOMPRESSED, &[], &[]);
    let c = SxmlChunk::parse(&body).unwrap();
    assert!(c.sub_chunks.is_empty());
    assert!(c.alignment_points.is_empty());
    assert_eq!(c.total_samples(), 0);
}

#[test]
fn sxml_too_short_prefix_rejected() {
    let err = SxmlChunk::parse(&[0u8; 8]).unwrap_err();
    assert!(err.to_string().contains("too short for its fixed prefix"));
}

#[test]
fn sxml_table_size_overruns_body_rejected() {
    // fmtType + tbSize claiming 0xFFFF bytes but a tiny body.
    let mut body = Vec::new();
    body.extend_from_slice(&FMT_TYPE_UNCOMPRESSED.to_le_bytes());
    body.extend_from_slice(&0xFFFFu32.to_le_bytes());
    body.extend_from_slice(&0u32.to_le_bytes());
    body.extend_from_slice(&0u32.to_le_bytes()); // nSubXMLChunks = 0
    let err = SxmlChunk::parse(&body).unwrap_err();
    assert!(err.to_string().contains("overruns the chunk body"));
}

#[test]
fn sxml_sub_record_overruns_table_rejected() {
    // One record claiming a payload bigger than the declared table.
    let mut table = Vec::new();
    table.extend_from_slice(&1u32.to_le_bytes()); // nSubXMLChunks = 1
    table.extend_from_slice(&0xFFu32.to_le_bytes()); // subXMLChunkSize huge
    table.extend_from_slice(&0u32.to_le_bytes()); // nSamples
    table.extend_from_slice(b"x"); // truncated payload
    let mut body = Vec::new();
    body.extend_from_slice(&FMT_TYPE_UNCOMPRESSED.to_le_bytes());
    let tb = table.len() as u64;
    body.extend_from_slice(&(tb as u32).to_le_bytes());
    body.extend_from_slice(&((tb >> 32) as u32).to_le_bytes());
    body.extend_from_slice(&table);
    let err = SxmlChunk::parse(&body).unwrap_err();
    assert!(err.to_string().contains("overruns the declared table region"));
}

#[test]
fn sxml_alignment_count_mismatch_rejected() {
    let recs = vec![sub_record(10, b"<y/>")];
    let mut body = sxml_body(FMT_TYPE_UNCOMPRESSED, &recs, &[]);
    // Append a bogus alignment count of 2 but no records.
    body.extend_from_slice(&2u32.to_le_bytes());
    let err = SxmlChunk::parse(&body).unwrap_err();
    assert!(err.to_string().contains("disagrees with the remaining body length"));
}

#[test]
fn sxml_sub_chunk_record_fields() {
    let recs = vec![sub_record(7, b"")];
    let body = sxml_body(FMT_TYPE_UNCOMPRESSED, &recs, &[]);
    let c = SxmlChunk::parse(&body).unwrap();
    assert_eq!(c.sub_chunks[0], SubXmlChunk { n_samples: 7, xml: Vec::new() });
}

#[test]
fn axml_invalid_utf8_has_no_str() {
    let c = AxmlChunk::parse(&[0xFF, 0xFE]);
    assert_eq!(c.xml_str(), None);
}
