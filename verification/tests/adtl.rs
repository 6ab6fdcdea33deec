use oxideav_riff::adtl::{
    AdtlEntry, AdtlList, FILE_PREFIX_LEN, FOURCC_ADTL, FOURCC_FILE, FOURCC_LABL, FOURCC_LTXT,
    FOURCC_NOTE, LTXT_PREFIX_LEN,
};
use oxideav_riff::chunk::{read_chunk_header, ByteReader};
use oxideav_riff::walk::Walker;

fn labl_body(name: u32, text: &[u8]) -> Vec<u8> {
    let mut v = name.to_le_bytes().to_vec();
    v.extend_from_slice(text);
    v
}

fn ltxt_body(
    name: u32,
    sample_length: u32,
    purpose: &[u8; 4],
    codes: [u16; 4],
    text: &[u8],
) -> Vec<u8> {
    let mut v = Vec::new();
    v.extend_from_slice(&name.to_le_bytes());
    v.extend_from_slice(&sample_length.to_le_bytes());
    v.extend_from_slice(purpose);
    for c in codes {
        v.extend_from_slice(&c.to_le_bytes());
    }
    v.extend_from_slice(text);
    v
}

fn file_body(name: u32, med_type: u32, data: &[u8]) -> Vec<u8> {
    let mut v = Vec::new();
    v.extend_from_slice(&name.to_le_bytes());
    v.extend_from_slice(&med_type.to_le_bytes());
    v.extend_from_slice(data);
    v
}

fn list_adtl_blob(children: &[(&[u8; 4], Vec<u8>)]) -> Vec<u8> {
    let mut body = Vec::new();
    body.extend_from_slice(b"adtl");
    for (id, payload) in children {
        body.extend_from_slice(*id);
        body.extend_from_slice(&(payload.len() as u32).to_le_bytes());
        body.extend_from_slice(payload);
        if payload.len() & 1 == 1 {
            body.push(0);
        }
    }
    let mut out = Vec::new();
    out.extend_from_slice(b"LIST");
    out.extend_from_slice(&(body.len() as u32).to_le_bytes());
    out.extend_from_slice(&body);
    out
}

fn walker_over(blob: &[u8]) -> Walker<'_> {
    let mut cur = ByteReader::new(blob);
    let header = read_chunk_header(&mut cur).unwrap().unwrap();
    assert!(header.is_group());
    Walker::open_within(cur, &header).unwrap()
}

#[test]
fn prefix_constants() {
    assert_eq!(LTXT_PREFIX_LEN, 20);
    assert_eq!(FILE_PREFIX_LEN, 8);
}

#[test]
fn parse_labl_and_note() {
    let l = AdtlEntry::parse(FOURCC_LABL, &labl_body(1, b"Intro\0")).unwrap();
    assert_eq!(l, AdtlEntry::Label { name: 1, text: "Intro".to_string() });
    assert_eq!(l.cue_name(), Some(1));
    let n = AdtlEntry::parse(FOURCC_NOTE, &labl_body(2, b"see take 3\0")).unwrap();
    assert_eq!(n, AdtlEntry::Note { name: 2, text: "see take 3".to_string() });
}

#[test]
fn labl_without_terminator_uses_pad() {
    let l = AdtlEntry::parse(FOURCC_LABL, &labl_body(5, b"NoNul")).unwrap();
    assert_eq!(l, AdtlEntry::Label { name: 5, text: "NoNul".to_string() });
}

#[test]
fn labl_too_short_is_rejected() {
    let err = AdtlEntry::parse(FOURCC_LABL, &[0u8; 3]).unwrap_err();
    assert!(err.to_string().contains("shorter than 4-byte dwName"));
}

#[test]
fn parse_ltxt_full_fields() {
    let body = ltxt_body(7, 4410, b"scrp", [1, 9, 1, 1252], b"Hello");
    let e = AdtlEntry::parse(FOURCC_LTXT, &body).unwrap();
    match e {
        AdtlEntry::LabeledText(l) => {
            assert_eq!(l.name, 7);
            assert_eq!(l.sample_length, 4410);
            assert_eq!(&l.purpose, b"scrp");
            assert_eq!(l.country, 1);
            assert_eq!(l.language, 9);
            assert_eq!(l.dialect, 1);
            assert_eq!(l.code_page, 1252);
            assert_eq!(l.text, b"Hello");
        }
        other => panic!("expected LabeledText, got {other:?}"),
    }
}

#[test]
fn ltxt_prefix_only_has_empty_text() {
    let body = ltxt_body(7, 0, &[0; 4], [0; 4], b"");
    assert_eq!(body.len(), LTXT_PREFIX_LEN);
    let e = AdtlEntry::parse(FOURCC_LTXT, &body).unwrap();
    match e {
        AdtlEntry::LabeledText(l) => {
            assert!(l.text.is_empty());
            assert_eq!(l.purpose, [0; 4]);
        }
        other => panic!("expected LabeledText, got {other:?}"),
    }
}

#[test]
fn ltxt_too_short_is_rejected() {
    let err = AdtlEntry::parse(FOURCC_LTXT, &[0u8; 19]).unwrap_err();
    assert!(err.to_string().contains("shorter than 20-byte prefix"));
}

#[test]
fn parse_file_with_payload() {
    let body = file_body(3, u32::from_le_bytes(*b"RDIB"), b"\x00\x01\x02\x03");
    let e = AdtlEntry::parse(FOURCC_FILE, &body).unwrap();
    match e {
        AdtlEntry::File(f) => {
            assert_eq!(f.name, 3);
            assert_eq!(f.med_type, u32::from_le_bytes(*b"RDIB"));
            assert_eq!(f.data, b"\x00\x01\x02\x03");
        }
        other => panic!("expected File, got {other:?}"),
    }
}

#[test]
fn file_prefix_only_has_empty_data() {
    let body = file_body(3, 0, b"");
    assert_eq!(body.len(), FILE_PREFIX_LEN);
    let e = AdtlEntry::parse(FOURCC_FILE, &body).unwrap();
    match e {
        AdtlEntry::File(f) => assert!(f.data.is_empty()),
        other => panic!("expected File, got {other:?}"),
    }
}

#[test]
fn file_too_short_is_rejected() {
    let err = AdtlEntry::parse(FOURCC_FILE, &[0u8; 7]).unwrap_err();
    assert!(err.to_string().contains("shorter than 8-byte prefix"));
}

#[test]
fn unknown_child_is_preserved_verbatim() {
    let e = AdtlEntry::parse(*b"junk", b"\xde\xad\xbe\xef").unwrap();
    assert_eq!(e, AdtlEntry::Other { fourcc: *b"junk", body: b"\xde\xad\xbe\xef".to_vec() });
    assert_eq!(e.cue_name(), None);
}

#[test]
fn collect_from_walks_an_adtl_subtree() {
    let blob = list_adtl_blob(&[
        (b"labl", labl_body(1, b"Intro\0")),
        (b"note", labl_body(1, b"fade in\0")),
        (b"ltxt", ltxt_body(2, 22050, b"capt", [0; 4], b"caption")),
    ]);
    let mut walker = walker_over(&blob);
    assert_eq!(walker.form_type(), FOURCC_ADTL);
    let adtl = AdtlList::collect_from(&mut walker).unwrap();
    assert_eq!(adtl.len(), 3);
    assert_eq!(adtl.label(1), Some("Intro"));
    assert_eq!(adtl.note(1), Some("fade in"));
    assert_eq!(adtl.by_cue_name(1).len(), 2);
    assert_eq!(adtl.by_cue_name(2).len(), 1);
}

#[test]
fn collect_from_handles_odd_length_pad_resync() {
    let blob = list_adtl_blob(&[(b"labl", labl_body(1, b"Odd")), (b"labl", labl_body(2, b"Even\0"))]);
    let mut walker = walker_over(&blob);
    let adtl = AdtlList::collect_from(&mut walker).unwrap();
    assert_eq!(adtl.label(1), Some("Odd"));
    assert_eq!(adtl.label(2), Some("Even"));
}

#[test]
fn collect_from_keeps_unknown_child() {
    let blob = list_adtl_blob(&[(b"junk", b"\x01\x02\x03\x04".to_vec())]);
    let mut walker = walker_over(&blob);
    let adtl = AdtlList::collect_from(&mut walker).unwrap();
    assert_eq!(adtl.len(), 1);
    match &adtl.entries()[0] {
        AdtlEntry::Other { fourcc, .. } => assert_eq!(fourcc, b"junk"),
        other => panic!("expected Other, got {other:?}"),
    }
}

#[test]
fn collect_from_rejects_non_adtl_list_type() {
    let mut body = Vec::new();
    body.extend_from_slice(b"INFO");
    let mut out = Vec::new();
    out.extend_from_slice(b"LIST");
    out.extend_from_slice(&(body.len() as u32).to_le_bytes());
    out.extend_from_slice(&body);
    let mut walker = walker_over(&out);
    let err = AdtlList::collect_from(&mut walker).unwrap_err();
    assert!(err.to_string().contains("non-adtl LIST"));
}

#[test]
fn empty_adtl_list() {
    let blob = list_adtl_blob(&[]);
    let mut walker = walker_over(&blob);
    let adtl = AdtlList::collect_from(&mut walker).unwrap();
    assert!(adtl.is_empty());
    assert_eq!(adtl.label(1), None);
    assert_eq!(adtl.note(1), None);
}

#[test]
fn adtl_push_chunk_failure_leaves_list_unchanged() {
    let mut adtl = AdtlList::new();
    adtl.push_chunk(FOURCC_LABL, &labl_body(4, b"ok\0")).unwrap();
    assert!(adtl.push_chunk(FOURCC_FILE, &[0u8; 3]).is_err());
    assert_eq!(adtl.len(), 1);
    assert_eq!(adtl.label(4), Some("ok"));
}
