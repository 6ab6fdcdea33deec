use oxideav_riff::chna::{
    AudioId, ChannelAllocation, AUDIO_ID_LEN, CHNA_PREFIX_LEN, FOURCC_CHNA, PACK_REF_LEN,
    TRACK_REF_LEN, UID_LEN,
};
/// Build one 40-byte `audioID` record from its fields, NUL-padding the
/// fixed-width string fields to width.
fn rec(track_index: u16, uid: &[u8], track_ref: &[u8], pack_ref: &[u8], pad: u8) -> Vec<u8> {
    let mut v = Vec::with_capacity(AUDIO_ID_LEN);
    v.extend_from_slice(&track_index.to_le_bytes());
    let mut field = |src: &[u8], width: usize| {
        let mut f = vec![0u8; width];
        f[..src.len()].copy_from_slice(src);
        v.extend_from_slice(&f);
    };
    field(uid, UID_LEN);
    field(track_ref, TRACK_REF_LEN);
    field(pack_ref, PACK_REF_LEN);
    v.push(pad);
    assert_eq!(v.len(), AUDIO_ID_LEN);
    v
}

/// Build a `chna` chunk body from counts + records.
fn chna_body(num_tracks: u16, num_uids: u16, records: &[Vec<u8>]) -> Vec<u8> {
    let mut body = Vec::new();
    body.extend_from_slice(&num_tracks.to_le_bytes());
    body.extend_from_slice(&num_uids.to_le_bytes());
    for r in records {
        body.extend_from_slice(r);
    }
    body
}

#[test]
fn record_is_40_bytes() {
    assert_eq!(AUDIO_ID_LEN, 40);
    assert_eq!(CHNA_PREFIX_LEN + AUDIO_ID_LEN, 44);
    assert_eq!(2 + UID_LEN + TRACK_REF_LEN + PACK_REF_LEN + 1, AUDIO_ID_LEN);
    assert_eq!(&FOURCC_CHNA, b"chna");
}

#[test]
fn parse_stereo_example() {
    // BS.2088-2 §8.3.1 stereo: numTracks=2, numUIDs=2, N=2, ckSize=84.
    let body = chna_body(
        2,
        2,
        &[
            rec(1, b"ATU_00000001", b"AT_00010001_01", b"AP_00010002", 0),
            rec(2, b"ATU_00000002", b"AT_00010002_01", b"AP_00010002", 0),
        ],
    );
    // ckSize check: 4 + 2*40 = 84.
    assert_eq!(body.len(), 84);
    let chna = ChannelAllocation::parse(&body).unwrap();
    assert_eq!(chna.num_tracks, 2);
    assert_eq!(chna.num_uids, 2);
    assert_eq!(chna.record_count(), 2);
    assert_eq!(chna.active_count(), 2);
    assert!(chna.uid_count_consistent());

    let r0 = &chna.records()[0];
    assert_eq!(r0.track_index, 1);
    assert_eq!(r0.uid_str(), Some("ATU_00000001"));
    assert_eq!(r0.track_ref_str(), Some("AT_00010001_01"));
    assert_eq!(r0.pack_ref_str(), Some("AP_00010002"));
    assert!(!r0.is_unused());
    assert!(!r0.has_no_pack());
}

#[test]
fn over_provisioning_skips_unused_records() {
    // BS.2088-2 §8.3.2 shape: numUIDs=4 but N=32 (28 zeroed spares).
    let mut records = vec![
        rec(1, b"ATU_00000001", b"AT_00010001_01", b"AP_00031001", 0),
        rec(1, b"ATU_00000002", b"AT_00010001_02", b"AP_00031001", 0),
        rec(2, b"ATU_00000003", b"AT_00010002_01", b"AP_00031001", 0),
        rec(2, b"ATU_00000004", b"AT_00010002_02", b"AP_00031001", 0),
    ];
    for _ in 4..32 {
        records.push(rec(0, &[], &[], &[], 0)); // unused zeroed slot
    }
    let body = chna_body(2, 4, &records);
    assert_eq!(body.len(), 4 + 32 * 40); // 1284, §8.3.2
    let chna = ChannelAllocation::parse(&body).unwrap();
    assert_eq!(chna.num_tracks, 2);
    assert_eq!(chna.num_uids, 4);
    assert_eq!(chna.record_count(), 32);
    assert_eq!(chna.active_count(), 4);
    assert!(chna.uid_count_consistent());
    assert_eq!(chna.active().len(), 4);
    // The 5th on-wire record is an unused over-provisioned slot.
    assert!(chna.records()[4].is_unused());
    assert!(chna.records()[31].is_unused());
}

#[test]
fn unused_record_fields_are_zero() {
    let body = chna_body(0, 0, &[rec(0, &[], &[], &[], 0)]);
    let chna = ChannelAllocation::parse(&body).unwrap();
    let r = &chna.records()[0];
    assert!(r.is_unused());
    assert!(r.has_no_pack());
    assert_eq!(r.uid_str(), Some(""));
    assert_eq!(r.track_ref_str(), Some(""));
    assert_eq!(r.pack_ref_str(), Some(""));
}

#[test]
fn linear_pcm_channel_format_track_ref() {
    // Bare PCM essence references an audioChannelFormat AC_xxxxxxxx_00
    // and carries no pack (11 NUL bytes).
    let body = chna_body(1, 1, &[rec(1, b"ATU_00000001", b"AC_00010001_00", &[], 0)]);
    let chna = ChannelAllocation::parse(&body).unwrap();
    let r = &chna.records()[0];
    assert_eq!(r.track_ref_str(), Some("AC_00010001_00"));
    assert!(r.has_no_pack());
    assert_eq!(r.pack_ref_str(), Some(""));
}

#[test]
fn by_track_index_finds_first_match() {
    let body = chna_body(
        2,
        3,
        &[
            rec(1, b"ATU_00000001", b"AT_00010001_01", b"AP_00010002", 0),
            rec(1, b"ATU_00000002", b"AT_00010001_02", b"AP_00010002", 0),
            rec(2, b"ATU_00000003", b"AT_00010003_01", b"AP_00010004", 0),
        ],
    );
    let chna = ChannelAllocation::parse(&body).unwrap();
    // Track 1 has two records; by_track_index returns the first.
    assert_eq!(
        chna.by_track_index(1).unwrap().uid_str(),
        Some("ATU_00000001")
    );
    assert_eq!(
        chna.by_track_index(2).unwrap().uid_str(),
        Some("ATU_00000003")
    );
    assert!(chna.by_track_index(99).is_none());
    // trackIndex 0 is the unused sentinel; never a lookup hit.
    assert!(chna.by_track_index(0).is_none());
}

#[test]
fn empty_chna_chunk() {
    let body = chna_body(0, 0, &[]);
    assert_eq!(body.len(), 4);
    let chna = ChannelAllocation::parse(&body).unwrap();
    assert_eq!(chna.record_count(), 0);
    assert_eq!(chna.active_count(), 0);
    assert!(chna.uid_count_consistent());
    assert!(chna.active().is_empty());
}

#[test]
fn pad_byte_is_preserved() {
    // The pad byte's value is not pinned; it is kept verbatim.
    let body = chna_body(
        1,
        1,
        &[rec(
            1,
            b"ATU_00000001",
            b"AT_00010001_01",
            b"AP_00010002",
            0xAB,
        )],
    );
    let chna = ChannelAllocation::parse(&body).unwrap();
    assert_eq!(chna.records()[0].pad, 0xAB);
}

#[test]
fn uid_count_inconsistent_when_declared_mismatches_active() {
    // Declares numUIDs=3 but supplies only 1 used record.
    let body = chna_body(
        1,
        3,
        &[rec(
            1,
            b"ATU_00000001",
            b"AT_00010001_01",
            b"AP_00010002",
            0,
        )],
    );
    let chna = ChannelAllocation::parse(&body).unwrap();
    assert_eq!(chna.active_count(), 1);
    assert!(!chna.uid_count_consistent());
}

#[test]
fn short_preamble_is_rejected() {
    let err = ChannelAllocation::parse(&[0u8; 3]).unwrap_err();
    assert!(err.to_string().contains("shorter than 4-byte numTracks/numUIDs preamble"));
}

#[test]
fn non_multiple_record_region_is_rejected() {
    // 4-byte preamble + 39 bytes (not a whole 40-byte record).
    let mut body = vec![0u8; CHNA_PREFIX_LEN];
    body.extend_from_slice(&[0u8; AUDIO_ID_LEN - 1]);
    let err = ChannelAllocation::parse(&body).unwrap_err();
    assert!(err.to_string().contains("not a whole multiple of 40 bytes"));
}

#[test]
fn chna_record_parse_rejects_wrong_length() {
    let err = AudioId::parse(&[0u8; AUDIO_ID_LEN - 1]).unwrap_err();
    assert!(err.to_string().contains("not 40 bytes"));
}

#[test]
fn non_utf8_field_returns_none() {
    // Invalid UTF-8 in the UID field (0xFF byte before the NUL run).
    let mut raw = rec(1, b"ATU_00000001", b"AT_00010001_01", b"AP_00010002", 0);
    raw[2] = 0xFF; // first byte of UID
    let r = AudioId::parse(&raw).unwrap();
    assert!(r.uid_str().is_none());
}

#[test]
fn chna_record_encode_is_parse_inverse() {
    let raw = rec(1, b"ATU_00000001", b"AT_00010001_01", b"AP_00010002", 0xAB);
    let r = AudioId::parse(&raw).unwrap();
    assert_eq!(&r.encode()[..], &raw[..]);
    assert_eq!(AudioId::parse(&r.encode()).unwrap(), r);
}

#[test]
fn encode_body_round_trips_stereo() {
    let body = chna_body(
        2,
        2,
        &[
            rec(1, b"ATU_00000001", b"AT_00010001_01", b"AP_00010002", 0),
            rec(2, b"ATU_00000002", b"AT_00010002_01", b"AP_00010002", 0),
        ],
    );
    let chna = ChannelAllocation::parse(&body).unwrap();
    let encoded = chna.encode_body();
    assert_eq!(encoded, body);
    assert_eq!(ChannelAllocation::parse(&encoded).unwrap(), chna);
}

#[test]
fn encode_body_preserves_over_provisioning() {
    let mut records = vec![rec(
        1,
        b"ATU_00000001",
        b"AT_00010001_01",
        b"AP_00031001",
        0,
    )];
    for _ in 1..8 {
        records.push(rec(0, &[], &[], &[], 0));
    }
    let body = chna_body(1, 1, &records);
    let chna = ChannelAllocation::parse(&body).unwrap();
    let encoded = chna.encode_body();
    // Over-provisioned zeroed slots and numUIDs < record_count survive.
    assert_eq!(encoded, body);
    let reparsed = ChannelAllocation::parse(&encoded).unwrap();
    assert_eq!(reparsed.record_count(), 8);
    assert_eq!(reparsed.num_uids, 1);
}

#[test]
fn chna_builder_encode_parse_round_trip() {
    let chna = ChannelAllocation::from_records(1, 1, Vec::new())
        .push(AudioId::parse(&rec(1, b"ATU_00000001", b"AC_00010001_00", &[], 0)).unwrap());
    let encoded = chna.encode_body();
    let reparsed = ChannelAllocation::parse(&encoded).unwrap();
    assert_eq!(reparsed, chna);
    assert_eq!(
        reparsed.records()[0].track_ref_str(),
        Some("AC_00010001_00")
    );
}

#[test]
fn chna_active_lists_used_records_in_order() {
    let body = chna_body(
        2,
        2,
        &[
            rec(0, &[], &[], &[], 0),
            rec(2, b"ATU_00000002", b"AT_00010002_01", b"AP_00010002", 0),
            rec(1, b"ATU_00000001", b"AT_00010001_01", b"AP_00010002", 0),
        ],
    );
    let chna = ChannelAllocation::parse(&body).unwrap();
    let active = chna.active();
    assert_eq!(active.len(), 2);
    assert_eq!(active[0].track_index, 2);
    assert_eq!(active[1].track_index, 1);
    assert_eq!(ChannelAllocation::new().record_count(), 0);
}
