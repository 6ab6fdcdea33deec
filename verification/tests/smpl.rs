use oxideav_riff::smpl::{
    SampleLoop, Smpl, FOURCC_SMPL, SAMPLE_LOOP_LEN, SMPL_HEADER_LEN, SMPTE_FORMAT_NONE,
};
/// Build a 36-byte `smpl` header from explicit fields.
#[allow(clippy::too_many_arguments)]
fn header(
    manufacturer: u32,
    product: u32,
    sample_period: u32,
    midi_unity_note: u32,
    midi_pitch_fraction: u32,
    smpte_format: u32,
    smpte_offset: u32,
    num_sample_loops: u32,
    sampler_data_len: u32,
) -> Vec<u8> {
    let mut b = Vec::with_capacity(SMPL_HEADER_LEN);
    for v in [
        manufacturer,
        product,
        sample_period,
        midi_unity_note,
        midi_pitch_fraction,
        smpte_format,
        smpte_offset,
        num_sample_loops,
        sampler_data_len,
    ] {
        b.extend_from_slice(&v.to_le_bytes());
    }
    b
}

#[test]
fn smpl_consts_match_spec() {
    assert_eq!(&FOURCC_SMPL, b"smpl");
    assert_eq!(SMPL_HEADER_LEN, 36);
    assert_eq!(SAMPLE_LOOP_LEN, 24);
}

#[test]
fn parse_header_only_no_loops_no_data() {
    // A sample mapped to middle C (60), 22675 ns period (~44.1 kHz),
    // no loops, no sampler data, no SMPTE offset.
    let body = header(0, 0, 22_675, 60, 0, 0, 0, 0, 0);
    let smpl = Smpl::parse(&body).unwrap();
    assert_eq!(smpl.manufacturer, 0);
    assert_eq!(smpl.sample_period, 22_675);
    assert_eq!(smpl.midi_unity_note, 60);
    assert_eq!(smpl.num_sample_loops, 0);
    assert_eq!(smpl.sampler_data_len, 0);
    assert!(smpl.loops.is_empty());
    assert!(!smpl.has_sampler_data());
    assert!(smpl.smpte_none());
}

#[test]
fn parse_one_loop_record_preserved_verbatim() {
    let mut body = header(0, 0, 22_675, 60, 0, 0, 0, 1, 0);
    let loop_bytes: [u8; SAMPLE_LOOP_LEN] = [
        0x00, 0x00, 0x00, 0x00, // cue id
        0x00, 0x00, 0x00, 0x00, // type = forward
        0x10, 0x00, 0x00, 0x00, // start
        0x20, 0x00, 0x00, 0x00, // end
        0x00, 0x00, 0x00, 0x00, // fraction
        0x00, 0x00, 0x00, 0x00, // play count = infinite
    ];
    body.extend_from_slice(&loop_bytes);
    let smpl = Smpl::parse(&body).unwrap();
    assert_eq!(smpl.num_sample_loops, 1);
    assert_eq!(smpl.loops.len(), 1);
    assert_eq!(smpl.loops[0].raw, loop_bytes);
}

#[test]
fn parse_multiple_loops_and_sampler_data() {
    let mut body = header(0x42, 0x07, 20_833, 69, 0x8000_0000, 30, 0, 2, 5);
    body.extend_from_slice(&[0xA0; SAMPLE_LOOP_LEN]);
    body.extend_from_slice(&[0xB1; SAMPLE_LOOP_LEN]);
    body.extend_from_slice(&[1, 2, 3, 4, 5]); // SamplerData (5 bytes)
    let smpl = Smpl::parse(&body).unwrap();
    assert_eq!(smpl.manufacturer, 0x42);
    assert_eq!(smpl.product, 0x07);
    assert_eq!(smpl.midi_unity_note, 69);
    assert_eq!(smpl.midi_pitch_fraction, 0x8000_0000);
    assert_eq!(smpl.smpte_format, 30);
    assert!(!smpl.smpte_none());
    assert_eq!(smpl.loops.len(), 2);
    assert_eq!(smpl.loops[0].raw, [0xA0; SAMPLE_LOOP_LEN]);
    assert_eq!(smpl.loops[1].raw, [0xB1; SAMPLE_LOOP_LEN]);
    assert!(smpl.has_sampler_data());
    assert_eq!(smpl.sampler_data, vec![1, 2, 3, 4, 5]);
}

#[test]
fn smpte_offset_parts_unpacks_hhmmssff() {
    // 01:30:25:12 packed big-endian: 0x011A190C.
    let body = header(0, 0, 0, 60, 0, 25, 0x011A_190C, 0, 0);
    let smpl = Smpl::parse(&body).unwrap();
    assert_eq!(smpl.smpte_offset_parts(), (0x01, 0x1A, 0x19, 0x0C));
}

#[test]
fn short_header_is_rejected() {
    let err = Smpl::parse(&[0u8; 35]).unwrap_err();
    assert!(err.to_string().contains("shorter than 36-byte fixed header"));
}

#[test]
fn loop_count_disagreeing_with_body_is_rejected() {
    // Header declares 1 loop but no loop bytes follow.
    let body = header(0, 0, 0, 60, 0, 0, 0, 1, 0);
    let err = Smpl::parse(&body).unwrap_err();
    assert!(err.to_string().contains("disagrees with NumSampleLoops"));
}

#[test]
fn sampler_data_len_disagreeing_with_body_is_rejected() {
    // Header declares 4 bytes of SamplerData but none follow.
    let body = header(0, 0, 0, 60, 0, 0, 0, 0, 4);
    let err = Smpl::parse(&body).unwrap_err();
    assert!(err.to_string().contains("disagrees with NumSampleLoops"));
}

#[test]
fn overflowing_loop_count_is_rejected() {
    // A loop count that would overflow the body size computation must
    // be rejected, not panic.
    let body = header(0, 0, 0, 60, 0, 0, 0, u32::MAX, 0);
    let err = Smpl::parse(&body).unwrap_err();
    // Either the overflow guard or the length-mismatch guard fires;
    // both are Error::invalid.
    let msg = err.to_string();
    assert!(msg.contains("smpl"));
}

#[test]
fn default_is_empty() {
    let smpl = Smpl::default();
    assert_eq!(smpl.num_sample_loops, 0);
    assert!(smpl.loops.is_empty());
    assert!(smpl.sampler_data.is_empty());
    assert!(smpl.smpte_none());
}

#[test]
fn encode_body_header_only_round_trips() {
    let body = header(0, 0, 22_675, 60, 0, 0, 0, 0, 0);
    let smpl = Smpl::parse(&body).unwrap();
    let encoded = smpl.encode_body();
    assert_eq!(encoded, body);
    assert_eq!(Smpl::parse(&encoded).unwrap(), smpl);
}

#[test]
fn encode_body_loops_and_data_round_trips() {
    let mut body = header(0x42, 0x07, 20_833, 69, 0x8000_0000, 30, 0, 2, 5);
    body.extend_from_slice(&[0xA0; SAMPLE_LOOP_LEN]);
    body.extend_from_slice(&[0xB1; SAMPLE_LOOP_LEN]);
    body.extend_from_slice(&[1, 2, 3, 4, 5]);
    let smpl = Smpl::parse(&body).unwrap();
    let encoded = smpl.encode_body();
    assert_eq!(encoded, body);
    assert_eq!(Smpl::parse(&encoded).unwrap(), smpl);
}

#[test]
fn encode_derives_counts_from_actual_lengths() {
    // A hand-built Smpl with stale count fields re-encodes to a
    // self-consistent body that re-parses cleanly.
    let smpl = Smpl {
        midi_unity_note: 60,
        num_sample_loops: 99, // stale — ignored on encode
        sampler_data_len: 99, // stale — ignored on encode
        loops: vec![SampleLoop {
            raw: [0x33; SAMPLE_LOOP_LEN],
        }],
        sampler_data: vec![7, 8, 9],
        ..Smpl::default()
    };
    let encoded = smpl.encode_body();
    let reparsed = Smpl::parse(&encoded).unwrap();
    assert_eq!(reparsed.num_sample_loops, 1);
    assert_eq!(reparsed.sampler_data_len, 3);
    assert_eq!(reparsed.loops.len(), 1);
    assert_eq!(reparsed.sampler_data, vec![7, 8, 9]);
}

#[test]
fn smpl_smpte_none_constant() {
    let body = header(0, 0, 0, 60, 0, SMPTE_FORMAT_NONE, 0, 0, 0);
    assert!(Smpl::parse(&body).unwrap().smpte_none());
    let l = SampleLoop { raw: [5; SAMPLE_LOOP_LEN] };
    assert_eq!(l.encode(), [5; SAMPLE_LOOP_LEN]);
}
