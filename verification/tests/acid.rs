use oxideav_riff::acid::{
    Acid, ACID_LEN, FLAG_DISK_BASED, FLAG_HIGH_OCTAVE, FLAG_ONE_SHOT, FLAG_ROOT_NOTE_SET,
    FLAG_STRETCH, FOURCC_ACID,
};

/// Build a 24-byte `acid` body from explicit fields.
#[allow(clippy::too_many_arguments)]
fn body(
    flags: u32,
    root_note: u16,
    unknown1: u16,
    unknown2: f32,
    num_beats: u32,
    meter_den: u16,
    meter_num: u16,
    tempo: f32,
) -> Vec<u8> {
    let mut b = Vec::with_capacity(ACID_LEN);
    b.extend_from_slice(&flags.to_le_bytes());
    b.extend_from_slice(&root_note.to_le_bytes());
    b.extend_from_slice(&unknown1.to_le_bytes());
    b.extend_from_slice(&unknown2.to_le_bytes());
    b.extend_from_slice(&num_beats.to_le_bytes());
    b.extend_from_slice(&meter_den.to_le_bytes());
    b.extend_from_slice(&meter_num.to_le_bytes());
    b.extend_from_slice(&tempo.to_le_bytes());
    b
}

#[test]
fn acid_consts_match_spec() {
    assert_eq!(&FOURCC_ACID, b"acid");
    assert_eq!(ACID_LEN, 24);
    assert_eq!(FLAG_ONE_SHOT, 0x01);
    assert_eq!(FLAG_ROOT_NOTE_SET, 0x02);
    assert_eq!(FLAG_STRETCH, 0x04);
    assert_eq!(FLAG_DISK_BASED, 0x08);
    assert_eq!(FLAG_HIGH_OCTAVE, 0x10);
}

#[test]
fn parse_typical_138bpm_loop() {
    let acid = Acid::parse(&body(
        FLAG_ROOT_NOTE_SET | FLAG_STRETCH,
        0x3C,
        0x8000,
        0.0,
        8,
        4,
        4,
        138.0,
    ))
    .unwrap();
    assert!(acid.is_loop());
    assert!(!acid.is_one_shot());
    assert!(acid.root_note_set());
    assert!(acid.stretch_enabled());
    assert!(!acid.disk_based());
    assert_eq!(acid.root_note(), Some(0x3C));
    assert_eq!(acid.num_beats, 8);
    assert_eq!(acid.meter_denominator, 4);
    assert_eq!(acid.meter_numerator, 4);
    assert_eq!(f32::from_bits(acid.tempo_bits), 138.0);
    assert_eq!(acid.unknown1, 0x8000);
    assert_eq!(f32::from_bits(acid.unknown2_bits), 0.0);
}

#[test]
fn tempo_138_bytes_round_trip() {
    let b = body(0, 0, 0x8000, 0.0, 0, 4, 4, 138.0);
    assert_eq!(&b[20..24], &[0x00, 0x00, 0x0A, 0x43]);
    let acid = Acid::parse(&b).unwrap();
    assert_eq!(f32::from_bits(acid.tempo_bits), 138.0);
}

#[test]
fn one_shot_has_no_root_note_when_flag_clear() {
    let acid = Acid::parse(&body(FLAG_ONE_SHOT, 0x3C, 0x8000, 0.0, 0, 4, 4, 120.0)).unwrap();
    assert!(acid.is_one_shot());
    assert!(!acid.is_loop());
    assert!(!acid.root_note_set());
    assert_eq!(acid.root_note(), None);
    assert_eq!(acid.root_note, 0x3C);
}

#[test]
fn high_octave_and_disk_based_flags() {
    let acid = Acid::parse(&body(
        FLAG_DISK_BASED | FLAG_HIGH_OCTAVE | FLAG_ROOT_NOTE_SET,
        0x3C,
        0x8000,
        0.0,
        16,
        4,
        4,
        90.0,
    ))
    .unwrap();
    assert!(acid.disk_based());
    assert!(acid.high_octave());
    assert!(acid.root_note_set());
}

#[test]
fn unknown_fields_preserved_verbatim() {
    let acid = Acid::parse(&body(0, 0, 0x1234, 1.5, 0, 4, 4, 100.0)).unwrap();
    assert_eq!(acid.unknown1, 0x1234);
    assert_eq!(f32::from_bits(acid.unknown2_bits), 1.5);
}

#[test]
fn acid_short_body_is_rejected() {
    let err = Acid::parse(&[0u8; 23]).unwrap_err();
    assert!(err.to_string().contains("not exactly 24 bytes"));
}

#[test]
fn acid_long_body_is_rejected() {
    let err = Acid::parse(&[0u8; 25]).unwrap_err();
    assert!(err.to_string().contains("not exactly 24 bytes"));
}

#[test]
fn acid_empty_body_is_rejected() {
    let err = Acid::parse(&[]).unwrap_err();
    assert!(err.to_string().contains("not exactly 24 bytes"));
}

#[test]
fn acid_default_is_all_zero() {
    let acid = Acid::default();
    assert_eq!(acid.flags, 0);
    assert!(acid.is_loop());
    assert!(!acid.root_note_set());
    assert_eq!(acid.root_note(), None);
    assert_eq!(f32::from_bits(acid.tempo_bits), 0.0);
}

#[test]
fn acid_flag_bits_are_read_from_flags_word() {
    let acid = Acid::parse(&body(FLAG_STRETCH, 0, 0, 0.0, 0, 0, 0, 0.0)).unwrap();
    assert!(acid.stretch_enabled());
    assert!(!acid.high_octave());
    assert_eq!(acid.meter_numerator, 0);
}
