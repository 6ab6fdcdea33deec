use oxideav_riff::waveformat::{
    ExtensibleFields, Guid, WaveFormat, KSDATAFORMAT_SUBTYPE_WAVEFORMATEX_BASE, WAVE_FORMAT_ADPCM,
    WAVE_FORMAT_ALAW, WAVE_FORMAT_EXTENSIBLE, WAVE_FORMAT_IEEE_FLOAT, WAVE_FORMAT_MULAW,
    WAVE_FORMAT_PCM,
};
/// 16-bit / 44.1 kHz / stereo PCM as a bare 16-byte WAVEFORMAT.
fn pcm16_waveformat() -> Vec<u8> {
    let mut v = Vec::new();
    v.extend_from_slice(&WAVE_FORMAT_PCM.to_le_bytes()); // wFormatTag
    v.extend_from_slice(&2u16.to_le_bytes()); // nChannels
    v.extend_from_slice(&44_100u32.to_le_bytes()); // nSamplesPerSec
    v.extend_from_slice(&176_400u32.to_le_bytes()); // nAvgBytesPerSec
    v.extend_from_slice(&4u16.to_le_bytes()); // nBlockAlign
    v.extend_from_slice(&16u16.to_le_bytes()); // wBitsPerSample
    v
}

#[test]
fn parse_bare_waveformat_prefix() {
    let f = WaveFormat::parse(&pcm16_waveformat()).unwrap();
    assert_eq!(f.format_tag, WAVE_FORMAT_PCM);
    assert_eq!(f.channels, 2);
    assert_eq!(f.sample_rate, 44_100);
    assert_eq!(f.avg_bytes_per_sec, 176_400);
    assert_eq!(f.block_align, 4);
    assert_eq!(f.bits_per_sample, 16);
    assert!(f.extension.is_empty());
    assert!(!f.is_extensible());
    assert_eq!(f.effective_format_tag(), Some(WAVE_FORMAT_PCM));
    assert_eq!(f.channel_mask_count(), None);
}

#[test]
fn parse_waveformatex_with_zero_cbsize() {
    let mut v = pcm16_waveformat();
    v.extend_from_slice(&0u16.to_le_bytes()); // cbSize = 0
    let f = WaveFormat::parse(&v).unwrap();
    assert_eq!(f.format_tag, WAVE_FORMAT_PCM);
    assert!(f.extension.is_empty());
    assert!(!f.is_extensible());
}

#[test]
fn parse_waveformatex_with_extension_bytes() {
    // e.g. an ADPCM fmt body with a 4-byte codec-private extension.
    let mut v = pcm16_waveformat();
    v[0..2].copy_from_slice(&WAVE_FORMAT_ADPCM.to_le_bytes());
    v.extend_from_slice(&4u16.to_le_bytes()); // cbSize = 4
    v.extend_from_slice(&[0xDE, 0xAD, 0xBE, 0xEF]);
    let f = WaveFormat::parse(&v).unwrap();
    assert_eq!(f.format_tag, WAVE_FORMAT_ADPCM);
    assert_eq!(f.extension, vec![0xDE, 0xAD, 0xBE, 0xEF]);
    assert!(!f.is_extensible());
}

#[test]
fn parse_waveformatextensible_pcm() {
    // 24-bit-in-32-bit PCM, 5.1 (Microsoft) layout = 0x3F.
    let mut v = Vec::new();
    v.extend_from_slice(&WAVE_FORMAT_EXTENSIBLE.to_le_bytes());
    v.extend_from_slice(&6u16.to_le_bytes()); // nChannels = 6
    v.extend_from_slice(&48_000u32.to_le_bytes());
    v.extend_from_slice(&864_000u32.to_le_bytes());
    v.extend_from_slice(&24u16.to_le_bytes()); // nBlockAlign
    v.extend_from_slice(&32u16.to_le_bytes()); // wBitsPerSample (container)
    v.extend_from_slice(&22u16.to_le_bytes()); // cbSize = 22
    v.extend_from_slice(&24u16.to_le_bytes()); // wValidBitsPerSample = 24
    v.extend_from_slice(&0x0000_003Fu32.to_le_bytes()); // dwChannelMask = 5.1
                                                        // SubFormat = KSDATAFORMAT_SUBTYPE_PCM
                                                        // (00000001-0000-0010-8000-00aa00389b71)
    v.extend_from_slice(&1u32.to_le_bytes()); // Data1 = 1 (LE)
    v.extend_from_slice(&0u16.to_le_bytes()); // Data2
    v.extend_from_slice(&0x0010u16.to_le_bytes()); // Data3
    v.extend_from_slice(&[0x80, 0x00, 0x00, 0xaa, 0x00, 0x38, 0x9b, 0x71]); // Data4

    let f = WaveFormat::parse(&v).unwrap();
    assert_eq!(f.format_tag, WAVE_FORMAT_EXTENSIBLE);
    assert_eq!(f.channels, 6);
    assert_eq!(f.bits_per_sample, 32);
    assert!(f.is_extensible());
    let ext = f.extensible.as_ref().unwrap();
    assert_eq!(ext.samples, 24);
    assert_eq!(ext.channel_mask, 0x3F);
    assert_eq!(f.channel_mask_count(), Some(6));
    // The PCM subtype resolves back to the legacy WAVE_FORMAT_PCM tag.
    assert_eq!(ext.sub_format.waveformatex_tag(), Some(WAVE_FORMAT_PCM));
    assert_eq!(f.effective_format_tag(), Some(WAVE_FORMAT_PCM));
    assert_eq!(
        ext.sub_format.to_hyphenated(),
        "00000001-0000-0010-8000-00aa00389b71"
    );
}

#[test]
fn extensible_with_non_template_subformat_has_no_legacy_tag() {
    let mut v = Vec::new();
    v.extend_from_slice(&WAVE_FORMAT_EXTENSIBLE.to_le_bytes());
    v.extend_from_slice(&2u16.to_le_bytes());
    v.extend_from_slice(&48_000u32.to_le_bytes());
    v.extend_from_slice(&192_000u32.to_le_bytes());
    v.extend_from_slice(&4u16.to_le_bytes());
    v.extend_from_slice(&16u16.to_le_bytes());
    v.extend_from_slice(&22u16.to_le_bytes());
    v.extend_from_slice(&16u16.to_le_bytes()); // wValidBitsPerSample
    v.extend_from_slice(&0x0000_0003u32.to_le_bytes()); // stereo
                                                        // A fabricated non-template GUID (different Data4 tail).
    v.extend_from_slice(&0x1234_5678u32.to_le_bytes());
    v.extend_from_slice(&0xABCDu16.to_le_bytes());
    v.extend_from_slice(&0xEF01u16.to_le_bytes());
    v.extend_from_slice(&[0x11, 0x22, 0x33, 0x44, 0x55, 0x66, 0x77, 0x88]);

    let f = WaveFormat::parse(&v).unwrap();
    let ext = f.extensible.as_ref().unwrap();
    assert!(!ext.sub_format.is_waveformatex_derived());
    assert_eq!(ext.sub_format.waveformatex_tag(), None);
    assert_eq!(f.effective_format_tag(), None);
    assert_eq!(
        ext.sub_format.to_hyphenated(),
        "12345678-abcd-ef01-1122-334455667788"
    );
}

#[test]
fn waveformat_parse_rejects_short_body() {
    let err = WaveFormat::parse(&[0u8; 15]).unwrap_err();
    assert!(err.to_string().contains("16-byte WAVEFORMAT prefix"));
}

#[test]
fn parse_rejects_cbsize_overrun() {
    let mut v = pcm16_waveformat();
    v.extend_from_slice(&10u16.to_le_bytes()); // cbSize claims 10
    v.extend_from_slice(&[0xAA, 0xBB]); // but only 2 present
    let err = WaveFormat::parse(&v).unwrap_err();
    assert!(err.to_string().contains("cbSize over-runs"));
}

#[test]
fn parse_rejects_truncated_extensible_tail() {
    let mut v = pcm16_waveformat();
    v[0..2].copy_from_slice(&WAVE_FORMAT_EXTENSIBLE.to_le_bytes());
    v.extend_from_slice(&4u16.to_le_bytes()); // cbSize = 4 (< 22)
    v.extend_from_slice(&[0, 0, 0, 0]);
    let err = WaveFormat::parse(&v).unwrap_err();
    assert!(err.to_string().contains("22-byte extension tail"));
}

#[test]
fn guid_from_wire_decodes_mixed_endian() {
    // KSDATAFORMAT_SUBTYPE_IEEE_FLOAT on the wire.
    let wire = [
        0x03, 0x00, 0x00, 0x00, // Data1 = 3 (LE)
        0x00, 0x00, // Data2 = 0
        0x10, 0x00, // Data3 = 0x10
        0x80, 0x00, 0x00, 0xaa, 0x00, 0x38, 0x9b, 0x71, // Data4 (BE)
    ];
    let g = Guid::from_le_wire(&wire);
    assert_eq!(g.data1, 3);
    assert_eq!(g.data3, 0x0010);
    assert_eq!(g.waveformatex_tag(), Some(WAVE_FORMAT_IEEE_FLOAT));
    assert_eq!(g.to_hyphenated(), "00000003-0000-0010-8000-00aa00389b71");
}

#[test]
fn waveformatex_base_template_recognised() {
    assert!(KSDATAFORMAT_SUBTYPE_WAVEFORMATEX_BASE().is_waveformatex_derived());
    assert_eq!(
        KSDATAFORMAT_SUBTYPE_WAVEFORMATEX_BASE().waveformatex_tag(),
        Some(0)
    );
}

#[test]
fn waveformat_legacy_tag_constants() {
    assert_eq!(WAVE_FORMAT_ALAW, 6);
    assert_eq!(WAVE_FORMAT_MULAW, 7);
    let g = KSDATAFORMAT_SUBTYPE_WAVEFORMATEX_BASE();
    assert_eq!(g.to_hyphenated(), "00000000-0000-0010-8000-00aa00389b71");
}

#[test]
fn waveformat_extensible_fields_value() {
    let e = ExtensibleFields {
        samples: 16,
        channel_mask: 0x3,
        sub_format: KSDATAFORMAT_SUBTYPE_WAVEFORMATEX_BASE(),
    };
    assert_eq!(e.sub_format.waveformatex_tag(), Some(0));
}
