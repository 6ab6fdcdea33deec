use oxideav_riff::channels::SpeakerPosition::{
    BackLeft, BackRight, FrontCenter, FrontLeft, FrontRight, LowFrequency, SideLeft, SideRight,
};
use oxideav_riff::channels::{
    ChannelMask, SpeakerPosition, StandardLayout, SPEAKER_ALL, SPEAKER_RESERVED_MASK,
    SPEAKER_STANDARD_MASK,
};


#[test]
fn standard_table_is_bit_ordered() {
    // Each entry's bit is strictly greater than the previous, and the
    // ordinal index maps to bit `1 << i`.
    for (i, p) in SpeakerPosition::STANDARD.iter().enumerate() {
        assert_eq!(p.bit(), 1u32 << i, "{} at index {i}", p.symbolic_name());
    }
    assert_eq!(SpeakerPosition::STANDARD.len(), 18);
}

#[test]
fn from_bit_round_trips_each_standard_position() {
    for p in SpeakerPosition::STANDARD {
        assert_eq!(SpeakerPosition::from_bit(p.bit()), Some(p));
    }
    assert_eq!(
        SpeakerPosition::from_bit(SPEAKER_ALL),
        Some(SpeakerPosition::All)
    );
}

#[test]
fn from_bit_rejects_reserved_and_multibit() {
    // A reserved bit (bit 18).
    assert_eq!(SpeakerPosition::from_bit(1 << 18), None);
    // A multi-bit value.
    assert_eq!(SpeakerPosition::from_bit(0x3), None);
    // Zero.
    assert_eq!(SpeakerPosition::from_bit(0), None);
}

#[test]
fn positions_are_in_channel_order() {
    // 5.1 (back): FL FR FC LFE BL BR.
    let m = ChannelMask::new(0x3F);
    assert_eq!(
        m.positions(),
        vec![
            FrontLeft,
            FrontRight,
            FrontCenter,
            LowFrequency,
            BackLeft,
            BackRight
        ]
    );
    assert_eq!(m.channel_count(), 6);
}

#[test]
fn channel_position_mapping_is_bidirectional() {
    let m = ChannelMask::new(0x60F); // 5.1 (side): FL FR FC LFE SL SR.
    assert_eq!(m.position_for_channel(0), Some(FrontLeft));
    assert_eq!(m.position_for_channel(4), Some(SideLeft));
    assert_eq!(m.position_for_channel(5), Some(SideRight));
    assert_eq!(m.position_for_channel(6), None);
    assert_eq!(m.channel_for_position(SideLeft), Some(4));
    assert_eq!(m.channel_for_position(FrontLeft), Some(0));
    // A position the mask doesn't name.
    assert_eq!(m.channel_for_position(BackLeft), None);
}

#[test]
fn standard_layouts_resolve() {
    assert_eq!(
        ChannelMask::new(0x04).standard_layout(),
        Some(StandardLayout::Mono)
    );
    assert_eq!(
        ChannelMask::new(0x03).standard_layout(),
        Some(StandardLayout::Stereo)
    );
    assert_eq!(
        ChannelMask::new(0x0B).standard_layout(),
        Some(StandardLayout::TwoPointOne)
    );
    assert_eq!(
        ChannelMask::new(0x33).standard_layout(),
        Some(StandardLayout::Quad)
    );
    assert_eq!(
        ChannelMask::new(0x3F).standard_layout(),
        Some(StandardLayout::FivePointOneBack)
    );
    assert_eq!(
        ChannelMask::new(0x60F).standard_layout(),
        Some(StandardLayout::FivePointOneSide)
    );
    assert_eq!(
        ChannelMask::new(0x63F).standard_layout(),
        Some(StandardLayout::SevenPointOne)
    );
    // A non-standard mask (FL | FR | TC).
    assert_eq!(ChannelMask::new(0x803).standard_layout(), None);
}

#[test]
fn standard_layout_channel_counts() {
    assert_eq!(StandardLayout::Mono.channel_count(), 1);
    assert_eq!(StandardLayout::Stereo.channel_count(), 2);
    assert_eq!(StandardLayout::TwoPointOne.channel_count(), 3);
    assert_eq!(StandardLayout::Quad.channel_count(), 4);
    assert_eq!(StandardLayout::FivePointOneBack.channel_count(), 6);
    assert_eq!(StandardLayout::FivePointOneSide.channel_count(), 6);
    assert_eq!(StandardLayout::SevenPointOne.channel_count(), 8);
}

#[test]
fn all_flag_and_reserved_bits() {
    let m = ChannelMask::new(SPEAKER_ALL);
    assert!(m.is_all());
    assert!(!m.is_empty());
    assert!(!m.has_reserved_bits());
    assert_eq!(m.channel_count(), 0);
    assert_eq!(m.positions(), vec![]);

    let r = ChannelMask::new(1 << 20);
    assert!(r.has_reserved_bits());
    assert!(!r.is_all());
    assert_eq!(r.channel_count(), 0);

    // A standard mask with a stray reserved bit still reports its
    // discrete positions but flags the reserved bit.
    let mixed = ChannelMask::new(0x3F | (1 << 19));
    assert!(mixed.has_reserved_bits());
    assert_eq!(mixed.channel_count(), 6);
    assert_eq!(mixed.standard_layout(), None); // not an exact 5.1 mask
}

#[test]
fn empty_mask_is_renderer_decides() {
    let m = ChannelMask::new(0);
    assert!(m.is_empty());
    assert_eq!(m.channel_count(), 0);
    assert!(m.positions().is_empty());
    assert_eq!(m.position_for_channel(0), None);
    assert_eq!(m.standard_layout(), None);
}

#[test]
fn from_positions_builds_mask() {
    let m = ChannelMask::from_positions(&[
        FrontLeft,
        FrontRight,
        FrontCenter,
        LowFrequency,
        BackLeft,
        BackRight,
    ]);
    assert_eq!(m.raw(), 0x3F);
    assert_eq!(m.standard_layout(), Some(StandardLayout::FivePointOneBack));
}

#[test]
fn consistency_with_channels() {
    let stereo = ChannelMask::new(0x03);
    assert!(stereo.is_consistent_with_channels(2));
    assert!(!stereo.is_consistent_with_channels(3));
    // Empty / ALL make no claim → consistent with anything.
    assert!(ChannelMask::new(0).is_consistent_with_channels(8));
    assert!(ChannelMask::new(SPEAKER_ALL).is_consistent_with_channels(8));
}

#[test]
fn validate_for_channels_strict() {
    assert!(ChannelMask::new(0x3F).validate_for_channels(6).is_ok());
    // Count mismatch.
    assert!(ChannelMask::new(0x3F).validate_for_channels(5).is_err());
    // Empty and ALL are rejected by the strict authoring check.
    assert!(ChannelMask::new(0).validate_for_channels(0).is_err());
    assert!(ChannelMask::new(SPEAKER_ALL)
        .validate_for_channels(0)
        .is_err());
    // Reserved bit.
    assert!(ChannelMask::new(0x3F | (1 << 19))
        .validate_for_channels(6)
        .is_err());
}

#[test]
fn contains_and_short_labels() {
    let m = ChannelMask::new(0x0B); // 2.1: FL FR LFE.
    assert!(m.contains(SpeakerPosition::FrontLeft));
    assert!(m.contains(SpeakerPosition::LowFrequency));
    assert!(!m.contains(SpeakerPosition::FrontCenter));
    assert_eq!(SpeakerPosition::LowFrequency.short_label(), "LFE");
    assert_eq!(SpeakerPosition::TopBackRight.short_label(), "TBR");
}

#[test]
fn channels_mask_constants_partition_the_word() {
    assert_eq!(SPEAKER_STANDARD_MASK | SPEAKER_RESERVED_MASK | SPEAKER_ALL, u32::MAX);
    assert_eq!(SPEAKER_STANDARD_MASK & SPEAKER_RESERVED_MASK, 0);
}

#[test]
fn channels_layout_mask_round_trips() {
    for l in [
        StandardLayout::Mono,
        StandardLayout::Stereo,
        StandardLayout::TwoPointOne,
        StandardLayout::Quad,
        StandardLayout::FivePointOneBack,
        StandardLayout::FivePointOneSide,
        StandardLayout::SevenPointOne,
    ] {
        assert_eq!(StandardLayout::from_mask(l.channel_mask()), Some(l));
        assert_eq!(ChannelMask::new(l.channel_mask()).channel_count(), l.channel_count());
    }
    assert_eq!(StandardLayout::Quad.name(), "Quad");
}

#[test]
fn channels_validate_error_message() {
    let err = ChannelMask::new(0x3F).validate_for_channels(5).unwrap_err();
    assert!(!err.to_string().is_empty());
}

#[test]
fn channel_and_position_lookups_agree() {
    let m = ChannelMask::new(0x0000_063F);
    for &p in SpeakerPosition::STANDARD.iter() {
        match m.channel_for_position(p) {
            Some(i) => assert_eq!(m.position_for_channel(i), Some(p)),
            None => assert!(!m.contains(p)),
        }
    }
    for i in 0..m.positions().len() {
        let p = m.position_for_channel(i).unwrap();
        assert_eq!(m.channel_for_position(p), Some(i));
    }
    assert_eq!(m.channel_for_position(SpeakerPosition::All), None);
}

#[test]
fn from_bit_names_only_single_standard_bits() {
    for shift in 0..32u32 {
        let b = 1u32 << shift;
        let reserved = b & SPEAKER_RESERVED_MASK != 0;
        assert_eq!(SpeakerPosition::from_bit(b).is_some(), !reserved, "bit {shift}");
        if let Some(p) = SpeakerPosition::from_bit(b) {
            assert_eq!(p.bit(), b);
        }
    }
    assert_eq!(SpeakerPosition::from_bit(0x8000_0001), None);
}
