//! `WAVEFORMATEXTENSIBLE` `dwChannelMask` speaker positions.
//!
//! Each set bit of the 32-bit mask names a speaker position, and the
//! interleaved channels are stored in the bit order of the mask, lowest
//! set bit first. Bits 0..=17 are the 18 standard positions, bits
//! 18..=30 are reserved, bit 31 is `SPEAKER_ALL`.
use vstd::prelude::*;

use crate::error::{Error, Result};
use crate::le::{count_ones_u32, popcount};

verus! {

/// A speaker position named by one bit of the channel mask.
#[derive(Clone, Copy, Debug, PartialEq, Eq, PartialOrd, Ord, Hash)]
pub enum SpeakerPosition {
    /// `SPEAKER_FRONT_LEFT`.
    FrontLeft,
    /// `SPEAKER_FRONT_RIGHT`.
    FrontRight,
    /// `SPEAKER_FRONT_CENTER`.
    FrontCenter,
    /// `SPEAKER_LOW_FREQUENCY`.
    LowFrequency,
    /// `SPEAKER_BACK_LEFT`.
    BackLeft,
    /// `SPEAKER_BACK_RIGHT`.
    BackRight,
    /// `SPEAKER_FRONT_LEFT_OF_CENTER`.
    FrontLeftOfCenter,
    /// `SPEAKER_FRONT_RIGHT_OF_CENTER`.
    FrontRightOfCenter,
    /// `SPEAKER_BACK_CENTER`.
    BackCenter,
    /// `SPEAKER_SIDE_LEFT`.
    SideLeft,
    /// `SPEAKER_SIDE_RIGHT`.
    SideRight,
    /// `SPEAKER_TOP_CENTER`.
    TopCenter,
    /// `SPEAKER_TOP_FRONT_LEFT`.
    TopFrontLeft,
    /// `SPEAKER_TOP_FRONT_CENTER`.
    TopFrontCenter,
    /// `SPEAKER_TOP_FRONT_RIGHT`.
    TopFrontRight,
    /// `SPEAKER_TOP_BACK_LEFT`.
    TopBackLeft,
    /// `SPEAKER_TOP_BACK_CENTER`.
    TopBackCenter,
    /// `SPEAKER_TOP_BACK_RIGHT`.
    TopBackRight,
    /// `SPEAKER_ALL`.
    All,
}

/// The 18 standard position bits (0..=17).
pub const SPEAKER_STANDARD_MASK: u32 = 0x0003_FFFF;

/// The `SPEAKER_ALL` bit (31).
pub const SPEAKER_ALL: u32 = 0x8000_0000;

/// The reserved bits (18..=30).
pub const SPEAKER_RESERVED_MASK: u32 = 0x7FFC_0000;

/// The mask bit of a position.
pub open spec fn speaker_bit(p: SpeakerPosition) -> u32 {
    match p {
        SpeakerPosition::FrontLeft => 0x0000_0001,
        SpeakerPosition::FrontRight => 0x0000_0002,
        SpeakerPosition::FrontCenter => 0x0000_0004,
        SpeakerPosition::LowFrequency => 0x0000_0008,
        SpeakerPosition::BackLeft => 0x0000_0010,
        SpeakerPosition::BackRight => 0x0000_0020,
        SpeakerPosition::FrontLeftOfCenter => 0x0000_0040,
        SpeakerPosition::FrontRightOfCenter => 0x0000_0080,
        SpeakerPosition::BackCenter => 0x0000_0100,
        SpeakerPosition::SideLeft => 0x0000_0200,
        SpeakerPosition::SideRight => 0x0000_0400,
        SpeakerPosition::TopCenter => 0x0000_0800,
        SpeakerPosition::TopFrontLeft => 0x0000_1000,
        SpeakerPosition::TopFrontCenter => 0x0000_2000,
        SpeakerPosition::TopFrontRight => 0x0000_4000,
        SpeakerPosition::TopBackLeft => 0x0000_8000,
        SpeakerPosition::TopBackCenter => 0x0001_0000,
        SpeakerPosition::TopBackRight => 0x0002_0000,
        SpeakerPosition::All => 0x8000_0000,
    }
}

/// The position a single mask bit names.
pub open spec fn speaker_from_bit(bit: u32) -> Option<SpeakerPosition> {
    match bit {
        0x0000_0001 => Some(SpeakerPosition::FrontLeft),
        0x0000_0002 => Some(SpeakerPosition::FrontRight),
        0x0000_0004 => Some(SpeakerPosition::FrontCenter),
        0x0000_0008 => Some(SpeakerPosition::LowFrequency),
        0x0000_0010 => Some(SpeakerPosition::BackLeft),
        0x0000_0020 => Some(SpeakerPosition::BackRight),
        0x0000_0040 => Some(SpeakerPosition::FrontLeftOfCenter),
        0x0000_0080 => Some(SpeakerPosition::FrontRightOfCenter),
        0x0000_0100 => Some(SpeakerPosition::BackCenter),
        0x0000_0200 => Some(SpeakerPosition::SideLeft),
        0x0000_0400 => Some(SpeakerPosition::SideRight),
        0x0000_0800 => Some(SpeakerPosition::TopCenter),
        0x0000_1000 => Some(SpeakerPosition::TopFrontLeft),
        0x0000_2000 => Some(SpeakerPosition::TopFrontCenter),
        0x0000_4000 => Some(SpeakerPosition::TopFrontRight),
        0x0000_8000 => Some(SpeakerPosition::TopBackLeft),
        0x0001_0000 => Some(SpeakerPosition::TopBackCenter),
        0x0002_0000 => Some(SpeakerPosition::TopBackRight),
        0x8000_0000 => Some(SpeakerPosition::All),
        _ => None,
    }
}

/// The `SPEAKER_*` name of a position.
pub open spec fn speaker_symbol(p: SpeakerPosition) -> Seq<char> {
    match p {
        SpeakerPosition::FrontLeft => "SPEAKER_FRONT_LEFT"@,
        SpeakerPosition::FrontRight => "SPEAKER_FRONT_RIGHT"@,
        SpeakerPosition::FrontCenter => "SPEAKER_FRONT_CENTER"@,
        SpeakerPosition::LowFrequency => "SPEAKER_LOW_FREQUENCY"@,
        SpeakerPosition::BackLeft => "SPEAKER_BACK_LEFT"@,
        SpeakerPosition::BackRight => "SPEAKER_BACK_RIGHT"@,
        SpeakerPosition::FrontLeftOfCenter => "SPEAKER_FRONT_LEFT_OF_CENTER"@,
        SpeakerPosition::FrontRightOfCenter => "SPEAKER_FRONT_RIGHT_OF_CENTER"@,
        SpeakerPosition::BackCenter => "SPEAKER_BACK_CENTER"@,
        SpeakerPosition::SideLeft => "SPEAKER_SIDE_LEFT"@,
        SpeakerPosition::SideRight => "SPEAKER_SIDE_RIGHT"@,
        SpeakerPosition::TopCenter => "SPEAKER_TOP_CENTER"@,
        SpeakerPosition::TopFrontLeft => "SPEAKER_TOP_FRONT_LEFT"@,
        SpeakerPosition::TopFrontCenter => "SPEAKER_TOP_FRONT_CENTER"@,
        SpeakerPosition::TopFrontRight => "SPEAKER_TOP_FRONT_RIGHT"@,
        SpeakerPosition::TopBackLeft => "SPEAKER_TOP_BACK_LEFT"@,
        SpeakerPosition::TopBackCenter => "SPEAKER_TOP_BACK_CENTER"@,
        SpeakerPosition::TopBackRight => "SPEAKER_TOP_BACK_RIGHT"@,
        SpeakerPosition::All => "SPEAKER_ALL"@,
    }
}

/// The short label of a position.
pub open spec fn speaker_short(p: SpeakerPosition) -> Seq<char> {
    match p {
        SpeakerPosition::FrontLeft => "FL"@,
        SpeakerPosition::FrontRight => "FR"@,
        SpeakerPosition::FrontCenter => "FC"@,
        SpeakerPosition::LowFrequency => "LFE"@,
        SpeakerPosition::BackLeft => "BL"@,
        SpeakerPosition::BackRight => "BR"@,
        SpeakerPosition::FrontLeftOfCenter => "FLC"@,
        SpeakerPosition::FrontRightOfCenter => "FRC"@,
        SpeakerPosition::BackCenter => "BC"@,
        SpeakerPosition::SideLeft => "SL"@,
        SpeakerPosition::SideRight => "SR"@,
        SpeakerPosition::TopCenter => "TC"@,
        SpeakerPosition::TopFrontLeft => "TFL"@,
        SpeakerPosition::TopFrontCenter => "TFC"@,
        SpeakerPosition::TopFrontRight => "TFR"@,
        SpeakerPosition::TopBackLeft => "TBL"@,
        SpeakerPosition::TopBackCenter => "TBC"@,
        SpeakerPosition::TopBackRight => "TBR"@,
        SpeakerPosition::All => "ALL"@,
    }
}

/// The 18 standard positions in bit order.
pub open spec fn standard_positions() -> Seq<SpeakerPosition> {
    seq![
        SpeakerPosition::FrontLeft,
        SpeakerPosition::FrontRight,
        SpeakerPosition::FrontCenter,
        SpeakerPosition::LowFrequency,
        SpeakerPosition::BackLeft,
        SpeakerPosition::BackRight,
        SpeakerPosition::FrontLeftOfCenter,
        SpeakerPosition::FrontRightOfCenter,
        SpeakerPosition::BackCenter,
        SpeakerPosition::SideLeft,
        SpeakerPosition::SideRight,
        SpeakerPosition::TopCenter,
        SpeakerPosition::TopFrontLeft,
        SpeakerPosition::TopFrontCenter,
        SpeakerPosition::TopFrontRight,
        SpeakerPosition::TopBackLeft,
        SpeakerPosition::TopBackCenter,
        SpeakerPosition::TopBackRight,
    ]
}

/// The bit number of a standard position (18 for `All`).
pub open spec fn standard_index(p: SpeakerPosition) -> int {
    match p {
        SpeakerPosition::FrontLeft => 0,
        SpeakerPosition::FrontRight => 1,
        SpeakerPosition::FrontCenter => 2,
        SpeakerPosition::LowFrequency => 3,
        SpeakerPosition::BackLeft => 4,
        SpeakerPosition::BackRight => 5,
        SpeakerPosition::FrontLeftOfCenter => 6,
        SpeakerPosition::FrontRightOfCenter => 7,
        SpeakerPosition::BackCenter => 8,
        SpeakerPosition::SideLeft => 9,
        SpeakerPosition::SideRight => 10,
        SpeakerPosition::TopCenter => 11,
        SpeakerPosition::TopFrontLeft => 12,
        SpeakerPosition::TopFrontCenter => 13,
        SpeakerPosition::TopFrontRight => 14,
        SpeakerPosition::TopBackLeft => 15,
        SpeakerPosition::TopBackCenter => 16,
        SpeakerPosition::TopBackRight => 17,
        SpeakerPosition::All => 18,
    }
}

impl SpeakerPosition {
    /// The 18 standard positions in bit order (`All` excluded).
    pub const STANDARD: [SpeakerPosition; 18] = [
        SpeakerPosition::FrontLeft,
        SpeakerPosition::FrontRight,
        SpeakerPosition::FrontCenter,
        SpeakerPosition::LowFrequency,
        SpeakerPosition::BackLeft,
        SpeakerPosition::BackRight,
        SpeakerPosition::FrontLeftOfCenter,
        SpeakerPosition::FrontRightOfCenter,
        SpeakerPosition::BackCenter,
        SpeakerPosition::SideLeft,
        SpeakerPosition::SideRight,
        SpeakerPosition::TopCenter,
        SpeakerPosition::TopFrontLeft,
        SpeakerPosition::TopFrontCenter,
        SpeakerPosition::TopFrontRight,
        SpeakerPosition::TopBackLeft,
        SpeakerPosition::TopBackCenter,
        SpeakerPosition::TopBackRight,
    ];

    /// The position's mask bit.
    pub fn bit(self) -> (r: u32)
        ensures
            r == speaker_bit(self),
    {
        match self {
            SpeakerPosition::FrontLeft => 0x0000_0001,
            SpeakerPosition::FrontRight => 0x0000_0002,
            SpeakerPosition::FrontCenter => 0x0000_0004,
            SpeakerPosition::LowFrequency => 0x0000_0008,
            SpeakerPosition::BackLeft => 0x0000_0010,
            SpeakerPosition::BackRight => 0x0000_0020,
            SpeakerPosition::FrontLeftOfCenter => 0x0000_0040,
            SpeakerPosition::FrontRightOfCenter => 0x0000_0080,
            SpeakerPosition::BackCenter => 0x0000_0100,
            SpeakerPosition::SideLeft => 0x0000_0200,
            SpeakerPosition::SideRight => 0x0000_0400,
            SpeakerPosition::TopCenter => 0x0000_0800,
            SpeakerPosition::TopFrontLeft => 0x0000_1000,
            SpeakerPosition::TopFrontCenter => 0x0000_2000,
            SpeakerPosition::TopFrontRight => 0x0000_4000,
            SpeakerPosition::TopBackLeft => 0x0000_8000,
            SpeakerPosition::TopBackCenter => 0x0001_0000,
            SpeakerPosition::TopBackRight => 0x0002_0000,
            SpeakerPosition::All => 0x8000_0000,
        }
    }

    /// The position a single mask bit names; `None` for zero, a
    /// reserved bit, or several bits.
    pub fn from_bit(bit: u32) -> (r: Option<SpeakerPosition>)
        ensures
            r == speaker_from_bit(bit),
    {
        match bit {
            0x0000_0001 => Some(SpeakerPosition::FrontLeft),
            0x0000_0002 => Some(SpeakerPosition::FrontRight),
            0x0000_0004 => Some(SpeakerPosition::FrontCenter),
            0x0000_0008 => Some(SpeakerPosition::LowFrequency),
            0x0000_0010 => Some(SpeakerPosition::BackLeft),
            0x0000_0020 => Some(SpeakerPosition::BackRight),
            0x0000_0040 => Some(SpeakerPosition::FrontLeftOfCenter),
            0x0000_0080 => Some(SpeakerPosition::FrontRightOfCenter),
            0x0000_0100 => Some(SpeakerPosition::BackCenter),
            0x0000_0200 => Some(SpeakerPosition::SideLeft),
            0x0000_0400 => Some(SpeakerPosition::SideRight),
            0x0000_0800 => Some(SpeakerPosition::TopCenter),
            0x0000_1000 => Some(SpeakerPosition::TopFrontLeft),
            0x0000_2000 => Some(SpeakerPosition::TopFrontCenter),
            0x0000_4000 => Some(SpeakerPosition::TopFrontRight),
            0x0000_8000 => Some(SpeakerPosition::TopBackLeft),
            0x0001_0000 => Some(SpeakerPosition::TopBackCenter),
            0x0002_0000 => Some(SpeakerPosition::TopBackRight),
            0x8000_0000 => Some(SpeakerPosition::All),
            _ => None,
        }
    }

    /// The `SPEAKER_*` name.
    pub fn symbolic_name(self) -> (r: &'static str)
        ensures
            r@ == speaker_symbol(self),
    {
        match self {
            SpeakerPosition::FrontLeft => "SPEAKER_FRONT_LEFT",
            SpeakerPosition::FrontRight => "SPEAKER_FRONT_RIGHT",
            SpeakerPosition::FrontCenter => "SPEAKER_FRONT_CENTER",
            SpeakerPosition::LowFrequency => "SPEAKER_LOW_FREQUENCY",
            SpeakerPosition::BackLeft => "SPEAKER_BACK_LEFT",
            SpeakerPosition::BackRight => "SPEAKER_BACK_RIGHT",
            SpeakerPosition::FrontLeftOfCenter => "SPEAKER_FRONT_LEFT_OF_CENTER",
            SpeakerPosition::FrontRightOfCenter => "SPEAKER_FRONT_RIGHT_OF_CENTER",
            SpeakerPosition::BackCenter => "SPEAKER_BACK_CENTER",
            SpeakerPosition::SideLeft => "SPEAKER_SIDE_LEFT",
            SpeakerPosition::SideRight => "SPEAKER_SIDE_RIGHT",
            SpeakerPosition::TopCenter => "SPEAKER_TOP_CENTER",
            SpeakerPosition::TopFrontLeft => "SPEAKER_TOP_FRONT_LEFT",
            SpeakerPosition::TopFrontCenter => "SPEAKER_TOP_FRONT_CENTER",
            SpeakerPosition::TopFrontRight => "SPEAKER_TOP_FRONT_RIGHT",
            SpeakerPosition::TopBackLeft => "SPEAKER_TOP_BACK_LEFT",
            SpeakerPosition::TopBackCenter => "SPEAKER_TOP_BACK_CENTER",
            SpeakerPosition::TopBackRight => "SPEAKER_TOP_BACK_RIGHT",
            SpeakerPosition::All => "SPEAKER_ALL",
        }
    }

    /// The short label (`FL`, `LFE`, …).
    pub fn short_label(self) -> (r: &'static str)
        ensures
            r@ == speaker_short(self),
    {
        match self {
            SpeakerPosition::FrontLeft => "FL",
            SpeakerPosition::FrontRight => "FR",
            SpeakerPosition::FrontCenter => "FC",
            SpeakerPosition::LowFrequency => "LFE",
            SpeakerPosition::BackLeft => "BL",
            SpeakerPosition::BackRight => "BR",
            SpeakerPosition::FrontLeftOfCenter => "FLC",
            SpeakerPosition::FrontRightOfCenter => "FRC",
            SpeakerPosition::BackCenter => "BC",
            SpeakerPosition::SideLeft => "SL",
            SpeakerPosition::SideRight => "SR",
            SpeakerPosition::TopCenter => "TC",
            SpeakerPosition::TopFrontLeft => "TFL",
            SpeakerPosition::TopFrontCenter => "TFC",
            SpeakerPosition::TopFrontRight => "TFR",
            SpeakerPosition::TopBackLeft => "TBL",
            SpeakerPosition::TopBackCenter => "TBC",
            SpeakerPosition::TopBackRight => "TBR",
            SpeakerPosition::All => "ALL",
        }
    }
}

/// Every position's bit names it back.
pub proof fn lemma_from_bit_of_bit(p: SpeakerPosition)
    ensures
        speaker_from_bit(speaker_bit(p)) == Some(p),
{
}

/// Exactly one bit of `b` is set.
pub open spec fn single_bit(b: u32) -> bool {
    b != 0 && b & ((b - 1) as u32) == 0
}

/// `from_bit` names a position exactly for a single bit outside the
/// reserved range (18..=30), and the position it names has that bit.
pub proof fn lemma_from_bit_exact(b: u32)
    ensures
        speaker_from_bit(b) is Some <==> (single_bit(b) && b & SPEAKER_RESERVED_MASK == 0),
        speaker_from_bit(b) matches Some(q) ==> speaker_bit(q) == b,
{
    assert((b != 0 && b & ((b - 1) as u32) == 0 && b & 0x7FFC_0000u32 == 0) <==> (b == 0x1u32
        || b == 0x2u32 || b == 0x4u32 || b == 0x8u32 || b == 0x10u32 || b == 0x20u32 || b
        == 0x40u32 || b == 0x80u32 || b == 0x100u32 || b == 0x200u32 || b == 0x400u32 || b
        == 0x800u32 || b == 0x1000u32 || b == 0x2000u32 || b == 0x4000u32 || b == 0x8000u32 || b
        == 0x1_0000u32 || b == 0x2_0000u32 || b == 0x8000_0000u32)) by (bit_vector);
}

/// A standard channel layout.
#[derive(Clone, Copy, Debug, PartialEq, Eq, PartialOrd, Ord, Hash)]
pub enum StandardLayout {
    Mono,
    Stereo,
    TwoPointOne,
    Quad,
    FivePointOneBack,
    FivePointOneSide,
    SevenPointOne,
}

/// The channel mask of a layout.
pub open spec fn layout_mask(l: StandardLayout) -> u32 {
    match l {
        StandardLayout::Mono => 0x0000_0004,
        StandardLayout::Stereo => 0x0000_0003,
        StandardLayout::TwoPointOne => 0x0000_000B,
        StandardLayout::Quad => 0x0000_0033,
        StandardLayout::FivePointOneBack => 0x0000_003F,
        StandardLayout::FivePointOneSide => 0x0000_060F,
        StandardLayout::SevenPointOne => 0x0000_063F,
    }
}

/// The layout whose mask is exactly `mask`.
pub open spec fn layout_of_mask(mask: u32) -> Option<StandardLayout> {
    match mask {
        0x0000_0004 => Some(StandardLayout::Mono),
        0x0000_0003 => Some(StandardLayout::Stereo),
        0x0000_000B => Some(StandardLayout::TwoPointOne),
        0x0000_0033 => Some(StandardLayout::Quad),
        0x0000_003F => Some(StandardLayout::FivePointOneBack),
        0x0000_060F => Some(StandardLayout::FivePointOneSide),
        0x0000_063F => Some(StandardLayout::SevenPointOne),
        _ => None,
    }
}

/// The display name of a layout.
pub open spec fn layout_name(l: StandardLayout) -> Seq<char> {
    match l {
        StandardLayout::Mono => "Mono"@,
        StandardLayout::Stereo => "Stereo"@,
        StandardLayout::TwoPointOne => "2.1"@,
        StandardLayout::Quad => "Quad"@,
        StandardLayout::FivePointOneBack => "5.1 (back)"@,
        StandardLayout::FivePointOneSide => "5.1 (side)"@,
        StandardLayout::SevenPointOne => "7.1"@,
    }
}

impl StandardLayout {
    /// The layout's channel mask.
    pub fn channel_mask(self) -> (r: u32)
        ensures
            r == layout_mask(self),
    {
        match self {
            StandardLayout::Mono => 0x0000_0004,
            StandardLayout::Stereo => 0x0000_0003,
            StandardLayout::TwoPointOne => 0x0000_000B,
            StandardLayout::Quad => 0x0000_0033,
            StandardLayout::FivePointOneBack => 0x0000_003F,
            StandardLayout::FivePointOneSide => 0x0000_060F,
            StandardLayout::SevenPointOne => 0x0000_063F,
        }
    }

    /// The layout's channel count (the number of mask bits).
    pub fn channel_count(self) -> (r: u32)
        ensures
            r == popcount(layout_mask(self) as nat),
    {
        count_ones_u32(self.channel_mask())
    }

    /// The display name.
    pub fn name(self) -> (r: &'static str)
        ensures
            r@ == layout_name(self),
    {
        match self {
            StandardLayout::Mono => "Mono",
            StandardLayout::Stereo => "Stereo",
            StandardLayout::TwoPointOne => "2.1",
            StandardLayout::Quad => "Quad",
            StandardLayout::FivePointOneBack => "5.1 (back)",
            StandardLayout::FivePointOneSide => "5.1 (side)",
            StandardLayout::SevenPointOne => "7.1",
        }
    }

    /// The layout whose mask is exactly `mask`, if any.
    pub fn from_mask(mask: u32) -> (r: Option<StandardLayout>)
        ensures
            r == layout_of_mask(mask),
    {
        match mask {
            0x0000_0004 => Some(StandardLayout::Mono),
            0x0000_0003 => Some(StandardLayout::Stereo),
            0x0000_000B => Some(StandardLayout::TwoPointOne),
            0x0000_0033 => Some(StandardLayout::Quad),
            0x0000_003F => Some(StandardLayout::FivePointOneBack),
            0x0000_060F => Some(StandardLayout::FivePointOneSide),
            0x0000_063F => Some(StandardLayout::SevenPointOne),
            _ => None,
        }
    }
}

/// Every layout's mask names it back.
pub proof fn lemma_layout_of_mask(l: StandardLayout)
    ensures
        layout_of_mask(layout_mask(l)) == Some(l),
{
}

/// The positions of the first `k` standard bits that `mask` sets, in
/// bit order.
pub open spec fn positions_prefix(mask: u32, k: nat) -> Seq<SpeakerPosition>
    decreases k,
{
    if k == 0 {
        Seq::empty()
    } else {
        let prev = positions_prefix(mask, (k - 1) as nat);
        let p = standard_positions()[k - 1];
        if mask & speaker_bit(p) != 0 {
            prev.push(p)
        } else {
            prev
        }
    }
}

/// The standard positions `mask` names, in channel order.
pub open spec fn mask_positions(mask: u32) -> Seq<SpeakerPosition> {
    positions_prefix(mask, 18)
}

/// The bits of a sequence of positions, or-ed together.
pub open spec fn or_bits(s: Seq<SpeakerPosition>) -> u32
    decreases s.len(),
{
    if s.len() == 0 {
        0
    } else {
        or_bits(s.drop_last()) | speaker_bit(s.last())
    }
}

proof fn lemma_standard_index(j: int)
    requires
        0 <= j < 18,
    ensures
        standard_index(standard_positions()[j]) == j,
{
}

/// Every element of a prefix is a standard position of lower bit number
/// whose bit the mask sets.
proof fn lemma_prefix_elements(mask: u32, k: nat)
    requires
        k <= 18,
    ensures
        positions_prefix(mask, k).len() <= k,
        forall|i: int|
            0 <= i < positions_prefix(mask, k).len() ==> {
                let p = #[trigger] positions_prefix(mask, k)[i];
                &&& 0 <= standard_index(p) < k
                &&& standard_positions()[standard_index(p)] == p
                &&& mask & speaker_bit(p) != 0
            },
        forall|i: int, j: int|
            0 <= i < j < positions_prefix(mask, k).len() ==> standard_index(
                #[trigger] positions_prefix(mask, k)[i],
            ) < standard_index(#[trigger] positions_prefix(mask, k)[j]),
    decreases k,
{
    if k > 0 {
        lemma_prefix_elements(mask, (k - 1) as nat);
        lemma_standard_index(k - 1);
    }
}

/// A shorter prefix is a prefix of a longer one.
proof fn lemma_prefix_grows(mask: u32, j: nat, k: nat)
    requires
        j <= k <= 18,
    ensures
        positions_prefix(mask, j).len() <= positions_prefix(mask, k).len(),
        positions_prefix(mask, k).subrange(0, positions_prefix(mask, j).len() as int)
            == positions_prefix(mask, j),
    decreases k - j,
{
    if j < k {
        lemma_prefix_grows(mask, j, (k - 1) as nat);
        let a = positions_prefix(mask, j);
        let b = positions_prefix(mask, (k - 1) as nat);
        let c = positions_prefix(mask, k);
        assert(c.subrange(0, a.len() as int) =~= b.subrange(0, a.len() as int));
    } else {
        assert(positions_prefix(mask, k).subrange(0, positions_prefix(mask, k).len() as int)
            =~= positions_prefix(mask, k));
    }
}

/// The positions a mask names are distinct: one channel per position.
pub proof fn lemma_mask_positions_distinct(mask: u32)
    ensures
        forall|i: int, j: int|
            0 <= i < mask_positions(mask).len() && 0 <= j < mask_positions(mask).len() && i != j
                ==> #[trigger] mask_positions(mask)[i] != #[trigger] mask_positions(mask)[j],
{
    lemma_prefix_elements(mask, 18);
}

/// The channel-to-position and position-to-channel mappings are
/// inverse: the position that channel `i` carries is found again at
/// channel `i`, and at no other channel.
pub proof fn lemma_channel_position_bidirectional(mask: u32, i: int, k: int)
    requires
        0 <= i < mask_positions(mask).len(),
        0 <= k < mask_positions(mask).len(),
        mask_positions(mask)[k] == mask_positions(mask)[i],
    ensures
        k == i,
{
    lemma_mask_positions_distinct(mask);
}

/// A mask names a position exactly when it sets the position's bit and
/// the position is a standard one (`All` never has a channel).
pub proof fn lemma_mask_positions_contains(mask: u32, p: SpeakerPosition)
    ensures
        mask_positions(mask).contains(p) <==> (p != SpeakerPosition::All && mask & speaker_bit(p)
            != 0),
{
    let mp = mask_positions(mask);
    lemma_prefix_elements(mask, 18);
    if mp.contains(p) {
        let i = choose|i: int| 0 <= i < mp.len() && mp[i] == p;
        assert(mp[i] == p);
    }
    if p != SpeakerPosition::All && mask & speaker_bit(p) != 0 {
        let j = standard_index(p);
        lemma_standard_index(j);
        assert(standard_positions()[j] == p);
        let pre = positions_prefix(mask, (j + 1) as nat);
        assert(pre == positions_prefix(mask, j as nat).push(p));
        lemma_prefix_grows(mask, (j + 1) as nat, 18);
        assert(mp.subrange(0, pre.len() as int)[pre.len() - 1] == p);
        assert(mp[pre.len() - 1] == p);
    }
}

/// A channel mask: the raw 32-bit `dwChannelMask`.
#[derive(Clone, Copy, Debug, PartialEq, Eq, Hash)]
pub struct ChannelMask {
    raw: u32,
}

impl View for ChannelMask {
    type V = u32;

    closed spec fn view(&self) -> u32 {
        self.raw
    }
}

impl ChannelMask {
    /// Wrap a raw mask.
    pub fn new(raw: u32) -> (r: Self)
        ensures
            r@ == raw,
    {
        ChannelMask { raw }
    }

    /// The raw mask.
    pub fn raw(self) -> (r: u32)
        ensures
            r == self@,
    {
        self.raw
    }

    /// `true` for the empty mask (the renderer decides the layout).
    pub fn is_empty(self) -> (r: bool)
        ensures
            r == (self@ == 0),
    {
        self.raw == 0
    }

    /// `true` when the `SPEAKER_ALL` bit is set.
    pub fn is_all(self) -> (r: bool)
        ensures
            r == (self@ & SPEAKER_ALL != 0),
    {
        self.raw & SPEAKER_ALL != 0
    }

    /// `true` when a reserved bit is set.
    pub fn has_reserved_bits(self) -> (r: bool)
        ensures
            r == (self@ & SPEAKER_RESERVED_MASK != 0),
    {
        self.raw & SPEAKER_RESERVED_MASK != 0
    }

    /// The number of standard positions named.
    pub fn channel_count(self) -> (r: u32)
        ensures
            r == popcount((self@ & SPEAKER_STANDARD_MASK) as nat),
    {
        count_ones_u32(self.raw & SPEAKER_STANDARD_MASK)
    }

    /// The standard positions named, in channel order.
    pub fn positions(self) -> (r: Vec<SpeakerPosition>)
        ensures
            r@ == mask_positions(self@),
    {
        let std = SpeakerPosition::STANDARD;
        assert(std@ =~= standard_positions());
        let mut out: Vec<SpeakerPosition> = Vec::new();
        let mut k: usize = 0;
        while k < 18
            invariant
                k <= 18,
                std@ == standard_positions(),
                out@ == positions_prefix(self@, k as nat),
            decreases 18 - k,
        {
            let p = std[k];
            if self.raw & p.bit() != 0 {
                out.push(p);
            }
            k += 1;
        }
        out
    }

    /// The position channel `index` feeds, if the mask names that many.
    pub fn position_for_channel(self, index: usize) -> (r: Option<SpeakerPosition>)
        ensures
            r == (if index < mask_positions(self@).len() {
                Some(mask_positions(self@)[index as int])
            } else {
                None
            }),
    {
        let ps = self.positions();
        if index < ps.len() {
            Some(ps[index])
        } else {
            None
        }
    }

    /// The channel that feeds `position`: its index in
    /// [`ChannelMask::positions`], `None` when the mask does not name it.
    pub fn channel_for_position(self, position: SpeakerPosition) -> (r: Option<usize>)
        ensures
            r is None <==> !mask_positions(self@).contains(position),
            r is None <==> (self@ & speaker_bit(position) == 0 || position
                == SpeakerPosition::All),
            forall|i: usize|
                r == Some(i) <==> (i < mask_positions(self@).len() && #[trigger] mask_positions(
                    self@,
                )[i as int] == position),
    {
        proof {
            lemma_prefix_elements(self@, 18);
            lemma_mask_positions_contains(self@, position);
            lemma_mask_positions_distinct(self@);
        }
        if self.raw & position.bit() == 0 {
            return None;
        }
        let std = SpeakerPosition::STANDARD;
        assert(std@ =~= standard_positions());
        let mut count: usize = 0;
        let mut k: usize = 0;
        while k < 18
            invariant
                k <= 18,
                std@ == standard_positions(),
                count == positions_prefix(self@, k as nat).len(),
                count <= k,
                self@ & speaker_bit(position) != 0,
                !positions_prefix(self@, k as nat).contains(position),
            decreases 18 - k,
        {
            let p = std[k];
            proof {
                lemma_prefix_elements(self@, k as nat);
                lemma_standard_index(k as int);
            }
            if p.bit() == position.bit() {
                proof {
                    lemma_from_bit_of_bit(p);
                    lemma_from_bit_of_bit(position);
                    lemma_prefix_grows(self@, (k + 1) as nat, 18);
                    let pre = positions_prefix(self@, (k + 1) as nat);
                    assert(p == position);
                    assert(pre == positions_prefix(self@, k as nat).push(p));
                    assert(pre[count as int] == position);
                    assert(mask_positions(self@).subrange(0, pre.len() as int)[count as int]
                        == position);
                    let mp = mask_positions(self@);
                    assert(mp[count as int] == position);
                    assert forall|i: usize|
                        i < mp.len() && #[trigger] mp[i as int] == position implies i == count by {
                        lemma_channel_position_bidirectional(self@, count as int, i as int);
                    }
                }
                return Some(count);
            }
            proof {
                lemma_from_bit_of_bit(p);
                lemma_from_bit_of_bit(position);
                let pre = positions_prefix(self@, k as nat);
                if self@ & speaker_bit(p) != 0 {
                    assert(pre.push(p).contains(position) ==> pre.contains(position));
                }
            }
            if self.raw & p.bit() != 0 {
                count += 1;
            }
            k += 1;
        }
        None
    }

    /// `true` when the mask names `position`.
    pub fn contains(self, position: SpeakerPosition) -> (r: bool)
        ensures
            r == (self@ & speaker_bit(position) != 0),
    {
        self.raw & position.bit() != 0
    }

    /// The standard layout whose mask this exactly is.
    pub fn standard_layout(self) -> (r: Option<StandardLayout>)
        ensures
            r == layout_of_mask(self@),
    {
        StandardLayout::from_mask(self.raw)
    }

    /// The lenient read-side check: an empty or `SPEAKER_ALL` mask makes
    /// no claim; otherwise the named-position count must be `channels`.
    pub fn is_consistent_with_channels(self, channels: u16) -> (r: bool)
        ensures
            r == (self@ == 0 || self@ & SPEAKER_ALL != 0 || popcount(
                (self@ & SPEAKER_STANDARD_MASK) as nat,
            ) == channels),
    {
        if self.is_empty() || self.is_all() {
            return true;
        }
        self.channel_count() == channels as u32
    }

    /// The mask naming every position of `positions`.
    pub fn from_positions(positions: &[SpeakerPosition]) -> (r: Self)
        ensures
            r@ == or_bits(positions@),
    {
        let mut raw: u32 = 0;
        let mut i: usize = 0;
        while i < positions.len()
            invariant
                i <= positions@.len(),
                raw == or_bits(positions@.subrange(0, i as int)),
            decreases positions@.len() - i,
        {
            proof {
                assert(positions@.subrange(0, i + 1).drop_last() =~= positions@.subrange(0, i as int));
            }
            raw = raw | positions[i].bit();
            i += 1;
        }
        assert(positions@.subrange(0, positions@.len() as int) =~= positions@);
        ChannelMask { raw }
    }

    /// The strict authoring check: no reserved bit, not empty, not
    /// `SPEAKER_ALL`, and exactly `channels` named positions.
    pub fn validate_for_channels(self, channels: u16) -> (r: Result<()>)
        ensures
            r is Ok <==> (self@ & SPEAKER_RESERVED_MASK == 0 && self@ != 0 && self@ & SPEAKER_ALL
                == 0 && popcount((self@ & SPEAKER_STANDARD_MASK) as nat) == channels),
    {
        if self.has_reserved_bits() {
            return Err(Error::invalid("dwChannelMask: reserved bits (18..=30) set"));
        }
        if self.is_empty() {
            return Err(Error::invalid("dwChannelMask: empty mask names no channel positions"));
        }
        if self.is_all() {
            return Err(Error::invalid("dwChannelMask: SPEAKER_ALL names no discrete positions"));
        }
        if self.channel_count() != channels as u32 {
            return Err(Error::invalid("dwChannelMask: named-position count != nChannels"));
        }
        Ok(())
    }
}

impl From<u32> for ChannelMask {
    fn from(raw: u32) -> (r: Self) {
        ChannelMask::new(raw)
    }
}

impl vstd::std_specs::convert::FromSpecImpl<u32> for ChannelMask {
    open spec fn obeys_from_spec() -> bool {
        true
    }

    closed spec fn from_spec(v: u32) -> Self {
        ChannelMask { raw: v }
    }
}

} // verus!
