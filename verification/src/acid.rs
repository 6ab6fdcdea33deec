//! The ACID loop-metadata `acid` chunk (24 bytes).
//!
//! ```text
//! +0  flags          : u32     one-shot / root-note-set / stretch /
//!                              disk-based / high-octave bits
//! +4  root_note      : u16     MIDI root note (meaningful with the flag)
//! +6  unknown1       : u16
//! +8  unknown2       : f32
//! +12 num_beats      : u32
//! +16 meter_denominator : u16
//! +18 meter_numerator   : u16
//! +20 tempo          : f32     beats per minute
//! ```
//!
//! The two floating-point fields are kept as their raw IEEE-754 bit
//! patterns; their numeric values are the caller's to interpret.
use vstd::prelude::*;

use crate::error::{Error, Result};
use crate::le::{le_u16, le_u32, read_u16, read_u32};

verus! {

/// FourCC of the ACID chunk (`acid`).
pub const FOURCC_ACID: [u8; 4] = [0x61, 0x63, 0x69, 0x64];

/// Size of an `acid` body.
pub const ACID_LEN: usize = 24;

/// Flag: the file is a one-shot (otherwise a loop).
pub const FLAG_ONE_SHOT: u32 = 0x01;

/// Flag: the root note is set.
pub const FLAG_ROOT_NOTE_SET: u32 = 0x02;

/// Flag: time stretching is enabled.
pub const FLAG_STRETCH: u32 = 0x04;

/// Flag: the file is disk-based.
pub const FLAG_DISK_BASED: u32 = 0x08;

/// Flag: the high-octave option is set.
pub const FLAG_HIGH_OCTAVE: u32 = 0x10;

/// A decoded `acid` chunk.
#[derive(Clone, Debug, Default, PartialEq, Eq)]
pub struct Acid {
    /// Flag bits.
    pub flags: u32,
    /// MIDI root note.
    pub root_note: u16,
    /// Unknown field, verbatim.
    pub unknown1: u16,
    /// Bit pattern of the second unknown (an `f32`).
    pub unknown2_bits: u32,
    /// Number of beats.
    pub num_beats: u32,
    /// Meter denominator.
    pub meter_denominator: u16,
    /// Meter numerator.
    pub meter_numerator: u16,
    /// Bit pattern of the tempo (an `f32`, beats per minute).
    pub tempo_bits: u32,
}

/// The fields of the `acid` body `b`.
pub open spec fn acid_of(b: Seq<u8>) -> Acid {
    Acid {
        flags: le_u32(b, 0),
        root_note: le_u16(b, 4),
        unknown1: le_u16(b, 6),
        unknown2_bits: le_u32(b, 8),
        num_beats: le_u32(b, 12),
        meter_denominator: le_u16(b, 16),
        meter_numerator: le_u16(b, 18),
        tempo_bits: le_u32(b, 20),
    }
}

impl Acid {
    /// Decode an `acid` body; it must be exactly 24 bytes.
    pub fn parse(body: &[u8]) -> (r: Result<Self>)
        ensures
            r is Ok <==> body@.len() == ACID_LEN,
            r matches Ok(a) ==> a == acid_of(body@),
    {
        if body.len() != ACID_LEN {
            return Err(Error::invalid("RIFF: acid chunk body is not exactly 24 bytes"));
        }
        Ok(
            Acid {
                flags: read_u32(body, 0),
                root_note: read_u16(body, 4),
                unknown1: read_u16(body, 6),
                unknown2_bits: read_u32(body, 8),
                num_beats: read_u32(body, 12),
                meter_denominator: read_u16(body, 16),
                meter_numerator: read_u16(body, 18),
                tempo_bits: read_u32(body, 20),
            },
        )
    }

    /// `true` for a one-shot.
    pub fn is_one_shot(&self) -> (r: bool)
        ensures
            r == (self.flags & FLAG_ONE_SHOT != 0),
    {
        self.flags & FLAG_ONE_SHOT != 0
    }

    /// `true` for a loop (not a one-shot).
    pub fn is_loop(&self) -> (r: bool)
        ensures
            r == (self.flags & FLAG_ONE_SHOT == 0),
    {
        !self.is_one_shot()
    }

    /// `true` when the root note is set.
    pub fn root_note_set(&self) -> (r: bool)
        ensures
            r == (self.flags & FLAG_ROOT_NOTE_SET != 0),
    {
        self.flags & FLAG_ROOT_NOTE_SET != 0
    }

    /// `true` when stretching is enabled.
    pub fn stretch_enabled(&self) -> (r: bool)
        ensures
            r == (self.flags & FLAG_STRETCH != 0),
    {
        self.flags & FLAG_STRETCH != 0
    }

    /// `true` for a disk-based file.
    pub fn disk_based(&self) -> (r: bool)
        ensures
            r == (self.flags & FLAG_DISK_BASED != 0),
    {
        self.flags & FLAG_DISK_BASED != 0
    }

    /// `true` when the high-octave option is set.
    pub fn high_octave(&self) -> (r: bool)
        ensures
            r == (self.flags & FLAG_HIGH_OCTAVE != 0),
    {
        self.flags & FLAG_HIGH_OCTAVE != 0
    }

    /// The root note, when its flag is set.
    pub fn root_note(&self) -> (r: Option<u16>)
        ensures
            r == (if self.flags & FLAG_ROOT_NOTE_SET != 0 {
                Some(self.root_note)
            } else {
                None
            }),
    {
        if self.root_note_set() {
            Some(self.root_note)
        } else {
            None
        }
    }
}

} // verus!
