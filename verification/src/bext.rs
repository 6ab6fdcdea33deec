//! The BWF `bext` (Broadcast Audio Extension) chunk.
//!
//! ```text
//! +0    Description           CHAR[256]   NUL-padded text
//! +256  Originator            CHAR[32]
//! +288  OriginatorReference   CHAR[32]
//! +320  OriginationDate       CHAR[10]    "yyyy-mm-dd"
//! +330  OriginationTime       CHAR[8]     "hh-mm-ss"
//! +338  TimeReference         u64         low word, high word
//! +346  Version               u16
//! +348  UMID                  BYTE[64]    (Version >= 1)
//! +412  five loudness values  i16 × 100   (Version >= 2)
//! +422  Reserved              BYTE[180]
//! +602  CodingHistory         CHAR[]
//! ```
use vstd::prelude::*;

use crate::error::{Error, Result};
use crate::le::{array_from, copy_range, le_i16, le_u16, le_u64, read_i16, read_u16, read_u64};
use crate::text::{before_nul, lossy_text, zstr_text};

verus! {

/// Size of the fixed prefix before `CodingHistory`.
pub const BEXT_PREFIX_LEN: usize = 602;

/// Width of `Description`.
pub const DESCRIPTION_LEN: usize = 256;

/// Width of `Originator`.
pub const ORIGINATOR_LEN: usize = 32;

/// Width of `OriginatorReference`.
pub const ORIGINATOR_REFERENCE_LEN: usize = 32;

/// Width of `OriginationDate`.
pub const ORIGINATION_DATE_LEN: usize = 10;

/// Width of `OriginationTime`.
pub const ORIGINATION_TIME_LEN: usize = 8;

/// Width of the UMID.
pub const UMID_LEN: usize = 64;

/// Width of the reserved area.
pub const RESERVED_LEN: usize = 180;

/// The five Version-2 loudness measurements, each the value × 100.
#[derive(Clone, Copy, Debug, PartialEq, Eq)]
pub struct Loudness {
    /// Integrated loudness, LUFS × 100.
    pub value_x100: i16,
    /// Loudness range, LU × 100.
    pub range_x100: i16,
    /// Maximum true peak, dBTP × 100.
    pub max_true_peak_x100: i16,
    /// Maximum momentary loudness, LUFS × 100.
    pub max_momentary_x100: i16,
    /// Maximum short-term loudness, LUFS × 100.
    pub max_short_term_x100: i16,
}

/// A decoded `bext` chunk.
#[derive(Clone, Debug, PartialEq, Eq)]
pub struct BroadcastExtension {
    /// `Description`, NUL-padded.
    pub description: [u8; 256],
    /// `Originator`, NUL-padded.
    pub originator: [u8; 32],
    /// `OriginatorReference`, NUL-padded.
    pub originator_reference: [u8; 32],
    /// `OriginationDate`.
    pub origination_date: [u8; 10],
    /// `OriginationTime`.
    pub origination_time: [u8; 8],
    /// Sample count since midnight of the first sample.
    pub time_reference: u64,
    /// BWF version.
    pub version: u16,
    /// The UMID bytes, whatever the version.
    pub umid_bytes: [u8; 64],
    /// `LoudnessValue`.
    pub loudness_value_x100: i16,
    /// `LoudnessRange`.
    pub loudness_range_x100: i16,
    /// `MaxTruePeakLevel`.
    pub max_true_peak_x100: i16,
    /// `MaxMomentaryLoudness`.
    pub max_momentary_x100: i16,
    /// `MaxShortTermLoudness`.
    pub max_short_term_x100: i16,
    /// `CodingHistory`, verbatim.
    pub coding_history: Vec<u8>,
}

/// The decoded content of a `bext` body of at least 602 bytes.
pub open spec fn bext_fields_of(b: Seq<u8>, x: BroadcastExtension) -> bool {
    &&& x.description@ == b.subrange(0, 256)
    &&& x.originator@ == b.subrange(256, 288)
    &&& x.originator_reference@ == b.subrange(288, 320)
    &&& x.origination_date@ == b.subrange(320, 330)
    &&& x.origination_time@ == b.subrange(330, 338)
    &&& x.time_reference == le_u64(b, 338)
    &&& x.version == le_u16(b, 346)
    &&& x.umid_bytes@ == b.subrange(348, 412)
    &&& x.loudness_value_x100 == le_i16(b, 412)
    &&& x.loudness_range_x100 == le_i16(b, 414)
    &&& x.max_true_peak_x100 == le_i16(b, 416)
    &&& x.max_momentary_x100 == le_i16(b, 418)
    &&& x.max_short_term_x100 == le_i16(b, 420)
    &&& x.coding_history@ == b.subrange(602, b.len() as int)
}

impl BroadcastExtension {
    /// Decode a `bext` body; it must hold the 602-byte prefix.
    pub fn parse(body: &[u8]) -> (r: Result<Self>)
        ensures
            r is Ok <==> body@.len() >= BEXT_PREFIX_LEN,
            r matches Ok(x) ==> bext_fields_of(body@, x),
    {
        if body.len() < BEXT_PREFIX_LEN {
            return Err(Error::invalid("RIFF: bext chunk too short (need at least 602 bytes)"));
        }
        Ok(
            BroadcastExtension {
                description: array_from(body, 0),
                originator: array_from(body, 256),
                originator_reference: array_from(body, 288),
                origination_date: array_from(body, 320),
                origination_time: array_from(body, 330),
                time_reference: read_u64(body, 338),
                version: read_u16(body, 346),
                umid_bytes: array_from(body, 348),
                loudness_value_x100: read_i16(body, 412),
                loudness_range_x100: read_i16(body, 414),
                max_true_peak_x100: read_i16(body, 416),
                max_momentary_x100: read_i16(body, 418),
                max_short_term_x100: read_i16(body, 420),
                coding_history: copy_range(body, BEXT_PREFIX_LEN, body.len()),
            },
        )
    }

    /// `Description` up to its first NUL, as text.
    pub fn description(&self) -> (s: String)
        ensures
            s@ == lossy_text(before_nul(self.description@)),
    {
        zstr_text(&self.description)
    }

    /// `Originator` up to its first NUL, as text.
    pub fn originator(&self) -> (s: String)
        ensures
            s@ == lossy_text(before_nul(self.originator@)),
    {
        zstr_text(&self.originator)
    }

    /// `OriginatorReference` up to its first NUL, as text.
    pub fn originator_reference(&self) -> (s: String)
        ensures
            s@ == lossy_text(before_nul(self.originator_reference@)),
    {
        zstr_text(&self.originator_reference)
    }

    /// `OriginationDate` up to its first NUL, as text.
    pub fn origination_date(&self) -> (s: String)
        ensures
            s@ == lossy_text(before_nul(self.origination_date@)),
    {
        zstr_text(&self.origination_date)
    }

    /// `OriginationTime` up to its first NUL, as text.
    pub fn origination_time(&self) -> (s: String)
        ensures
            s@ == lossy_text(before_nul(self.origination_time@)),
    {
        zstr_text(&self.origination_time)
    }

    /// The UMID, from Version 1 on.
    pub fn umid(&self) -> (r: Option<&[u8; 64]>)
        ensures
            r is Some <==> self.version >= 1,
            r matches Some(u) ==> *u == self.umid_bytes,
    {
        if self.version >= 1 {
            Some(&self.umid_bytes)
        } else {
            None
        }
    }

    /// The loudness measurements, from Version 2 on.
    pub fn loudness(&self) -> (r: Option<Loudness>)
        ensures
            r == (if self.version >= 2 {
                Some(
                    Loudness {
                        value_x100: self.loudness_value_x100,
                        range_x100: self.loudness_range_x100,
                        max_true_peak_x100: self.max_true_peak_x100,
                        max_momentary_x100: self.max_momentary_x100,
                        max_short_term_x100: self.max_short_term_x100,
                    },
                )
            } else {
                None
            }),
    {
        if self.version >= 2 {
            Some(
                Loudness {
                    value_x100: self.loudness_value_x100,
                    range_x100: self.loudness_range_x100,
                    max_true_peak_x100: self.max_true_peak_x100,
                    max_momentary_x100: self.max_momentary_x100,
                    max_short_term_x100: self.max_short_term_x100,
                },
            )
        } else {
            None
        }
    }

    /// `CodingHistory` up to its first NUL, as text.
    pub fn coding_history(&self) -> (s: String)
        ensures
            s@ == lossy_text(before_nul(self.coding_history@)),
    {
        zstr_text(self.coding_history.as_slice())
    }
}

} // verus!
