//! The `inst` instrument chunk: seven bytes mapping a sample onto a
//! keyboard and velocity range.
//!
//! ```text
//! bUnshiftedNote chFineTune chGain bLowNote bHighNote bLowVelocity bHighVelocity
//! ```
use vstd::prelude::*;

use crate::error::{Error, Result};

verus! {

/// FourCC of the instrument chunk (`inst`).
pub const FOURCC_INST: [u8; 4] = [0x69, 0x6E, 0x73, 0x74];

/// Size of an `inst` body.
pub const INST_LEN: usize = 7;

/// A decoded `inst` chunk.
#[derive(Clone, Debug, Default, PartialEq, Eq)]
pub struct Inst {
    /// MIDI note the sample plays at unshifted.
    pub unshifted_note: u8,
    /// Fine tune in cents, as its raw byte (signed).
    pub fine_tune_raw: u8,
    /// Gain in dB, as its raw byte (signed).
    pub gain_raw: u8,
    /// Lowest note of the key range.
    pub low_note: u8,
    /// Highest note of the key range.
    pub high_note: u8,
    /// Lowest velocity of the range.
    pub low_velocity: u8,
    /// Highest velocity of the range.
    pub high_velocity: u8,
}

impl Inst {
    /// Decode an `inst` body; it must be exactly 7 bytes.
    pub fn parse(body: &[u8]) -> (r: Result<Self>)
        ensures
            r is Ok <==> body@.len() == INST_LEN,
            r matches Ok(i) ==> i.encode_spec() == body@,
    {
        if body.len() != INST_LEN {
            return Err(Error::invalid("RIFF: inst chunk body is not exactly 7 bytes"));
        }
        let r = Inst {
            unshifted_note: body[0],
            fine_tune_raw: body[1],
            gain_raw: body[2],
            low_note: body[3],
            high_note: body[4],
            low_velocity: body[5],
            high_velocity: body[6],
        };
        assert(r.encode_spec() =~= body@);
        Ok(r)
    }

    /// The seven wire bytes.
    pub open spec fn encode_spec(&self) -> Seq<u8> {
        seq![
            self.unshifted_note,
            self.fine_tune_raw,
            self.gain_raw,
            self.low_note,
            self.high_note,
            self.low_velocity,
            self.high_velocity,
        ]
    }

    /// Fine tune in cents (two's complement).
    pub fn fine_tune(&self) -> (r: i8)
        ensures
            r == self.fine_tune_raw as i8,
    {
        self.fine_tune_raw as i8
    }

    /// Gain in dB (two's complement).
    pub fn gain(&self) -> (r: i8)
        ensures
            r == self.gain_raw as i8,
    {
        self.gain_raw as i8
    }

    /// `(low, high)` key range.
    pub fn note_range(&self) -> (r: (u8, u8))
        ensures
            r == (self.low_note, self.high_note),
    {
        (self.low_note, self.high_note)
    }

    /// `(low, high)` velocity range.
    pub fn velocity_range(&self) -> (r: (u8, u8))
        ensures
            r == (self.low_velocity, self.high_velocity),
    {
        (self.low_velocity, self.high_velocity)
    }

    /// `true` when `note` lies in the key range.
    pub fn covers_note(&self, note: u8) -> (r: bool)
        ensures
            r == (self.low_note <= note <= self.high_note),
    {
        self.low_note <= note && note <= self.high_note
    }

    /// `true` when `velocity` lies in the velocity range.
    pub fn covers_velocity(&self, velocity: u8) -> (r: bool)
        ensures
            r == (self.low_velocity <= velocity <= self.high_velocity),
    {
        self.low_velocity <= velocity && velocity <= self.high_velocity
    }

    /// The seven wire bytes; the exact inverse of [`Inst::parse`].
    pub fn encode_body(&self) -> (r: [u8; 7])
        ensures
            r@ == self.encode_spec(),
    {
        let r = [
            self.unshifted_note,
            self.fine_tune_raw,
            self.gain_raw,
            self.low_note,
            self.high_note,
            self.low_velocity,
            self.high_velocity,
        ];
        assert(r@ =~= self.encode_spec());
        r
    }
}

/// An `inst` record is determined by its seven wire bytes, so decoding
/// what [`Inst::encode_body`] writes gives the same record back.
#[verifier::spinoff_prover]
pub proof fn lemma_inst_encode_parse(a: Inst, b: Inst)
    requires
        a.encode_spec() == b.encode_spec(),
    ensures
        a == b,
        a.encode_spec().len() == INST_LEN,
{
    assert(a.encode_spec()[0] == b.encode_spec()[0]);
    assert(a.encode_spec()[1] == b.encode_spec()[1]);
    assert(a.encode_spec()[2] == b.encode_spec()[2]);
    assert(a.encode_spec()[3] == b.encode_spec()[3]);
    assert(a.encode_spec()[4] == b.encode_spec()[4]);
    assert(a.encode_spec()[5] == b.encode_spec()[5]);
    assert(a.encode_spec()[6] == b.encode_spec()[6]);
}

} // verus!
