//! The `smpl` (sampler) chunk.
//!
//! ```text
//! Manufacturer Product SamplePeriod MIDIUnityNote MIDIPitchFraction
//! SMPTEFormat SMPTEOffset NumSampleLoops SamplerDataLen   (nine u32 LE)
//! <sample-loop>[NumSampleLoops]                           (24 bytes each)
//! SamplerData[SamplerDataLen]                             (opaque)
//! ```
//!
//! Loop records are kept as verbatim 24-byte blocks.
use vstd::prelude::*;

use crate::error::{Error, Result};
use crate::le::{copy_range, le_u32, lemma_u32_bytes_of_le, lemma_u32_roundtrip, push_slice, push_u32, read_u32, u32_bytes};
use crate::records::{concat, lemma_concat_fixed, lemma_concat_push, lemma_concat_slices, lemma_join, lemma_sub, all_len};

verus! {

/// FourCC of the sampler chunk (`smpl`).
pub const FOURCC_SMPL: [u8; 4] = [0x73, 0x6D, 0x70, 0x6C];

/// Size of the fixed header (nine `u32` fields).
pub const SMPL_HEADER_LEN: usize = 36;

/// Size of one loop record.
pub const SAMPLE_LOOP_LEN: usize = 24;

/// `SMPTEFormat` meaning no SMPTE offset.
pub const SMPTE_FORMAT_NONE: u32 = 0;

/// One 24-byte loop record, verbatim.
#[derive(Clone, Debug, PartialEq, Eq)]
pub struct SampleLoop {
    /// The record bytes.
    pub raw: [u8; 24],
}

impl SampleLoop {
    fn from_slice(b: &[u8], off: usize) -> (r: Self)
        requires
            off + 24 <= b@.len(),
        ensures
            r.raw@ == b@.subrange(off as int, off + 24),
    {
        let r = SampleLoop { raw: [b[off], b[off + 1], b[off + 2], b[off + 3], b[off + 4], b[off + 5], b[off + 6], b[off + 7], b[off + 8], b[off + 9], b[off + 10], b[off + 11], b[off + 12], b[off + 13], b[off + 14], b[off + 15], b[off + 16], b[off + 17], b[off + 18], b[off + 19], b[off + 20], b[off + 21], b[off + 22], b[off + 23]] };
        assert(r.raw@ =~= b@.subrange(off as int, off + 24));
        r
    }

    /// The record's 24 wire bytes.
    pub fn encode(&self) -> (r: [u8; 24])
        ensures
            r == self.raw,
    {
        self.raw
    }
}

/// The content of an `smpl` chunk.
pub struct SmplModel {
    pub manufacturer: u32,
    pub product: u32,
    pub sample_period: u32,
    pub midi_unity_note: u32,
    pub midi_pitch_fraction: u32,
    pub smpte_format: u32,
    pub smpte_offset: u32,
    pub num_sample_loops: u32,
    pub sampler_data_len: u32,
    pub loops: Seq<Seq<u8>>,
    pub sampler_data: Seq<u8>,
}

/// A decoded `smpl` chunk.
#[derive(Clone, Debug, PartialEq, Eq)]
pub struct Smpl {
    /// MMA manufacturer code (`0` = unspecified).
    pub manufacturer: u32,
    /// Manufacturer's product code.
    pub product: u32,
    /// Duration of one sample in nanoseconds.
    pub sample_period: u32,
    /// MIDI note the sample plays at its recorded pitch.
    pub midi_unity_note: u32,
    /// Fraction of a semitone above the unity note.
    pub midi_pitch_fraction: u32,
    /// SMPTE frame rate of the offset (`0` none).
    pub smpte_format: u32,
    /// SMPTE offset packed `HH:MM:SS:FF`, most significant first.
    pub smpte_offset: u32,
    /// `NumSampleLoops` as read.
    pub num_sample_loops: u32,
    /// `SamplerDataLen` as read.
    pub sampler_data_len: u32,
    /// The loop records.
    pub loops: Vec<SampleLoop>,
    /// The opaque sampler-data trailer.
    pub sampler_data: Vec<u8>,
}

impl View for Smpl {
    type V = SmplModel;

    open spec fn view(&self) -> SmplModel {
        SmplModel {
            manufacturer: self.manufacturer,
            product: self.product,
            sample_period: self.sample_period,
            midi_unity_note: self.midi_unity_note,
            midi_pitch_fraction: self.midi_pitch_fraction,
            smpte_format: self.smpte_format,
            smpte_offset: self.smpte_offset,
            num_sample_loops: self.num_sample_loops,
            sampler_data_len: self.sampler_data_len,
            loops: self.loops@.map_values(|l: SampleLoop| l.raw@),
            sampler_data: self.sampler_data@,
        }
    }
}

impl Default for Smpl {
    fn default() -> (r: Self)
        ensures
            r@ == (SmplModel {
                manufacturer: 0,
                product: 0,
                sample_period: 0,
                midi_unity_note: 0,
                midi_pitch_fraction: 0,
                smpte_format: 0,
                smpte_offset: 0,
                num_sample_loops: 0,
                sampler_data_len: 0,
                loops: Seq::empty(),
                sampler_data: Seq::empty(),
            }),
    {
        let r = Smpl {
            manufacturer: 0,
            product: 0,
            sample_period: 0,
            midi_unity_note: 0,
            midi_pitch_fraction: 0,
            smpte_format: 0,
            smpte_offset: 0,
            num_sample_loops: 0,
            sampler_data_len: 0,
            loops: Vec::new(),
            sampler_data: Vec::new(),
        };
        assert(r@.loops =~= Seq::<Seq<u8>>::empty());
        assert(r@.sampler_data =~= Seq::<u8>::empty());
        r
    }
}

/// `true` if `b` is an `smpl` body that [`Smpl::parse`] accepts: the
/// 36-byte header, then exactly the declared loop records and trailer.
pub open spec fn smpl_parse_ok(b: Seq<u8>) -> bool {
    b.len() >= 36 && b.len() == 36 + 24 * le_u32(b, 28) + le_u32(b, 32)
}

/// The content of an `smpl` body that [`Smpl::parse`] accepts.
pub open spec fn smpl_model_of(b: Seq<u8>) -> SmplModel {
    let n = le_u32(b, 28);
    SmplModel {
        manufacturer: le_u32(b, 0),
        product: le_u32(b, 4),
        sample_period: le_u32(b, 8),
        midi_unity_note: le_u32(b, 12),
        midi_pitch_fraction: le_u32(b, 16),
        smpte_format: le_u32(b, 20),
        smpte_offset: le_u32(b, 24),
        num_sample_loops: n,
        sampler_data_len: le_u32(b, 32),
        loops: Seq::new(n as nat, |i: int| b.subrange(36 + 24 * i, 36 + 24 * i + 24)),
        sampler_data: b.subrange(36 + 24 * n, b.len() as int),
    }
}

/// The nine header fields of an `smpl` body, counts taken from the
/// loop table and trailer themselves.
pub open spec fn smpl_header_bytes(m: SmplModel) -> Seq<u8> {
    u32_bytes(m.manufacturer) + u32_bytes(m.product) + u32_bytes(m.sample_period) + u32_bytes(
        m.midi_unity_note,
    ) + u32_bytes(m.midi_pitch_fraction) + u32_bytes(m.smpte_format) + u32_bytes(m.smpte_offset)
        + u32_bytes(m.loops.len() as u32) + u32_bytes(m.sampler_data.len() as u32)
}

/// The wire bytes of an `smpl` body: the counts are those of the loop
/// table and trailer, not the stored count fields.
pub open spec fn smpl_bytes(m: SmplModel) -> Seq<u8> {
    smpl_header_bytes(m) + concat(m.loops) + m.sampler_data
}

impl Smpl {
    /// Decode an `smpl` body; see [`smpl_parse_ok`] for when it fails.
    pub fn parse(body: &[u8]) -> (r: Result<Self>)
        ensures
            r is Ok <==> smpl_parse_ok(body@),
            r matches Ok(s) ==> s@ == smpl_model_of(body@),
    {
        let blen = body.len();
        if blen < SMPL_HEADER_LEN {
            return Err(Error::invalid("RIFF: smpl chunk shorter than 36-byte fixed header"));
        }
        let manufacturer = read_u32(body, 0);
        let product = read_u32(body, 4);
        let sample_period = read_u32(body, 8);
        let midi_unity_note = read_u32(body, 12);
        let midi_pitch_fraction = read_u32(body, 16);
        let smpte_format = read_u32(body, 20);
        let smpte_offset = read_u32(body, 24);
        let num_sample_loops = read_u32(body, 28);
        let sampler_data_len = read_u32(body, 32);
        let rest = blen - 36;
        if rest < sampler_data_len as usize || (rest - sampler_data_len as usize) % 24 != 0 || (
        rest - sampler_data_len as usize) / 24 != num_sample_loops as usize {
            return Err(
                Error::invalid("RIFF: smpl body length disagrees with NumSampleLoops / SamplerDataLen"),
            );
        }
        let ghost b = body@;
        let mut loops: Vec<SampleLoop> = Vec::new();
        let mut i: usize = 0;
        while i < num_sample_loops as usize
            invariant
                b == body@,
                blen == b.len(),
                blen == 36 + 24 * num_sample_loops + sampler_data_len,
                i <= num_sample_loops,
                loops@.len() == i,
                forall|j: int|
                    0 <= j < i ==> (#[trigger] loops@[j]).raw@ == b.subrange(36 + 24 * j, 36 + 24 * j + 24),
            decreases num_sample_loops - i,
        {
            loops.push(SampleLoop::from_slice(body, 36 + 24 * i));
            i += 1;
        }
        let trailer = 36 + 24 * num_sample_loops as usize;
        let sampler_data = copy_range(body, trailer, blen);
        let s = Smpl {
            manufacturer,
            product,
            sample_period,
            midi_unity_note,
            midi_pitch_fraction,
            smpte_format,
            smpte_offset,
            num_sample_loops,
            sampler_data_len,
            loops,
            sampler_data,
        };
        assert(s@.loops =~= smpl_model_of(b).loops);
        Ok(s)
    }

    /// `true` when no SMPTE offset is given.
    pub fn smpte_none(&self) -> (r: bool)
        ensures
            r == (self.smpte_format == SMPTE_FORMAT_NONE),
    {
        self.smpte_format == SMPTE_FORMAT_NONE
    }

    /// The SMPTE offset's four bytes, most significant first
    /// (hours, minutes, seconds, frames).
    pub fn smpte_offset_parts(&self) -> (r: (u8, u8, u8, u8))
        ensures
            r == ((self.smpte_offset / 16777216) as u8, ((self.smpte_offset / 65536) % 256) as u8, (
            (self.smpte_offset / 256) % 256) as u8, (self.smpte_offset % 256) as u8),
    {
        let v = self.smpte_offset;
        ((v / 16777216) as u8, ((v / 65536) % 256) as u8, ((v / 256) % 256) as u8, (v % 256) as u8)
    }

    /// `true` when the sampler-data trailer is non-empty.
    pub fn has_sampler_data(&self) -> (r: bool)
        ensures
            r == (self@.sampler_data.len() > 0),
    {
        self.sampler_data.len() > 0
    }

    /// The wire bytes of this `smpl` body; the loop count and trailer
    /// length written are those of `loops` and `sampler_data`.
    pub fn encode_body(&self) -> (r: Vec<u8>)
        ensures
            r@ == smpl_bytes(self@),
    {
        let mut out: Vec<u8> = Vec::new();
        push_u32(&mut out, self.manufacturer);
        push_u32(&mut out, self.product);
        push_u32(&mut out, self.sample_period);
        push_u32(&mut out, self.midi_unity_note);
        push_u32(&mut out, self.midi_pitch_fraction);
        push_u32(&mut out, self.smpte_format);
        push_u32(&mut out, self.smpte_offset);
        push_u32(&mut out, self.loops.len() as u32);
        push_u32(&mut out, self.sampler_data.len() as u32);
        assert(out@ =~= smpl_header_bytes(self@));
        let ghost prefix = out@;
        let mut i: usize = 0;
        while i < self.loops.len()
            invariant
                i <= self.loops@.len(),
                out@ == prefix + concat(self@.loops.subrange(0, i as int)),
            decreases self.loops@.len() - i,
        {
            let raw = self.loops[i].encode();
            push_slice(&mut out, &raw);
            proof {
                let t0 = self@.loops.subrange(0, i as int);
                assert(self@.loops.subrange(0, i + 1) =~= t0.push(raw@));
                lemma_concat_push(t0, raw@);
            }
            i += 1;
        }
        assert(self@.loops.subrange(0, self@.loops.len() as int) =~= self@.loops);
        push_slice(&mut out, self.sampler_data.as_slice());
        out
    }
}

#[verifier::spinoff_prover]
proof fn lemma_smpl_header_roundtrip(b: Seq<u8>, m: SmplModel)
    requires
        b.len() >= 36,
        b.subrange(0, 36) == smpl_header_bytes(m),
    ensures
        le_u32(b, 0) == m.manufacturer,
        le_u32(b, 4) == m.product,
        le_u32(b, 8) == m.sample_period,
        le_u32(b, 12) == m.midi_unity_note,
        le_u32(b, 16) == m.midi_pitch_fraction,
        le_u32(b, 20) == m.smpte_format,
        le_u32(b, 24) == m.smpte_offset,
        le_u32(b, 28) == m.loops.len() as u32,
        le_u32(b, 32) == m.sampler_data.len() as u32,
{
    let h = smpl_header_bytes(m);
    assert(h.subrange(0, 4) =~= u32_bytes(m.manufacturer));
    lemma_sub(b, 0, 36, h, 0, 4);
    lemma_u32_roundtrip(b, 0, m.manufacturer);
    assert(h.subrange(4, 8) =~= u32_bytes(m.product));
    lemma_sub(b, 0, 36, h, 4, 8);
    lemma_u32_roundtrip(b, 4, m.product);
    assert(h.subrange(8, 12) =~= u32_bytes(m.sample_period));
    lemma_sub(b, 0, 36, h, 8, 12);
    lemma_u32_roundtrip(b, 8, m.sample_period);
    assert(h.subrange(12, 16) =~= u32_bytes(m.midi_unity_note));
    lemma_sub(b, 0, 36, h, 12, 16);
    lemma_u32_roundtrip(b, 12, m.midi_unity_note);
    assert(h.subrange(16, 20) =~= u32_bytes(m.midi_pitch_fraction));
    lemma_sub(b, 0, 36, h, 16, 20);
    lemma_u32_roundtrip(b, 16, m.midi_pitch_fraction);
    assert(h.subrange(20, 24) =~= u32_bytes(m.smpte_format));
    lemma_sub(b, 0, 36, h, 20, 24);
    lemma_u32_roundtrip(b, 20, m.smpte_format);
    assert(h.subrange(24, 28) =~= u32_bytes(m.smpte_offset));
    lemma_sub(b, 0, 36, h, 24, 28);
    lemma_u32_roundtrip(b, 24, m.smpte_offset);
    assert(h.subrange(28, 32) =~= u32_bytes(m.loops.len() as u32));
    lemma_sub(b, 0, 36, h, 28, 32);
    lemma_u32_roundtrip(b, 28, m.loops.len() as u32);
    assert(h.subrange(32, 36) =~= u32_bytes(m.sampler_data.len() as u32));
    lemma_sub(b, 0, 36, h, 32, 36);
    lemma_u32_roundtrip(b, 32, m.sampler_data.len() as u32);
}

/// Encoding an `smpl` value and decoding the bytes gives the value
/// back, with the two count fields replaced by the actual loop count and
/// trailer length, provided every loop record is 24 bytes and both
/// counts fit 32 bits.
#[verifier::spinoff_prover]
#[verifier::rlimit(30)]
pub proof fn lemma_smpl_encode_parse(m: SmplModel)
    requires
        all_len(m.loops, 24),
        m.loops.len() <= u32::MAX,
        m.sampler_data.len() <= u32::MAX,
    ensures
        smpl_parse_ok(smpl_bytes(m)),
        smpl_model_of(smpl_bytes(m)) == (SmplModel {
            num_sample_loops: m.loops.len() as u32,
            sampler_data_len: m.sampler_data.len() as u32,
            ..m
        }),
{
    let b = smpl_bytes(m);
    let h = smpl_header_bytes(m);
    let n = m.loops.len() as int;
    lemma_concat_fixed(m.loops, 24);
    let lb = concat(m.loops);
    assert(b.subrange(0, 36) =~= h);
    lemma_smpl_header_roundtrip(b, m);
    assert(b.subrange(36, 36 + 24 * n) =~= lb);
    let md = smpl_model_of(b);
    assert forall|i: int| 0 <= i < n implies #[trigger] md.loops[i] == m.loops[i] by {
        lemma_sub(b, 36, 24 * n, lb, 24 * i, 24 * i + 24);
    }
    assert(md.loops =~= m.loops);
    assert(md.sampler_data =~= m.sampler_data);
}

/// Decoding an `smpl` body and encoding the result gives the body back.
#[verifier::spinoff_prover]
#[verifier::rlimit(40)]
pub proof fn lemma_smpl_parse_encode(b: Seq<u8>)
    requires
        smpl_parse_ok(b),
    ensures
        smpl_bytes(smpl_model_of(b)) == b,
{
    let m = smpl_model_of(b);
    let n = le_u32(b, 28) as int;
    lemma_u32_bytes_of_le(b, 0);
    lemma_u32_bytes_of_le(b, 4);
    lemma_u32_bytes_of_le(b, 8);
    lemma_u32_bytes_of_le(b, 12);
    lemma_u32_bytes_of_le(b, 16);
    lemma_u32_bytes_of_le(b, 20);
    lemma_u32_bytes_of_le(b, 24);
    lemma_u32_bytes_of_le(b, 28);
    lemma_u32_bytes_of_le(b, 32);
    assert(smpl_header_bytes(m) =~= b.subrange(0, 36));
    let c = b.subrange(0, 36 + 24 * n);
    assert forall|i: int| 0 <= i < m.loops.len() implies #[trigger] m.loops[i] == c.subrange(
        36 + 24 * i,
        36 + 24 * i + 24,
    ) by {
        assert(c.subrange(36 + 24 * i, 36 + 24 * i + 24) =~= b.subrange(36 + 24 * i, 36 + 24 * i + 24));
    }
    lemma_concat_slices(m.loops, c, 36, 24);
    assert(concat(m.loops) =~= b.subrange(36, 36 + 24 * n));
    lemma_join(b, 0, 36, 36 + 24 * n);
    lemma_join(b, 0, 36 + 24 * n, b.len() as int);
    assert(b.subrange(0, b.len() as int) =~= b);
}

} // verus!
