//! The `cue ` cue-point chunk.
//!
//! ```text
//! dwCuePoints : u32
//! <cue-point>[dwCuePoints] : 24 bytes each
//!   dwName dwPosition fccChunk dwChunkStart dwBlockStart dwSampleOffset
//! ```
use vstd::prelude::*;

use crate::chunk::fourcc_eq;
use crate::error::{Error, Result};
use crate::le::{le_u32, read_u32};

verus! {

/// FourCC of the cue-point chunk (`cue `).
pub const FOURCC_CUE: [u8; 4] = [0x63, 0x75, 0x65, 0x20];

/// Size of one cue-point record.
pub const CUE_POINT_LEN: usize = 24;

const FOURCC_DATA: [u8; 4] = [0x64, 0x61, 0x74, 0x61];

const FOURCC_SLNT: [u8; 4] = [0x73, 0x6C, 0x6E, 0x74];

/// One cue point.
#[derive(Clone, Copy, Debug, PartialEq, Eq, Hash)]
pub struct CuePoint {
    /// Unique identifier of the cue point.
    pub name: u32,
    /// Sample position in play order.
    pub position: u32,
    /// FourCC of the chunk holding the cue point (`data` or `slnt`).
    pub fcc_chunk: [u8; 4],
    /// Offset of that chunk.
    pub chunk_start: u32,
    /// Offset of the block holding the sample.
    pub block_start: u32,
    /// Sample offset within the block.
    pub sample_offset: u32,
}

/// The cue point stored at `b[off..off + 24]`.
pub open spec fn cue_point_at(b: Seq<u8>, off: int) -> CuePoint {
    CuePoint {
        name: le_u32(b, off),
        position: le_u32(b, off + 4),
        fcc_chunk: [b[off + 8], b[off + 9], b[off + 10], b[off + 11]],
        chunk_start: le_u32(b, off + 12),
        block_start: le_u32(b, off + 16),
        sample_offset: le_u32(b, off + 20),
    }
}

fn read_cue_point(b: &[u8], off: usize) -> (p: CuePoint)
    requires
        off + 24 <= b@.len(),
    ensures
        p == cue_point_at(b@, off as int),
{
    let blen = b.len();
    assert(off + 24 <= blen);
    CuePoint {
        name: read_u32(b, off),
        position: read_u32(b, off + 4),
        fcc_chunk: [b[off + 8], b[off + 9], b[off + 10], b[off + 11]],
        chunk_start: read_u32(b, off + 12),
        block_start: read_u32(b, off + 16),
        sample_offset: read_u32(b, off + 20),
    }
}

impl CuePoint {
    /// Decode one 24-byte record; any other length is an error.
    pub fn parse(raw: &[u8]) -> (r: Result<Self>)
        ensures
            r is Ok <==> raw@.len() == CUE_POINT_LEN,
            r matches Ok(p) ==> p == cue_point_at(raw@, 0),
    {
        if raw.len() != CUE_POINT_LEN {
            return Err(Error::invalid("RIFF: cue-point record is not 24 bytes"));
        }
        Ok(read_cue_point(raw, 0))
    }

    /// `true` when the cue point lies in a `data` chunk.
    pub fn is_data(&self) -> (r: bool)
        ensures
            r == (self.fcc_chunk@ == seq![0x64u8, 0x61u8, 0x74u8, 0x61u8]),
    {
        assert(FOURCC_DATA@ =~= seq![0x64u8, 0x61u8, 0x74u8, 0x61u8]);
        fourcc_eq(&self.fcc_chunk, &FOURCC_DATA)
    }

    /// `true` when the cue point lies in a `slnt` chunk.
    pub fn is_silent(&self) -> (r: bool)
        ensures
            r == (self.fcc_chunk@ == seq![0x73u8, 0x6Cu8, 0x6Eu8, 0x74u8]),
    {
        assert(FOURCC_SLNT@ =~= seq![0x73u8, 0x6Cu8, 0x6Eu8, 0x74u8]);
        fourcc_eq(&self.fcc_chunk, &FOURCC_SLNT)
    }
}

/// `true` if `b` is a `cue ` body that [`CueChunk::parse`] accepts: the
/// count, then exactly that many 24-byte records.
pub open spec fn cue_parse_ok(b: Seq<u8>) -> bool {
    b.len() >= 4 && b.len() == 4 + 24 * le_u32(b, 0)
}

/// The cue points of a `cue ` body that [`CueChunk::parse`] accepts.
pub open spec fn cue_points_of(b: Seq<u8>) -> Seq<CuePoint> {
    Seq::new(le_u32(b, 0) as nat, |i: int| cue_point_at(b, 4 + 24 * i))
}

/// The first cue point named `name`.
pub open spec fn first_cue_named(s: Seq<CuePoint>, name: u32) -> Option<CuePoint>
    decreases s.len(),
{
    if s.len() == 0 {
        None
    } else if s[0].name == name {
        Some(s[0])
    } else {
        first_cue_named(s.drop_first(), name)
    }
}

/// A decoded `cue ` chunk.
#[derive(Clone, Debug, PartialEq, Eq)]
pub struct CueChunk {
    points: Vec<CuePoint>,
}

impl View for CueChunk {
    type V = Seq<CuePoint>;

    closed spec fn view(&self) -> Seq<CuePoint> {
        self.points@
    }
}

impl Default for CueChunk {
    fn default() -> (r: Self)
        ensures
            r@ == Seq::<CuePoint>::empty(),
    {
        CueChunk::new()
    }
}

impl CueChunk {
    /// An empty cue list.
    pub fn new() -> (r: Self)
        ensures
            r@ == Seq::<CuePoint>::empty(),
    {
        let r = CueChunk { points: Vec::new() };
        assert(r@ =~= Seq::<CuePoint>::empty());
        r
    }

    /// Decode a `cue ` body; see [`cue_parse_ok`] for when it fails.
    pub fn parse(body: &[u8]) -> (r: Result<Self>)
        ensures
            r is Ok <==> cue_parse_ok(body@),
            r matches Ok(c) ==> c@ == cue_points_of(body@),
    {
        let blen = body.len();
        if blen < 4 {
            return Err(Error::invalid("RIFF: cue chunk shorter than 4-byte count"));
        }
        let count = read_u32(body, 0);
        let rest = blen - 4;
        if rest % CUE_POINT_LEN != 0 || rest / CUE_POINT_LEN != count as usize {
            return Err(Error::invalid("RIFF: cue chunk body length disagrees with dwCuePoints"));
        }
        let mut points: Vec<CuePoint> = Vec::new();
        let mut i: usize = 0;
        while i < count as usize
            invariant
                blen == body@.len(),
                blen == 4 + 24 * count,
                count == le_u32(body@, 0),
                i <= count,
                points@.len() == i,
                forall|j: int| 0 <= j < i ==> points@[j] == cue_point_at(body@, 4 + 24 * j),
            decreases count - i,
        {
            points.push(read_cue_point(body, 4 + 24 * i));
            i += 1;
        }
        let c = CueChunk { points };
        assert(c@ =~= cue_points_of(body@));
        Ok(c)
    }

    /// The cue points in wire order.
    pub fn points(&self) -> (r: &[CuePoint])
        ensures
            r@ == self@,
    {
        self.points.as_slice()
    }

    /// Number of cue points.
    pub fn len(&self) -> (r: usize)
        ensures
            r == self@.len(),
    {
        self.points.len()
    }

    /// `true` when there are no cue points.
    pub fn is_empty(&self) -> (r: bool)
        ensures
            r == (self@.len() == 0),
    {
        self.points.len() == 0
    }

    /// The first cue point named `name`.
    pub fn by_name(&self, name: u32) -> (r: Option<&CuePoint>)
        ensures
            r is None <==> first_cue_named(self@, name) is None,
            r matches Some(p) ==> first_cue_named(self@, name) == Some(*p),
    {
        let mut i: usize = 0;
        assert(self@.subrange(0, self@.len() as int) =~= self@);
        while i < self.points.len()
            invariant
                i <= self@.len(),
                self@ == self.points@,
                first_cue_named(self@, name) == first_cue_named(
                    self@.subrange(i as int, self@.len() as int),
                    name,
                ),
            decreases self@.len() - i,
        {
            let ghost rest = self@.subrange(i as int, self@.len() as int);
            assert(rest.drop_first() =~= self@.subrange(i + 1, self@.len() as int));
            assert(rest[0] == self@[i as int]);
            if self.points[i].name == name {
                return Some(&self.points[i]);
            }
            i += 1;
        }
        None
    }
}

} // verus!
