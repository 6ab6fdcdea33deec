//! The `plst` playlist chunk.
//!
//! ```text
//! dwSegments : u32
//! <play-segment>[dwSegments] : dwName dwLength dwLoops (12 bytes each)
//! ```
use vstd::prelude::*;

use crate::error::{Error, Result};
use crate::le::{le_u32, lemma_u32_bytes_of_le, lemma_u32_roundtrip, push_slice, push_u32, read_u32, u32_bytes};
use crate::records::{all_len, concat, lemma_concat_fixed, lemma_concat_push, lemma_concat_slices, lemma_sub};

verus! {

/// FourCC of the playlist chunk (`plst`).
pub const FOURCC_PLST: [u8; 4] = [0x70, 0x6C, 0x73, 0x74];

/// Size of one play-segment record.
pub const PLAY_SEGMENT_LEN: usize = 12;

/// One play segment: play cue point `name` for `length` samples,
/// `loops` times.
#[derive(Clone, Copy, Debug, PartialEq, Eq, Hash)]
pub struct PlaySegment {
    /// The cue point the segment starts at.
    pub name: u32,
    /// Length in samples.
    pub length: u32,
    /// Number of repetitions.
    pub loops: u32,
}

/// The segment stored at `b[off..off + 12]`.
pub open spec fn segment_at(b: Seq<u8>, off: int) -> PlaySegment {
    PlaySegment { name: le_u32(b, off), length: le_u32(b, off + 4), loops: le_u32(b, off + 8) }
}

/// The 12 wire bytes of a segment.
pub open spec fn segment_bytes(s: PlaySegment) -> Seq<u8> {
    u32_bytes(s.name) + u32_bytes(s.length) + u32_bytes(s.loops)
}

impl PlaySegment {
    /// Decode one 12-byte record; any other length is an error.
    pub fn parse(raw: &[u8]) -> (r: Result<Self>)
        ensures
            r is Ok <==> raw@.len() == PLAY_SEGMENT_LEN,
            r matches Ok(s) ==> s == segment_at(raw@, 0),
    {
        if raw.len() != PLAY_SEGMENT_LEN {
            return Err(Error::invalid("RIFF: play-segment record is not 12 bytes"));
        }
        Ok(PlaySegment { name: read_u32(raw, 0), length: read_u32(raw, 4), loops: read_u32(raw, 8) })
    }

    /// The 12 wire bytes; the exact inverse of [`PlaySegment::parse`].
    pub fn encode(&self) -> (r: [u8; 12])
        ensures
            r@ == segment_bytes(*self),
    {
        let (n, l, p) = (self.name, self.length, self.loops);
        let r = [
            (n % 256) as u8,
            ((n / 256) % 256) as u8,
            ((n / 65536) % 256) as u8,
            (n / 16777216) as u8,
            (l % 256) as u8,
            ((l / 256) % 256) as u8,
            ((l / 65536) % 256) as u8,
            (l / 16777216) as u8,
            (p % 256) as u8,
            ((p / 256) % 256) as u8,
            ((p / 65536) % 256) as u8,
            (p / 16777216) as u8,
        ];
        assert(r@ =~= segment_bytes(*self));
        r
    }
}

/// `true` if `b` is a `plst` body that [`Playlist::parse`] accepts.
pub open spec fn plst_parse_ok(b: Seq<u8>) -> bool {
    b.len() >= 4 && b.len() == 4 + 12 * le_u32(b, 0)
}

/// The segments of a `plst` body that [`Playlist::parse`] accepts.
pub open spec fn segments_of(b: Seq<u8>) -> Seq<PlaySegment> {
    Seq::new(le_u32(b, 0) as nat, |i: int| segment_at(b, 4 + 12 * i))
}

/// The wire bytes of a `plst` body.
pub open spec fn plst_bytes(s: Seq<PlaySegment>) -> Seq<u8> {
    u32_bytes(s.len() as u32) + concat(s.map_values(|x: PlaySegment| segment_bytes(x)))
}

/// The first segment named `name`.
pub open spec fn first_segment_named(s: Seq<PlaySegment>, name: u32) -> Option<PlaySegment>
    decreases s.len(),
{
    if s.len() == 0 {
        None
    } else if s[0].name == name {
        Some(s[0])
    } else {
        first_segment_named(s.drop_first(), name)
    }
}

/// A decoded `plst` chunk.
#[derive(Clone, Debug, PartialEq, Eq)]
pub struct Playlist {
    segments: Vec<PlaySegment>,
}

impl View for Playlist {
    type V = Seq<PlaySegment>;

    closed spec fn view(&self) -> Seq<PlaySegment> {
        self.segments@
    }
}

impl Default for Playlist {
    fn default() -> (r: Self)
        ensures
            r@ == Seq::<PlaySegment>::empty(),
    {
        Playlist::new()
    }
}

impl Playlist {
    /// An empty playlist.
    pub fn new() -> (r: Self)
        ensures
            r@ == Seq::<PlaySegment>::empty(),
    {
        let r = Playlist { segments: Vec::new() };
        assert(r@ =~= Seq::<PlaySegment>::empty());
        r
    }

    /// Decode a `plst` body; see [`plst_parse_ok`] for when it fails.
    pub fn parse(body: &[u8]) -> (r: Result<Self>)
        ensures
            r is Ok <==> plst_parse_ok(body@),
            r matches Ok(p) ==> p@ == segments_of(body@),
    {
        let blen = body.len();
        if blen < 4 {
            return Err(Error::invalid("RIFF: plst chunk shorter than 4-byte count"));
        }
        let count = read_u32(body, 0);
        let rest = blen - 4;
        if rest % PLAY_SEGMENT_LEN != 0 || rest / PLAY_SEGMENT_LEN != count as usize {
            return Err(Error::invalid("RIFF: plst chunk body length disagrees with dwSegments"));
        }
        let mut segments: Vec<PlaySegment> = Vec::new();
        let mut i: usize = 0;
        while i < count as usize
            invariant
                blen == body@.len(),
                blen == 4 + 12 * count,
                count == le_u32(body@, 0),
                i <= count,
                segments@.len() == i,
                forall|j: int| 0 <= j < i ==> segments@[j] == segment_at(body@, 4 + 12 * j),
            decreases count - i,
        {
            let off = 4 + 12 * i;
            segments.push(
                PlaySegment {
                    name: read_u32(body, off),
                    length: read_u32(body, off + 4),
                    loops: read_u32(body, off + 8),
                },
            );
            i += 1;
        }
        let p = Playlist { segments };
        assert(p@ =~= segments_of(body@));
        Ok(p)
    }

    /// A playlist of the given segments.
    pub fn from_segments(segments: Vec<PlaySegment>) -> (r: Self)
        ensures
            r@ == segments@,
    {
        Playlist { segments }
    }

    /// Append a segment, returning the extended playlist.
    pub fn push(self, segment: PlaySegment) -> (r: Self)
        ensures
            r@ == self@.push(segment),
    {
        let mut s = self;
        s.segments.push(segment);
        s
    }

    /// The wire bytes of this `plst` body; the count written is the
    /// number of segments.
    pub fn encode_body(&self) -> (r: Vec<u8>)
        ensures
            r@ == plst_bytes(self@),
    {
        let mut out: Vec<u8> = Vec::new();
        push_u32(&mut out, self.segments.len() as u32);
        let ghost prefix = out@;
        let mut i: usize = 0;
        while i < self.segments.len()
            invariant
                i <= self.segments@.len(),
                out@ == prefix + concat(
                    self.segments@.subrange(0, i as int).map_values(|x: PlaySegment| segment_bytes(x)),
                ),
            decreases self.segments@.len() - i,
        {
            let rec = self.segments[i].encode();
            push_slice(&mut out, &rec);
            proof {
                let t0 = self.segments@.subrange(0, i as int);
                let t1 = self.segments@.subrange(0, i + 1);
                assert(t1 =~= t0.push(self.segments@[i as int]));
                assert(t1.map_values(|x: PlaySegment| segment_bytes(x)) =~= t0.map_values(
                    |x: PlaySegment| segment_bytes(x),
                ).push(segment_bytes(self.segments@[i as int])));
                lemma_concat_push(
                    t0.map_values(|x: PlaySegment| segment_bytes(x)),
                    segment_bytes(self.segments@[i as int]),
                );
            }
            i += 1;
        }
        assert(self.segments@.subrange(0, self.segments@.len() as int) =~= self.segments@);
        out
    }

    /// The segments in wire order.
    pub fn segments(&self) -> (r: &[PlaySegment])
        ensures
            r@ == self@,
    {
        self.segments.as_slice()
    }

    /// Number of segments.
    pub fn len(&self) -> (r: usize)
        ensures
            r == self@.len(),
    {
        self.segments.len()
    }

    /// `true` when there are no segments.
    pub fn is_empty(&self) -> (r: bool)
        ensures
            r == (self@.len() == 0),
    {
        self.segments.len() == 0
    }

    /// The first segment named `name`.
    pub fn by_name(&self, name: u32) -> (r: Option<&PlaySegment>)
        ensures
            r is None <==> first_segment_named(self@, name) is None,
            r matches Some(p) ==> first_segment_named(self@, name) == Some(*p),
    {
        let mut i: usize = 0;
        assert(self@.subrange(0, self@.len() as int) =~= self@);
        while i < self.segments.len()
            invariant
                i <= self@.len(),
                self@ == self.segments@,
                first_segment_named(self@, name) == first_segment_named(
                    self@.subrange(i as int, self@.len() as int),
                    name,
                ),
            decreases self@.len() - i,
        {
            let ghost rest = self@.subrange(i as int, self@.len() as int);
            assert(rest.drop_first() =~= self@.subrange(i + 1, self@.len() as int));
            assert(rest[0] == self@[i as int]);
            if self.segments[i].name == name {
                return Some(&self.segments[i]);
            }
            i += 1;
        }
        None
    }
}

/// Encoding a playlist and decoding the bytes gives the segments back,
/// provided their count fits 32 bits.
#[verifier::spinoff_prover]
pub proof fn lemma_plst_encode_parse(s: Seq<PlaySegment>)
    requires
        s.len() <= u32::MAX,
    ensures
        plst_parse_ok(plst_bytes(s)),
        segments_of(plst_bytes(s)) == s,
{
    let b = plst_bytes(s);
    let m = s.map_values(|x: PlaySegment| segment_bytes(x));
    assert(all_len(m, 12)) by {
        assert forall|i: int| 0 <= i < m.len() implies (#[trigger] m[i]).len() == 12 by {
            assert(m[i] == segment_bytes(s[i]));
        }
    }
    lemma_concat_fixed(m, 12);
    let rb = concat(m);
    assert(b.subrange(0, 4) =~= u32_bytes(s.len() as u32));
    lemma_u32_roundtrip(b, 0, s.len() as u32);
    let n = s.len() as int;
    assert(b.subrange(4, 4 + 12 * n) =~= rb);
    let got = segments_of(b);
    assert forall|i: int| 0 <= i < n implies #[trigger] got[i] == s[i] by {
        lemma_sub(b, 4, 12 * n, rb, 12 * i, 12 * i + 12);
        assert(m[i] == segment_bytes(s[i]));
        let x = segment_bytes(s[i]);
        let off = 4 + 12 * i;
        assert(x.subrange(0, 4) =~= u32_bytes(s[i].name));
        assert(x.subrange(4, 8) =~= u32_bytes(s[i].length));
        assert(x.subrange(8, 12) =~= u32_bytes(s[i].loops));
        lemma_sub(b, off, 12, x, 0, 4);
        lemma_sub(b, off, 12, x, 4, 8);
        lemma_sub(b, off, 12, x, 8, 12);
        lemma_u32_roundtrip(b, off, s[i].name);
        lemma_u32_roundtrip(b, off + 4, s[i].length);
        lemma_u32_roundtrip(b, off + 8, s[i].loops);
    }
    assert(got =~= s);
}

/// Decoding a `plst` body and encoding the segments gives the body back.
#[verifier::spinoff_prover]
pub proof fn lemma_plst_parse_encode(b: Seq<u8>)
    requires
        plst_parse_ok(b),
    ensures
        plst_bytes(segments_of(b)) == b,
{
    let s = segments_of(b);
    let m = s.map_values(|x: PlaySegment| segment_bytes(x));
    assert forall|i: int| 0 <= i < m.len() implies #[trigger] m[i] == b.subrange(
        4 + 12 * i,
        4 + 12 * i + 12,
    ) by {
        let off = 4 + 12 * i;
        lemma_u32_bytes_of_le(b, off);
        lemma_u32_bytes_of_le(b, off + 4);
        lemma_u32_bytes_of_le(b, off + 8);
        assert(m[i] =~= b.subrange(off, off + 12));
    }
    lemma_concat_slices(m, b, 4, 12);
    lemma_u32_bytes_of_le(b, 0);
    assert(plst_bytes(s) =~= b);
}

} // verus!
