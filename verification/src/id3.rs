//! The `id3 ` / `ID3 ` chunk: an embedded ID3v2 tag.
//!
//! The body is a complete ID3v2 tag, kept verbatim. Only its 10-byte
//! header is recognised:
//!
//! ```text
//! +0 "ID3"   +3 version major   +4 version revision   +5 flags
//! +6 size : u32 sync-safe (seven bits per byte, most significant first)
//! ```
use vstd::prelude::*;

use crate::chunk::{chunk_bytes, encode_chunk, fourcc_eq};
use crate::error::Result;
use crate::le::copy_range;

verus! {

/// Lower-case FourCC (`id3 `).
pub const FOURCC_ID3: [u8; 4] = [0x69, 0x64, 0x33, 0x20];

/// Upper-case FourCC (`ID3 `).
pub const FOURCC_ID3_UPPER: [u8; 4] = [0x49, 0x44, 0x33, 0x20];

/// The ID3v2 magic (`ID3`).
pub const ID3V2_MAGIC: [u8; 3] = [0x49, 0x44, 0x33];

/// Size of the ID3v2 header.
pub const ID3V2_HEADER_LEN: usize = 10;

/// Header flag: unsynchronisation.
pub const ID3_FLAG_UNSYNCHRONISATION: u8 = 0b1000_0000;

/// Header flag: an extended header follows.
pub const ID3_FLAG_EXTENDED_HEADER: u8 = 0b0100_0000;

/// Header flag: experimental tag.
pub const ID3_FLAG_EXPERIMENTAL: u8 = 0b0010_0000;

/// Header flag: a 10-byte footer is present.
pub const ID3_FLAG_FOOTER: u8 = 0b0001_0000;

/// `id3 ` as a view.
pub open spec fn id3_id() -> Seq<u8> {
    seq![0x69u8, 0x64u8, 0x33u8, 0x20u8]
}

/// `ID3 ` as a view.
pub open spec fn id3_upper_id() -> Seq<u8> {
    seq![0x49u8, 0x44u8, 0x33u8, 0x20u8]
}

/// `true` for `id3 ` and `ID3 `.
pub fn is_id3_fourcc(fourcc: &[u8; 4]) -> (r: bool)
    ensures
        r == (fourcc@ == id3_id() || fourcc@ == id3_upper_id()),
{
    assert(FOURCC_ID3@ =~= id3_id());
    assert(FOURCC_ID3_UPPER@ =~= id3_upper_id());
    fourcc_eq(fourcc, &FOURCC_ID3) || fourcc_eq(fourcc, &FOURCC_ID3_UPPER)
}

/// A recognised ID3v2 header.
#[derive(Clone, Copy, Debug, PartialEq, Eq)]
pub struct Id3v2Header {
    /// Major version (2, 3 or 4).
    pub version_major: u8,
    /// Revision.
    pub version_revision: u8,
    /// Flag bits.
    pub flags: u8,
    /// Tag size after the header (sync-safe decoded).
    pub size: u32,
}

impl Id3v2Header {
    /// `true` when the unsynchronisation flag is set.
    pub fn unsynchronisation(self) -> (r: bool)
        ensures
            r == (self.flags & ID3_FLAG_UNSYNCHRONISATION != 0),
    {
        self.flags & ID3_FLAG_UNSYNCHRONISATION != 0
    }

    /// `true` when the extended-header flag is set.
    pub fn has_extended_header(self) -> (r: bool)
        ensures
            r == (self.flags & ID3_FLAG_EXTENDED_HEADER != 0),
    {
        self.flags & ID3_FLAG_EXTENDED_HEADER != 0
    }

    /// `true` when the experimental flag is set.
    pub fn experimental(self) -> (r: bool)
        ensures
            r == (self.flags & ID3_FLAG_EXPERIMENTAL != 0),
    {
        self.flags & ID3_FLAG_EXPERIMENTAL != 0
    }

    /// `true` when the footer flag is set.
    pub fn has_footer(self) -> (r: bool)
        ensures
            r == (self.flags & ID3_FLAG_FOOTER != 0),
    {
        self.flags & ID3_FLAG_FOOTER != 0
    }

    /// The whole tag's length: header, `size`, and the footer if
    /// flagged; `None` when it does not fit 32 bits.
    pub fn total_tag_len(self) -> (r: Option<u32>)
        ensures
            ({
                let total = self.size + 10 + (if self.flags & ID3_FLAG_FOOTER != 0 { 10int } else { 0int });
                r == (if total <= u32::MAX { Some(total as u32) } else { None::<u32> })
            }),
    {
        let footer: u32 = if self.has_footer() { 10 } else { 0 };
        if self.size > u32::MAX - 10 - footer {
            None
        } else {
            Some(self.size + 10 + footer)
        }
    }
}

/// The value of a sync-safe integer: the low seven bits of each byte,
/// most significant byte first.
pub open spec fn syncsafe_value(b: [u8; 4]) -> u32 {
    ((b[0] as u32 & 0x7F) << 21u32) | ((b[1] as u32 & 0x7F) << 14u32) | ((b[2] as u32 & 0x7F)
        << 7u32) | (b[3] as u32 & 0x7F)
}

/// The sync-safe bytes of the low 28 bits of `v`.
pub open spec fn syncsafe_of(v: u32) -> [u8; 4] {
    [
        ((v >> 21u32) & 0x7F) as u8,
        ((v >> 14u32) & 0x7F) as u8,
        ((v >> 7u32) & 0x7F) as u8,
        (v & 0x7F) as u8,
    ]
}

/// Decode a sync-safe integer.
pub fn syncsafe_u32(b: &[u8; 4]) -> (r: u32)
    ensures
        r == syncsafe_value(*b),
{
    ((b[0] as u32 & 0x7F) << 21u32) | ((b[1] as u32 & 0x7F) << 14u32) | ((b[2] as u32 & 0x7F)
        << 7u32) | (b[3] as u32 & 0x7F)
}

/// Encode the low 28 bits of `v` as a sync-safe integer.
pub fn syncsafe_bytes(v: u32) -> (r: [u8; 4])
    ensures
        r == syncsafe_of(v),
{
    [
        ((v >> 21u32) & 0x7F) as u8,
        ((v >> 14u32) & 0x7F) as u8,
        ((v >> 7u32) & 0x7F) as u8,
        (v & 0x7F) as u8,
    ]
}

/// Sync-safe encoding keeps the low 28 bits: decoding the encoding of
/// `v` gives `v` with its top four bits cleared.
#[verifier::spinoff_prover]
pub proof fn lemma_syncsafe_roundtrip(v: u32)
    ensures
        syncsafe_value(syncsafe_of(v)) == v & 0x0FFF_FFFF,
{
    let b0 = ((v >> 21u32) & 0x7F) as u8;
    let b1 = ((v >> 14u32) & 0x7F) as u8;
    let b2 = ((v >> 7u32) & 0x7F) as u8;
    let b3 = (v & 0x7F) as u8;
    assert(((b0 as u32 & 0x7F) << 21u32) | ((b1 as u32 & 0x7F) << 14u32) | ((b2 as u32 & 0x7F)
        << 7u32) | (b3 as u32 & 0x7F) == v & 0x0FFF_FFFF) by (bit_vector)
        requires
            b0 == ((v >> 21u32) & 0x7F) as u8,
            b1 == ((v >> 14u32) & 0x7F) as u8,
            b2 == ((v >> 7u32) & 0x7F) as u8,
            b3 == (v & 0x7F) as u8,
    ;
    assert(syncsafe_of(v)[0] == b0 && syncsafe_of(v)[1] == b1 && syncsafe_of(v)[2] == b2
        && syncsafe_of(v)[3] == b3);
}

/// The header a tag body starts with, if it starts with `ID3` and holds
/// ten bytes.
pub open spec fn id3v2_header_of(b: Seq<u8>) -> Option<Id3v2Header> {
    if b.len() < 10 || b[0] != 0x49 || b[1] != 0x44 || b[2] != 0x33 {
        None
    } else {
        Some(
            Id3v2Header {
                version_major: b[3],
                version_revision: b[4],
                flags: b[5],
                size: syncsafe_value([b[6], b[7], b[8], b[9]]),
            },
        )
    }
}

/// Recognise the ID3v2 header at the start of `body`.
pub fn parse_id3v2_header(body: &[u8]) -> (r: Option<Id3v2Header>)
    ensures
        r == id3v2_header_of(body@),
{
    if body.len() < ID3V2_HEADER_LEN || body[0] != 0x49 || body[1] != 0x44 || body[2] != 0x33 {
        return None;
    }
    let size = syncsafe_u32(&[body[6], body[7], body[8], body[9]]);
    Some(
        Id3v2Header {
            version_major: body[3],
            version_revision: body[4],
            flags: body[5],
            size,
        },
    )
}

/// The ten header bytes for the given fields (the size sync-safe
/// encoded).
pub open spec fn id3v2_header_bytes(version_major: u8, version_revision: u8, flags: u8, size: u32) -> Seq<u8> {
    let s = syncsafe_of(size);
    seq![0x49u8, 0x44u8, 0x33u8, version_major, version_revision, flags, s[0], s[1], s[2], s[3]]
}

/// Build a ten-byte ID3v2 header.
pub fn build_id3v2_header(version_major: u8, version_revision: u8, flags: u8, size: u32) -> (r:
    [u8; 10])
    ensures
        r@ == id3v2_header_bytes(version_major, version_revision, flags, size),
{
    let s = syncsafe_bytes(size);
    let r = [
        ID3V2_MAGIC[0],
        ID3V2_MAGIC[1],
        ID3V2_MAGIC[2],
        version_major,
        version_revision,
        flags,
        s[0],
        s[1],
        s[2],
        s[3],
    ];
    assert(r@ =~= id3v2_header_bytes(version_major, version_revision, flags, size));
    r
}

/// A built header is recognised with the same fields, its size reduced
/// to the 28 bits a sync-safe integer holds.
#[verifier::spinoff_prover]
pub proof fn lemma_id3v2_header_roundtrip(
    version_major: u8,
    version_revision: u8,
    flags: u8,
    size: u32,
)
    ensures
        id3v2_header_of(id3v2_header_bytes(version_major, version_revision, flags, size)) == Some(
            Id3v2Header { version_major, version_revision, flags, size: size & 0x0FFF_FFFF },
        ),
{
    let b = id3v2_header_bytes(version_major, version_revision, flags, size);
    let s = syncsafe_of(size);
    lemma_syncsafe_roundtrip(size);
    assert([b[6], b[7], b[8], b[9]] =~= s);
}

/// An `id3 ` chunk: the tag body verbatim and its recognised header.
#[derive(Clone, Debug, Default, PartialEq, Eq)]
pub struct Id3Chunk {
    /// The whole tag, verbatim.
    pub tag: Vec<u8>,
    /// The recognised header, if the body starts with one.
    pub header: Option<Id3v2Header>,
}

impl Id3Chunk {
    /// Keep a chunk body and recognise its header.
    pub fn from_body(body: &[u8]) -> (r: Self)
        ensures
            r.tag@ == body@,
            r.header == id3v2_header_of(body@),
    {
        let header = parse_id3v2_header(body);
        let tag = copy_range(body, 0, body.len());
        assert(tag@ =~= body@);
        Id3Chunk { tag, header }
    }

    /// The same as [`Id3Chunk::from_body`], for a tag about to be muxed.
    pub fn from_tag(tag: &[u8]) -> (r: Self)
        ensures
            r.tag@ == tag@,
            r.header == id3v2_header_of(tag@),
    {
        Self::from_body(tag)
    }

    /// The tag bytes.
    pub fn tag_bytes(&self) -> (r: &[u8])
        ensures
            r@ == self.tag@,
    {
        self.tag.as_slice()
    }

    /// `true` when a header was recognised.
    pub fn is_recognised(&self) -> (r: bool)
        ensures
            r == self.header is Some,
    {
        self.header.is_some()
    }

    /// Number of tag bytes.
    pub fn len(&self) -> (r: usize)
        ensures
            r == self.tag@.len(),
    {
        self.tag.len()
    }

    /// `true` for an empty tag.
    pub fn is_empty(&self) -> (r: bool)
        ensures
            r == (self.tag@.len() == 0),
    {
        self.tag.len() == 0
    }

    /// The tag bytes, for writing.
    pub fn encode_body(&self) -> (r: Vec<u8>)
        ensures
            r@ == self.tag@,
    {
        let r = copy_range(self.tag.as_slice(), 0, self.tag.len());
        assert(r@ =~= self.tag@);
        r
    }

    /// The whole chunk with the `id3 ` FourCC.
    pub fn encode_chunk(&self) -> (r: Result<Vec<u8>>)
        ensures
            r is Ok <==> self.tag@.len() <= u32::MAX,
            r matches Ok(v) ==> v@ == chunk_bytes(id3_id(), self.tag@),
    {
        assert(FOURCC_ID3@ =~= id3_id());
        self.encode_chunk_with(&FOURCC_ID3)
    }

    /// The whole chunk with the given FourCC.
    pub fn encode_chunk_with(&self, fourcc: &[u8; 4]) -> (r: Result<Vec<u8>>)
        ensures
            r is Ok <==> self.tag@.len() <= u32::MAX,
            r matches Ok(v) ==> v@ == chunk_bytes(fourcc@, self.tag@),
    {
        let mut out: Vec<u8> = Vec::new();
        encode_chunk(&mut out, fourcc, self.tag.as_slice())?;
        assert(out@ =~= chunk_bytes(fourcc@, self.tag@));
        Ok(out)
    }
}

} // verus!
