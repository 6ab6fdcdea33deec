//! The BW64 ADM XML-carrier chunks `axml`, `bxml` and `sxml`.
//!
//! - `axml`: the whole body is uncompressed XML.
//! - `bxml`: a 2-byte `fmtType` compression selector, then the payload.
//! - `sxml`: `fmtType`, a 64-bit table size, a table of `SubXMLChunk`
//!   records (each an XML payload bound to a span of samples), then an
//!   optional table of 16-byte `AlignmentPoint` records.
//!
//! Every multi-byte field is little-endian. Payloads are handed back
//! verbatim; decompression is the caller's concern.
use vstd::prelude::*;

use crate::error::{Error, Result};
use crate::le::{le_u16, le_u32, le_u64, read_u16, read_u32, read_u64, copy_range};
use crate::text::str_from_utf8;
use vstd::utf8::{decode_utf8, valid_utf8};

verus! {

/// FourCC of the `axml` chunk.
pub const FOURCC_AXML: [u8; 4] = [0x61, 0x78, 0x6D, 0x6C];

/// FourCC of the `bxml` chunk.
pub const FOURCC_BXML: [u8; 4] = [0x62, 0x78, 0x6D, 0x6C];

/// FourCC of the `sxml` chunk.
pub const FOURCC_SXML: [u8; 4] = [0x73, 0x78, 0x6D, 0x6C];

/// `fmtType` of uncompressed XML.
pub const FMT_TYPE_UNCOMPRESSED: u16 = 0x0000;

/// `fmtType` of gzip-compressed XML.
pub const FMT_TYPE_GZIP: u16 = 0x0001;

/// Size of a `SubXMLChunk` header (`subXMLChunkSize` + `nSamples`).
pub const SUB_XML_HEADER_LEN: usize = 8;

/// Size of one `AlignmentPoint` record.
pub const ALIGNMENT_POINT_LEN: usize = 16;

/// A decoded `axml` chunk: the XML bytes verbatim.
#[derive(Clone, Debug, Default, PartialEq, Eq)]
pub struct AxmlChunk {
    /// The raw XML text bytes.
    pub xml: Vec<u8>,
}

impl AxmlChunk {
    /// The whole body is the XML payload.
    pub fn parse(body: &[u8]) -> (r: Self)
        ensures
            r.xml@ == body@,
    {
        AxmlChunk { xml: copy_range(body, 0, body.len()) }
    }

    /// The XML payload as text, when it is valid UTF-8.
    pub fn xml_str(&self) -> (r: Option<&str>)
        ensures
            r is Some <==> valid_utf8(self.xml@),
            r matches Some(s) ==> s@ == decode_utf8(self.xml@),
    {
        str_from_utf8(self.xml.as_slice())
    }
}

/// A decoded `bxml` chunk: the compression selector and the payload.
#[derive(Clone, Debug, Default, PartialEq, Eq)]
pub struct BxmlChunk {
    /// Compression selector, verbatim.
    pub fmt_type: u16,
    /// The (possibly compressed) payload.
    pub xml: Vec<u8>,
}

impl BxmlChunk {
    /// Decode a `bxml` body; it must hold at least the 2-byte `fmtType`.
    pub fn parse(body: &[u8]) -> (r: Result<Self>)
        ensures
            r is Ok <==> body@.len() >= 2,
            r matches Ok(c) ==> c.fmt_type == le_u16(body@, 0) && c.xml@ == body@.subrange(
                2,
                body@.len() as int,
            ),
    {
        if body.len() < 2 {
            return Err(Error::invalid("RIFF: bxml chunk body is shorter than the 2-byte fmtType"));
        }
        Ok(BxmlChunk { fmt_type: read_u16(body, 0), xml: copy_range(body, 2, body.len()) })
    }

    /// `true` for the gzip selector.
    pub fn is_gzip(&self) -> (r: bool)
        ensures
            r == (self.fmt_type == FMT_TYPE_GZIP),
    {
        self.fmt_type == FMT_TYPE_GZIP
    }

    /// `true` for the uncompressed selector.
    pub fn is_uncompressed(&self) -> (r: bool)
        ensures
            r == (self.fmt_type == FMT_TYPE_UNCOMPRESSED),
    {
        self.fmt_type == FMT_TYPE_UNCOMPRESSED
    }
}

/// The content of a `SubXMLChunk` record.
pub struct SubXmlModel {
    pub n_samples: u32,
    pub xml: Seq<u8>,
}

/// One `SubXMLChunk` record: an XML payload bound to a span of samples.
#[derive(Clone, Debug, Default, PartialEq, Eq)]
pub struct SubXmlChunk {
    /// Samples per channel of the span.
    pub n_samples: u32,
    /// The payload, compressed per the parent's `fmt_type`.
    pub xml: Vec<u8>,
}

impl View for SubXmlChunk {
    type V = SubXmlModel;

    open spec fn view(&self) -> SubXmlModel {
        SubXmlModel { n_samples: self.n_samples, xml: self.xml@ }
    }
}

/// One `AlignmentPoint` record: a byte offset into the `sxml` body and a
/// timeline position in samples.
#[derive(Clone, Copy, Debug, Default, PartialEq, Eq)]
pub struct AlignmentPoint {
    /// Offset of a `SubXMLChunk` from the start of the `sxml` body.
    pub byte_offset: u64,
    /// Timeline position in samples per channel.
    pub n_samples: u64,
}

/// The content of an `sxml` chunk.
pub struct SxmlModel {
    pub fmt_type: u16,
    pub sub_chunks: Seq<SubXmlModel>,
    pub alignment_points: Seq<AlignmentPoint>,
}

/// A decoded `sxml` chunk.
#[derive(Clone, Debug, Default, PartialEq, Eq)]
pub struct SxmlChunk {
    /// Compression selector of every sub-chunk payload.
    pub fmt_type: u16,
    /// The `SubXMLChunk` table.
    pub sub_chunks: Vec<SubXmlChunk>,
    /// The `AlignmentPoint` table (empty when absent).
    pub alignment_points: Vec<AlignmentPoint>,
}

impl View for SxmlChunk {
    type V = SxmlModel;

    open spec fn view(&self) -> SxmlModel {
        SxmlModel {
            fmt_type: self.fmt_type,
            sub_chunks: self.sub_chunks@.map_values(|s: SubXmlChunk| s@),
            alignment_points: self.alignment_points@,
        }
    }
}

/// The `n` `SubXMLChunk` records starting at `b[pos]` that must all lie
/// before `end`; `None` when a record header or payload crosses `end` or
/// a record's size is smaller than its 4-byte sample-count field.
pub open spec fn sxml_subs(b: Seq<u8>, pos: int, end: int, n: nat) -> Option<Seq<SubXmlModel>>
    decreases n,
{
    if n == 0 {
        Some(Seq::empty())
    } else if pos + 8 > end {
        None
    } else if le_u32(b, pos) < 4 {
        None
    } else if pos + 4 + le_u32(b, pos) > end {
        None
    } else {
        let xe = pos + 4 + le_u32(b, pos);
        match sxml_subs(b, xe, end, (n - 1) as nat) {
            Some(rest) => Some(
                seq![SubXmlModel { n_samples: le_u32(b, pos + 4), xml: b.subrange(pos + 8, xe) }]
                    + rest,
            ),
            None => None,
        }
    }
}

/// The alignment point stored at `b[off..off + 16]`.
pub open spec fn alignment_at(b: Seq<u8>, off: int) -> AlignmentPoint {
    AlignmentPoint { byte_offset: le_u64(b, off), n_samples: le_u64(b, off + 8) }
}

/// The content of an `sxml` body, or `None` when it is malformed: shorter
/// than its 14-byte prefix, a table size below 4 or past the body, a bad
/// `SubXMLChunk` record, or trailing bytes that are not exactly an
/// alignment-point count followed by that many records.
pub open spec fn sxml_parse(b: Seq<u8>) -> Option<SxmlModel> {
    if b.len() < 14 {
        None
    } else {
        let te = 10 + le_u64(b, 2);
        if le_u64(b, 2) < 4 || te > b.len() {
            None
        } else {
            match sxml_subs(b, 14, te, le_u32(b, 10) as nat) {
                None => None,
                Some(subs) => if te == b.len() {
                    Some(
                        SxmlModel {
                            fmt_type: le_u16(b, 0),
                            sub_chunks: subs,
                            alignment_points: Seq::empty(),
                        },
                    )
                } else if te + 4 > b.len() || te + 4 + 16 * le_u32(b, te) != b.len() {
                    None
                } else {
                    Some(
                        SxmlModel {
                            fmt_type: le_u16(b, 0),
                            sub_chunks: subs,
                            alignment_points: Seq::new(
                                le_u32(b, te) as nat,
                                |i: int| alignment_at(b, te + 4 + 16 * i),
                            ),
                        },
                    )
                },
            }
        }
    }
}

/// The sum of the sample counts of a sub-chunk table.
pub open spec fn total_samples_of(s: Seq<SubXmlModel>) -> int
    decreases s.len(),
{
    if s.len() == 0 {
        0
    } else {
        total_samples_of(s.drop_last()) + s.last().n_samples
    }
}

impl SxmlChunk {
    /// Decode an `sxml` body; see [`sxml_parse`] for when it fails.
    pub fn parse(body: &[u8]) -> (r: Result<Self>)
        ensures
            r is Ok <==> sxml_parse(body@) is Some,
            r matches Ok(c) ==> sxml_parse(body@) == Some(c@),
    {
        let blen = body.len();
        if blen < 14 {
            return Err(Error::invalid("RIFF: sxml chunk body is too short for its fixed prefix"));
        }
        let fmt_type = read_u16(body, 0);
        let tb = read_u64(body, 2);
        if tb < 4 {
            return Err(
                Error::invalid("RIFF: sxml subXMLCkTbSize is smaller than its own nSubXMLChunks field"),
            );
        }
        if tb > (blen - 10) as u64 {
            return Err(Error::invalid("RIFF: sxml subXMLCkTbSize overruns the chunk body"));
        }
        let te: usize = 10 + tb as usize;
        let n_sub = read_u32(body, 10);
        let ghost b = body@;
        let mut sub_chunks: Vec<SubXmlChunk> = Vec::new();
        let mut pos: usize = 14;
        let mut k: u32 = 0;
        while k < n_sub
            invariant
                b == body@,
                blen == b.len(),
                te <= blen,
                blen >= 14,
                te == 10 + le_u64(b, 2),
                le_u64(b, 2) >= 4,
                n_sub == le_u32(b, 10),
                14 <= pos <= te,
                k <= n_sub,
                sxml_subs(b, 14, te as int, n_sub as nat) == (match sxml_subs(
                    b,
                    pos as int,
                    te as int,
                    (n_sub - k) as nat,
                ) {
                    Some(rest) => Some(sub_chunks@.map_values(|s: SubXmlChunk| s@) + rest),
                    None => None::<Seq<SubXmlModel>>,
                }),
            decreases n_sub - k,
        {
            if te - pos < 8 {
                return Err(
                    Error::invalid("RIFF: sxml SubXMLChunk header overruns the declared table region"),
                );
            }
            let sub_size = read_u32(body, pos);
            if sub_size < 4 {
                return Err(
                    Error::invalid("RIFF: sxml SubXMLChunk size is smaller than its nSamplesSubDataChunk field"),
                );
            }
            let n_samples = read_u32(body, pos + 4);
            let xml_len = (sub_size - 4) as usize;
            if xml_len > te - pos - 8 {
                return Err(
                    Error::invalid("RIFF: sxml SubXMLChunk payload overruns the declared table region"),
                );
            }
            let xml_end = pos + 8 + xml_len;
            let xml = copy_range(body, pos + 8, xml_end);
            let ghost before = sub_chunks@.map_values(|s: SubXmlChunk| s@);
            sub_chunks.push(SubXmlChunk { n_samples, xml });
            proof {
                let item = SubXmlModel { n_samples, xml: b.subrange(pos + 8, xml_end as int) };
                assert(sub_chunks@.map_values(|s: SubXmlChunk| s@) =~= before.push(item));
                match sxml_subs(b, xml_end as int, te as int, (n_sub - k - 1) as nat) {
                    Some(rest) => {
                        assert(before + (seq![item] + rest) =~= before.push(item) + rest);
                    },
                    None => {},
                }
            }
            pos = xml_end;
            k = k + 1;
        }
        let mut alignment_points: Vec<AlignmentPoint> = Vec::new();
        if te < blen {
            if blen - te < 4 {
                return Err(
                    Error::invalid("RIFF: sxml trailing bytes too short for the nAlignmentPoints count"),
                );
            }
            let n_align = read_u32(body, te);
            let rest = blen - te - 4;
            if rest % 16 != 0 || rest / 16 != n_align as usize {
                return Err(
                    Error::invalid("RIFF: sxml nAlignmentPoints disagrees with the remaining body length"),
                );
            }
            let mut i: usize = 0;
            while i < n_align as usize
                invariant
                    b == body@,
                    blen == b.len(),
                    te + 4 + 16 * n_align == blen,
                    i <= n_align,
                    alignment_points@.len() == i,
                    forall|j: int|
                        0 <= j < i ==> alignment_points@[j] == alignment_at(
                            b,
                            te + 4 + 16 * j,
                        ),
                decreases n_align - i,
            {
                let off = te + 4 + 16 * i;
                alignment_points.push(
                    AlignmentPoint { byte_offset: read_u64(body, off), n_samples: read_u64(body, off + 8) },
                );
                i += 1;
            }
            assert(alignment_points@ =~= Seq::new(
                n_align as nat,
                |i: int| alignment_at(b, te + 4 + 16 * i),
            ));
        } else {
            assert(alignment_points@ =~= Seq::<AlignmentPoint>::empty());
        }
        assert(sub_chunks@.map_values(|s: SubXmlChunk| s@) + Seq::<SubXmlModel>::empty()
            =~= sub_chunks@.map_values(|s: SubXmlChunk| s@));
        Ok(SxmlChunk { fmt_type, sub_chunks, alignment_points })
    }

    /// `true` for the gzip selector.
    pub fn is_gzip(&self) -> (r: bool)
        ensures
            r == (self.fmt_type == FMT_TYPE_GZIP),
    {
        self.fmt_type == FMT_TYPE_GZIP
    }

    /// `true` for the uncompressed selector.
    pub fn is_uncompressed(&self) -> (r: bool)
        ensures
            r == (self.fmt_type == FMT_TYPE_UNCOMPRESSED),
    {
        self.fmt_type == FMT_TYPE_UNCOMPRESSED
    }

    /// The sum of the sub-chunks' sample counts.
    pub fn total_samples(&self) -> (r: u64)
        requires
            total_samples_of(self@.sub_chunks) <= u64::MAX,
        ensures
            r == total_samples_of(self@.sub_chunks),
    {
        let mut sum: u64 = 0;
        let mut i: usize = 0;
        while i < self.sub_chunks.len()
            invariant
                i <= self@.sub_chunks.len(),
                total_samples_of(self@.sub_chunks) <= u64::MAX,
                sum == total_samples_of(self@.sub_chunks.subrange(0, i as int)),
            decreases self@.sub_chunks.len() - i,
        {
            proof {
                let s = self@.sub_chunks;
                assert(s.subrange(0, i + 1).drop_last() =~= s.subrange(0, i as int));
                lemma_total_prefix_le(s, i + 1);
            }
            sum = sum + self.sub_chunks[i].n_samples as u64;
            i += 1;
        }
        assert(self@.sub_chunks.subrange(0, i as int) =~= self@.sub_chunks);
        sum
    }
}

/// A prefix's sample total is at most the whole table's.
proof fn lemma_total_prefix_le(s: Seq<SubXmlModel>, k: int)
    requires
        0 <= k <= s.len(),
    ensures
        total_samples_of(s.subrange(0, k)) <= total_samples_of(s),
    decreases s.len() - k,
{
    if k < s.len() {
        lemma_total_prefix_le(s, k + 1);
        assert(s.subrange(0, k + 1).drop_last() =~= s.subrange(0, k));
    } else {
        assert(s.subrange(0, k) =~= s);
    }
}

} // verus!
