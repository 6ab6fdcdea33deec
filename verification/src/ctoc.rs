//! RIFF compound files: the `CTOC` table of contents and the `CGRP`
//! element group.
//!
//! A compound file `RIFF('type' <CTOC> <CGRP>)` holds a block of
//! elements in `CGRP` and indexes them in `CTOC`. The `CTOC` layout is
//! parameterised by its own header:
//!
//! ```text
//! CTOC (
//!   dwHeaderSize dwEntriesTotal dwEntriesDeleted dwEntriesUnused
//!   dwBytesTotal dwBytesDeleted dwHeaderFlags
//!   wEntrySize wNameSize wExHdrFields wExEntFields
//!   awExHdrFldUsage[wExHdrFields] awExEntFldUsage[wExEntFields]
//!   adwExHdrField[wExHdrFields] [bHeaderPad...]
//!   <CTOC-table-entry>[dwEntriesTotal]
//! )
//! <CTOC-table-entry> ->
//!   dwOffset dwSize dwMedType dwMedUsage dwCompressTech dwUncompressBytes
//!   adwExEntField[wExEntFields] bEntryFlags achName[wNameSize] [bEntryPad...]
//! ```
//!
//! Every multi-byte field is little-endian.
use vstd::prelude::*;

use crate::chunk::fourcc_eq;
use crate::error::{Error, Result};
use crate::le::{le_u16, le_u32, push_u16, push_u32, read_u16, read_u32, u16_bytes, u32_bytes};
use crate::le::{
    lemma_u16_bytes_of_le, lemma_u16_roundtrip, lemma_u32_bytes_of_le, lemma_u32_roundtrip,
};
use crate::le::{copy_range, push_slice};
use crate::records::{
    concat, le_u16s, le_u32s, lemma_concat_fixed, lemma_concat_push, lemma_concat_slices,
    lemma_u16s_bytes_of, lemma_u16s_layout, lemma_u16s_roundtrip, lemma_u32s_bytes_of,
    lemma_u32s_layout, lemma_u32s_roundtrip, push_u16s, push_u32s, read_u16s, read_u32s,
    u16s_bytes, u32s_bytes, all_len, lemma_sub, lemma_join,
};
use crate::text::{before_nul, nul_position, str_from_utf8};
use vstd::utf8::{decode_utf8, valid_utf8};

verus! {

/// FourCC of the table-of-contents chunk (`CTOC`).
pub const FOURCC_CTOC: [u8; 4] = [0x43, 0x54, 0x4F, 0x43];

/// FourCC of the element-group chunk (`CGRP`).
pub const FOURCC_CGRP: [u8; 4] = [0x43, 0x47, 0x52, 0x50];

/// Size of the header-information section: seven DWORDs.
pub const CTOC_HEADER_INFO_LEN: usize = 28;

/// Size of the parameter-table-definition preamble: four WORDs.
pub const CTOC_PARAM_DEF_LEN: usize = 8;

/// Header flag: entries are in sequential order.
pub const CTOC_HF_SEQUENTIAL: u32 = 0x0000_0001;

/// Header flag: `dwMedUsage` holds a FOURCC.
pub const CTOC_HF_MEDSUBTYPE: u32 = 0x0000_0002;

/// Entry flag: the element is deleted.
pub const CTOC_EF_DELETED: u8 = 0x01;

/// Entry flag: the entry is unused.
pub const CTOC_EF_UNUSED: u8 = 0x02;

/// Usage code: the extra field is unused.
pub const CTOC_EFU_UNUSED: u16 = 0x00;

/// Usage code: last-modified time (seconds since the Unix epoch).
pub const CTOC_EFU_LASTMODTIME: u16 = 0x01;

/// Usage code: code page and country of `achName`.
pub const CTOC_EFU_CODEPAGE: u16 = 0x02;

/// Usage code: language and dialect of `achName`.
pub const CTOC_EFU_LANGUAGE: u16 = 0x03;

/// First compression-parameter usage code.
pub const CTOC_EFU_COMPRESSPARAM0: u16 = 0x05;

/// Last compression-parameter usage code.
pub const CTOC_EFU_COMPRESSPARAM9: u16 = 0x14;

/// The content of a table entry.
pub struct CtocEntryModel {
    pub offset: u32,
    pub size: u32,
    pub med_type: u32,
    pub med_usage: u32,
    pub compress_tech: u32,
    pub uncompress_bytes: u32,
    pub ex_ent_fields: Seq<u32>,
    pub flags: u8,
    pub name: Seq<u8>,
}

/// One `<CTOC-table-entry>`.
#[derive(Clone, Debug, PartialEq, Eq)]
pub struct CtocEntry {
    /// Offset of the element from the start of the `CGRP` payload.
    pub offset: u32,
    /// Size of the element in bytes.
    pub size: u32,
    /// FOURCC media type (`0` when the element is not a standalone file).
    pub med_type: u32,
    /// Extra usage information.
    pub med_usage: u32,
    /// FOURCC compression technique (`0` = uncompressed).
    pub compress_tech: u32,
    /// Size after decompression.
    pub uncompress_bytes: u32,
    /// The `adwExEntField` values (`wExEntFields` of them).
    pub ex_ent_fields: Vec<u32>,
    /// `bEntryFlags`.
    pub flags: u8,
    /// The `achName` field verbatim (`wNameSize` bytes).
    pub name: Vec<u8>,
}

impl View for CtocEntry {
    type V = CtocEntryModel;

    open spec fn view(&self) -> CtocEntryModel {
        CtocEntryModel {
            offset: self.offset,
            size: self.size,
            med_type: self.med_type,
            med_usage: self.med_usage,
            compress_tech: self.compress_tech,
            uncompress_bytes: self.uncompress_bytes,
            ex_ent_fields: self.ex_ent_fields@,
            flags: self.flags,
            name: self.name@,
        }
    }
}

impl CtocEntry {
    /// The element name up to its first NUL, or `None` when those bytes
    /// are not UTF-8.
    pub fn name_str(&self) -> (r: Option<&str>)
        ensures
            r is Some <==> valid_utf8(before_nul(self.name@)),
            r matches Some(s) ==> s@ == decode_utf8(before_nul(self.name@)),
    {
        let end = nul_position(self.name.as_slice());
        let name = self.name.as_slice();
        proof {
            crate::text::lemma_first_nul(self.name@);
        }
        let bytes = &name[0..end];
        str_from_utf8(bytes)
    }
}

/// The content of a `CTOC` chunk.
pub struct CtocModel {
    pub header_size: u32,
    pub entries_total: u32,
    pub entries_deleted: u32,
    pub entries_unused: u32,
    pub bytes_total: u32,
    pub bytes_deleted: u32,
    pub header_flags: u32,
    pub entry_size: u16,
    pub name_size: u16,
    pub ex_hdr_usage: Seq<u16>,
    pub ex_ent_usage: Seq<u16>,
    pub ex_hdr_fields: Seq<u32>,
    pub header_pad: Seq<u8>,
    pub entries: Seq<CtocEntryModel>,
}

/// A decoded `CTOC` chunk.
#[derive(Clone, Debug, PartialEq, Eq)]
pub struct CtocChunk {
    /// `dwHeaderSize`: offset of the first table entry.
    pub header_size: u32,
    /// `dwEntriesTotal`.
    pub entries_total: u32,
    /// `dwEntriesDeleted`.
    pub entries_deleted: u32,
    /// `dwEntriesUnused`.
    pub entries_unused: u32,
    /// `dwBytesTotal`.
    pub bytes_total: u32,
    /// `dwBytesDeleted`.
    pub bytes_deleted: u32,
    /// `dwHeaderFlags`.
    pub header_flags: u32,
    /// `wEntrySize`: bytes per table entry including its pad.
    pub entry_size: u16,
    /// `wNameSize`: width of each `achName`.
    pub name_size: u16,
    /// `awExHdrFldUsage`.
    pub ex_hdr_usage: Vec<u16>,
    /// `awExEntFldUsage`.
    pub ex_ent_usage: Vec<u16>,
    /// `adwExHdrField`.
    pub ex_hdr_fields: Vec<u32>,
    /// `bHeaderPad`: the bytes between the header parameter table and
    /// `dwHeaderSize`, verbatim.
    pub header_pad: Vec<u8>,
    /// The table entries.
    pub entries: Vec<CtocEntry>,
}

impl View for CtocChunk {
    type V = CtocModel;

    open spec fn view(&self) -> CtocModel {
        CtocModel {
            header_size: self.header_size,
            entries_total: self.entries_total,
            entries_deleted: self.entries_deleted,
            entries_unused: self.entries_unused,
            bytes_total: self.bytes_total,
            bytes_deleted: self.bytes_deleted,
            header_flags: self.header_flags,
            entry_size: self.entry_size,
            name_size: self.name_size,
            ex_hdr_usage: self.ex_hdr_usage@,
            ex_ent_usage: self.ex_ent_usage@,
            ex_hdr_fields: self.ex_hdr_fields@,
            header_pad: self.header_pad@,
            entries: self.entries@.map_values(|e: CtocEntry| e@),
        }
    }
}

/// `n` zero bytes.
pub open spec fn zeros(n: int) -> Seq<u8> {
    Seq::new(n as nat, |i: int| 0u8)
}

/// The bytes of an entry before its pad.
pub open spec fn entry_core(e: CtocEntryModel) -> Seq<u8> {
    u32_bytes(e.offset) + u32_bytes(e.size) + u32_bytes(e.med_type) + u32_bytes(e.med_usage)
        + u32_bytes(e.compress_tech) + u32_bytes(e.uncompress_bytes) + u32s_bytes(e.ex_ent_fields)
        + seq![e.flags] + e.name
}

/// The wire bytes of an entry padded with zeros to `entry_size`.
pub open spec fn entry_bytes(e: CtocEntryModel, entry_size: int) -> Seq<u8> {
    entry_core(e) + zeros(entry_size - entry_core(e).len())
}

/// The wire bytes of the table entries.
pub open spec fn entries_bytes(es: Seq<CtocEntryModel>, entry_size: int) -> Seq<u8> {
    concat(es.map_values(|e: CtocEntryModel| entry_bytes(e, entry_size)))
}

/// The 36 bytes of the header information and the parameter-table
/// definition.
pub open spec fn ctoc_fixed_bytes(m: CtocModel) -> Seq<u8> {
    u32_bytes(m.header_size) + u32_bytes(m.entries_total) + u32_bytes(m.entries_deleted)
        + u32_bytes(m.entries_unused) + u32_bytes(m.bytes_total) + u32_bytes(m.bytes_deleted)
        + u32_bytes(m.header_flags) + u16_bytes(m.entry_size) + u16_bytes(m.name_size) + u16_bytes(
        m.ex_hdr_usage.len() as u16,
    ) + u16_bytes(m.ex_ent_usage.len() as u16)
}

/// The wire bytes of a `CTOC` body.
pub open spec fn ctoc_bytes(m: CtocModel) -> Seq<u8> {
    ctoc_fixed_bytes(m) + u16s_bytes(m.ex_hdr_usage) + u16s_bytes(m.ex_ent_usage) + u32s_bytes(
        m.ex_hdr_fields,
    ) + m.header_pad + entries_bytes(m.entries, m.entry_size as int)
}

/// The conditions under which a `CTOC` value can be encoded: its
/// parallel arrays agree, `dwHeaderSize` accounts for exactly the
/// header fields and pad, and every entry has the declared field count
/// and name width and fits in `wEntrySize`.
pub open spec fn ctoc_encodable(m: CtocModel) -> bool {
    let ne = m.ex_ent_usage.len();
    &&& m.ex_hdr_usage.len() == m.ex_hdr_fields.len()
    &&& m.header_size == 36 + 2 * m.ex_hdr_usage.len() + 2 * ne + 4 * m.ex_hdr_fields.len()
        + m.header_pad.len()
    &&& forall|k: int|
        0 <= k < m.entries.len() ==> {
            &&& (#[trigger] m.entries[k]).ex_ent_fields.len() == ne
            &&& m.entries[k].name.len() == m.name_size
            &&& 25 + 4 * ne + m.name_size <= m.entry_size
        }
}

/// `wExHdrFields` of a body.
pub open spec fn ctoc_nh(b: Seq<u8>) -> int {
    le_u16(b, 32) as int
}

/// `wExEntFields` of a body.
pub open spec fn ctoc_ne(b: Seq<u8>) -> int {
    le_u16(b, 34) as int
}

/// Offset just past the header parameter table.
pub open spec fn ctoc_hdr_end(b: Seq<u8>) -> int {
    36 + 6 * ctoc_nh(b) + 2 * ctoc_ne(b)
}

/// `true` if `b` is a `CTOC` body that [`CtocChunk::parse`] accepts: the
/// header parses, `dwHeaderSize` lies between the parsed header and the
/// end, the entries fill the rest of the body exactly, and every entry's
/// pad bytes are zero.
pub open spec fn ctoc_parse_ok(b: Seq<u8>) -> bool {
    let hs = le_u32(b, 0) as int;
    let et = le_u32(b, 4) as int;
    let es = le_u16(b, 28) as int;
    let ns = le_u16(b, 30) as int;
    &&& b.len() >= 36
    &&& ctoc_hdr_end(b) <= hs <= b.len()
    &&& 25 + 4 * ctoc_ne(b) + ns <= es
    &&& hs + et * es == b.len()
    &&& ctoc_pads_zero(b)
}

/// The table entry whose bytes start at `b[off]`.
pub open spec fn entry_at(b: Seq<u8>, off: int, ne: int, ns: int) -> CtocEntryModel {
    CtocEntryModel {
        offset: le_u32(b, off),
        size: le_u32(b, off + 4),
        med_type: le_u32(b, off + 8),
        med_usage: le_u32(b, off + 12),
        compress_tech: le_u32(b, off + 16),
        uncompress_bytes: le_u32(b, off + 20),
        ex_ent_fields: le_u32s(b, off + 24, ne as nat),
        flags: b[off + 24 + 4 * ne],
        name: b.subrange(off + 25 + 4 * ne, off + 25 + 4 * ne + ns),
    }
}

/// The content of a `CTOC` body that [`CtocChunk::parse`] accepts.
pub open spec fn ctoc_model_of(b: Seq<u8>) -> CtocModel {
    let hs = le_u32(b, 0) as int;
    let es = le_u16(b, 28) as int;
    let nh = ctoc_nh(b);
    let ne = ctoc_ne(b);
    CtocModel {
        header_size: le_u32(b, 0),
        entries_total: le_u32(b, 4),
        entries_deleted: le_u32(b, 8),
        entries_unused: le_u32(b, 12),
        bytes_total: le_u32(b, 16),
        bytes_deleted: le_u32(b, 20),
        header_flags: le_u32(b, 24),
        entry_size: le_u16(b, 28),
        name_size: le_u16(b, 30),
        ex_hdr_usage: le_u16s(b, 36, nh as nat),
        ex_ent_usage: le_u16s(b, 36 + 2 * nh, ne as nat),
        ex_hdr_fields: le_u32s(b, 36 + 2 * nh + 2 * ne, nh as nat),
        header_pad: b.subrange(ctoc_hdr_end(b), hs),
        entries: Seq::new(
            le_u32(b, 4) as nat,
            |k: int| entry_at(b, hs + k * es, ne, le_u16(b, 30) as int),
        ),
    }
}

proof fn lemma_mul_succ(k: int, es: int)
    ensures
        (k + 1) * es == k * es + es,
{
    assert((k + 1) * es == k * es + es) by (nonlinear_arith);
}

proof fn lemma_mul_le(a: int, b: int, es: int)
    requires
        0 <= a <= b,
        0 <= es,
    ensures
        a * es <= b * es,
{
    assert(a * es <= b * es) by (nonlinear_arith)
        requires
            0 <= a <= b,
            0 <= es,
    ;
}

/// Read the table entry at `b[off..]`.
fn read_entry(b: &[u8], off: usize, ne: usize, ns: usize) -> (e: CtocEntry)
    requires
        off + 25 + 4 * ne + ns <= b@.len(),
    ensures
        e@ == entry_at(b@, off as int, ne as int, ns as int),
{
    let blen = b.len();
    assert(off + 25 + 4 * ne + ns <= blen);
    let ex = read_u32s(b, off + 24, ne);
    let flags = b[off + 24 + 4 * ne];
    let name = copy_range(b, off + 25 + 4 * ne, off + 25 + 4 * ne + ns);
    CtocEntry {
        offset: read_u32(b, off),
        size: read_u32(b, off + 4),
        med_type: read_u32(b, off + 8),
        med_usage: read_u32(b, off + 12),
        compress_tech: read_u32(b, off + 16),
        uncompress_bytes: read_u32(b, off + 20),
        ex_ent_fields: ex,
        flags,
        name,
    }
}

impl CtocChunk {
    /// Decode a `CTOC` body. Fails when the body is shorter than the
    /// fixed header, when the usage arrays, the header parameter table
    /// or the entries run past its end, when `dwHeaderSize` does not lie
    /// between the parsed header and the end of the body, when
    /// `wEntrySize` is too small for the mandatory entry fields, when a
    /// table entry's pad bytes are not zero, or when bytes follow the
    /// last entry. What it accepts, [`CtocChunk::encode_body`] writes back
    /// byte for byte.
    pub fn parse(body: &[u8]) -> (r: Result<Self>)
        ensures
            r is Ok <==> ctoc_parse_ok(body@),
            r matches Ok(c) ==> c@ == ctoc_model_of(body@),
    {
        let blen = body.len();
        if blen < CTOC_HEADER_INFO_LEN + CTOC_PARAM_DEF_LEN {
            return Err(Error::invalid("CTOC: body too short for header + parameter-table definition"));
        }
        let header_size = read_u32(body, 0);
        let entries_total = read_u32(body, 4);
        let entries_deleted = read_u32(body, 8);
        let entries_unused = read_u32(body, 12);
        let bytes_total = read_u32(body, 16);
        let bytes_deleted = read_u32(body, 20);
        let header_flags = read_u32(body, 24);
        let entry_size = read_u16(body, 28);
        let name_size = read_u16(body, 30);
        let nh = read_u16(body, 32) as usize;
        let ne = read_u16(body, 34) as usize;
        let mut pos: usize = 36;
        if pos + 2 * (nh + ne) > blen {
            return Err(Error::invalid("CTOC: body truncated inside the usage arrays"));
        }
        let ex_hdr_usage = read_u16s(body, pos, nh);
        pos = pos + 2 * nh;
        let ex_ent_usage = read_u16s(body, pos, ne);
        pos = pos + 2 * ne;
        if pos + 4 * nh > blen {
            return Err(Error::invalid("CTOC: body truncated inside the header parameter table"));
        }
        let ex_hdr_fields = read_u32s(body, pos, nh);
        pos = pos + 4 * nh;
        let hs = header_size as usize;
        if hs < pos || hs > blen {
            return Err(Error::invalid("CTOC: dwHeaderSize is inconsistent with the parsed header layout"));
        }
        let header_pad = copy_range(body, pos, hs);
        let es = entry_size as usize;
        let ns = name_size as usize;
        if es < 25 + 4 * ne + ns {
            return Err(Error::invalid("CTOC: wEntrySize smaller than the mandatory entry fields"));
        }
        let ghost b = body@;
        let ghost et = entries_total as int;
        let mut entries: Vec<CtocEntry> = Vec::new();
        let mut k: u32 = 0;
        pos = hs;
        while k < entries_total
            invariant
                b == body@,
                blen == b.len(),
                et == entries_total,
                et == le_u32(b, 4),
                hs == le_u32(b, 0),
                es == le_u16(b, 28),
                ns == le_u16(b, 30),
                ne == ctoc_ne(b),
                25 + 4 * ne + ns <= es,
                hs <= blen,
                k <= et,
                pos == hs + k * es,
                pos <= blen,
                entries@.len() == k,
                forall|j: int|
                    0 <= j < k ==> (#[trigger] entries@[j])@ == entry_at(
                        b,
                        hs + j * es,
                        ne as int,
                        ns as int,
                    ),
                forall|kk: int, j: int|
                    0 <= kk < k && 25 + 4 * ne + ns <= j < es ==> #[trigger] ctoc_entry_byte(
                        b,
                        kk,
                        j,
                    ) == 0,
            decreases et - k,
        {
            if es > blen - pos {
                proof {
                    lemma_mul_succ(k as int, es as int);
                    lemma_mul_le(k as int + 1, et, es as int);
                }
                return Err(Error::invalid("CTOC: body truncated inside the table entries"));
            }
            let e = read_entry(body, pos, ne, ns);
            entries.push(e);
            let mut j: usize = 25 + 4 * ne + ns;
            while j < es
                invariant
                    b == body@,
                    blen == b.len(),
                    hs == le_u32(b, 0),
                    es == le_u16(b, 28),
                    pos == hs + k * es,
                    pos + es <= blen,
                    k < et,
                    et == le_u32(b, 4),
                    ne == ctoc_ne(b),
                    ns == le_u16(b, 30),
                    25 + 4 * ne + ns <= j <= es,
                    forall|jj: int|
                        25 + 4 * ne + ns <= jj < j ==> #[trigger] ctoc_entry_byte(b, k as int, jj)
                            == 0,
                decreases es - j,
            {
                if body[pos + j] != 0 {
                    assert(ctoc_entry_byte(b, k as int, j as int) != 0);
                    return Err(Error::invalid("CTOC: nonzero pad byte in a table entry"));
                }
                j = j + 1;
            }
            proof {
                lemma_mul_succ(k as int, es as int);
            }
            pos = pos + es;
            k = k + 1;
        }
        if pos != blen {
            return Err(Error::invalid("CTOC: bytes after the last table entry"));
        }
        let c = CtocChunk {
            header_size,
            entries_total,
            entries_deleted,
            entries_unused,
            bytes_total,
            bytes_deleted,
            header_flags,
            entry_size,
            name_size,
            ex_hdr_usage,
            ex_ent_usage,
            ex_hdr_fields,
            header_pad,
            entries,
        };
        assert(c@.entries =~= ctoc_model_of(b).entries);
        Ok(c)
    }
}

/// Append the bytes of one entry, padded with zeros to `es`; `false`
/// (with `out` in an unspecified state) when the entry does not fit.
fn push_entry(out: &mut Vec<u8>, e: &CtocEntry, es: usize) -> (ok: bool)
    ensures
        ok <==> entry_core(e@).len() <= es,
        ok ==> final(out)@ == old(out)@ + entry_bytes(e@, es as int),
{
    let start = out.len();
    push_u32(out, e.offset);
    push_u32(out, e.size);
    push_u32(out, e.med_type);
    push_u32(out, e.med_usage);
    push_u32(out, e.compress_tech);
    push_u32(out, e.uncompress_bytes);
    push_u32s(out, e.ex_ent_fields.as_slice());
    out.push(e.flags);
    push_slice(out, e.name.as_slice());
    proof {
        lemma_u32s_layout(e.ex_ent_fields@);
        assert(out@ =~= old(out)@ + entry_core(e@));
    }
    let body_len = out.len() - start;
    if body_len > es {
        return false;
    }
    let ghost mid = out@;
    let mut i: usize = body_len;
    while i < es
        invariant
            body_len <= i <= es,
            out@ == mid + zeros(i - body_len),
        decreases es - i,
    {
        out.push(0u8);
        i += 1;
        assert(out@ =~= mid + zeros(i - body_len));
    }
    true
}

impl CtocChunk {
    /// The wire bytes of this `CTOC` body; the inverse of
    /// [`CtocChunk::parse`]. Fails when the value is not
    /// [`ctoc_encodable`]: the header usage and field arrays differ in
    /// length, `dwHeaderSize` does not account for exactly the header
    /// fields and pad, or an entry has the wrong field count or name
    /// width or does not fit in `wEntrySize`.
    pub fn encode_body(&self) -> (r: Result<Vec<u8>>)
        ensures
            r is Ok <==> ctoc_encodable(self@),
            r matches Ok(v) ==> v@ == ctoc_bytes(self@),
    {
        let mut out: Vec<u8> = Vec::new();
        push_u32(&mut out, self.header_size);
        push_u32(&mut out, self.entries_total);
        push_u32(&mut out, self.entries_deleted);
        push_u32(&mut out, self.entries_unused);
        push_u32(&mut out, self.bytes_total);
        push_u32(&mut out, self.bytes_deleted);
        push_u32(&mut out, self.header_flags);
        push_u16(&mut out, self.entry_size);
        push_u16(&mut out, self.name_size);
        let nh = self.ex_hdr_usage.len();
        let ne = self.ex_ent_usage.len();
        if nh != self.ex_hdr_fields.len() {
            return Err(Error::invalid("CTOC: awExHdrFldUsage length != adwExHdrField length"));
        }
        push_u16(&mut out, nh as u16);
        push_u16(&mut out, ne as u16);
        proof {
            assert(out@ =~= ctoc_fixed_bytes(self@));
        }
        push_u16s(&mut out, self.ex_hdr_usage.as_slice());
        push_u16s(&mut out, self.ex_ent_usage.as_slice());
        push_u32s(&mut out, self.ex_hdr_fields.as_slice());
        proof {
            lemma_u16s_layout(self.ex_hdr_usage@);
            lemma_u16s_layout(self.ex_ent_usage@);
            lemma_u32s_layout(self.ex_hdr_fields@);
        }
        let written = out.len();
        let hs = self.header_size as usize;
        if hs < written {
            return Err(Error::invalid("CTOC: dwHeaderSize smaller than the encoded header fields"));
        }
        if hs - written != self.header_pad.len() {
            return Err(Error::invalid("CTOC: header_pad length inconsistent with dwHeaderSize"));
        }
        push_slice(&mut out, self.header_pad.as_slice());
        let ghost prefix = out@;
        let ghost m = self@;
        let es = self.entry_size as usize;
        let ns = self.name_size as usize;
        let mut k: usize = 0;
        while k < self.entries.len()
            invariant
                m == self@,
                k <= self.entries@.len(),
                ne == m.ex_ent_usage.len(),
                es == m.entry_size,
                ns == m.name_size,
                out@ == prefix + entries_bytes(m.entries.subrange(0, k as int), es as int),
                forall|j: int|
                    0 <= j < k ==> {
                        &&& (#[trigger] m.entries[j]).ex_ent_fields.len() == ne
                        &&& m.entries[j].name.len() == ns
                        &&& 25 + 4 * ne + ns <= es
                    },
            decreases self.entries@.len() - k,
        {
            let e = &self.entries[k];
            assert(m.entries[k as int] == e@);
            if e.ex_ent_fields.len() != ne {
                return Err(Error::invalid("CTOC: entry adwExEntField length != awExEntFldUsage length"));
            }
            if e.name.len() != ns {
                return Err(Error::invalid("CTOC: entry achName length != wNameSize"));
            }
            proof {
                lemma_u32s_layout(e.ex_ent_fields@);
            }
            let ghost before = out@;
            if !push_entry(&mut out, e, es) {
                return Err(Error::invalid("CTOC: encoded entry exceeds wEntrySize"));
            }
            proof {
                let t0 = m.entries.subrange(0, k as int);
                let t1 = m.entries.subrange(0, k + 1);
                assert(t1 =~= t0.push(e@));
                assert(t1.map_values(|x: CtocEntryModel| entry_bytes(x, es as int)) =~= t0.map_values(
                    |x: CtocEntryModel| entry_bytes(x, es as int),
                ).push(entry_bytes(e@, es as int)));
                lemma_concat_push(
                    t0.map_values(|x: CtocEntryModel| entry_bytes(x, es as int)),
                    entry_bytes(e@, es as int),
                );
            }
            k += 1;
        }
        assert(m.entries.subrange(0, m.entries.len() as int) =~= m.entries);
        Ok(out)
    }
}

/// `CTOC` as a view.
pub open spec fn ctoc_id() -> Seq<u8> {
    seq![0x43u8, 0x54u8, 0x4Fu8, 0x43u8]
}

/// `CGRP` as a view.
pub open spec fn cgrp_id() -> Seq<u8> {
    seq![0x43u8, 0x47u8, 0x52u8, 0x50u8]
}

/// `true` for the compound-file FourCCs `CTOC` and `CGRP`.
pub fn is_compound_fourcc(id: &[u8; 4]) -> (r: bool)
    ensures
        r == (id@ == ctoc_id() || id@ == cgrp_id()),
{
    proof {
        assert(FOURCC_CTOC@ =~= ctoc_id());
        assert(FOURCC_CGRP@ =~= cgrp_id());
    }
    fourcc_eq(id, &FOURCC_CTOC) || fourcc_eq(id, &FOURCC_CGRP)
}

/// The bytes of the element `entry` indexes inside a `CGRP` payload.
/// Fails when the entry is marked deleted or unused, or when its span
/// runs past the payload.
pub fn element_bytes<'a>(cgrp_body: &'a [u8], entry: &CtocEntry) -> (r: Result<&'a [u8]>)
    ensures
        r is Ok <==> (entry.flags & 3u8 == 0 && entry.offset + entry.size <= cgrp_body@.len()),
        r matches Ok(s) ==> s@ == cgrp_body@.subrange(
            entry.offset as int,
            entry.offset + entry.size,
        ),
{
    assert(0x01u8 | 0x02u8 == 3u8) by (bit_vector);
    if entry.flags & (CTOC_EF_DELETED | CTOC_EF_UNUSED) != 0 {
        return Err(Error::invalid("CTOC: element is marked deleted or unused"));
    }
    let start = entry.offset as usize;
    let len = cgrp_body.len();
    if start > len || entry.size as usize > len - start {
        return Err(Error::invalid("CTOC: element overruns the CGRP body"));
    }
    let end = start + entry.size as usize;
    Ok(&cgrp_body[start..end])
}

/// The length of an entry's mandatory fields.
proof fn lemma_entry_core_len(e: CtocEntryModel)
    ensures
        entry_core(e).len() == 25 + 4 * e.ex_ent_fields.len() + e.name.len(),
{
    lemma_u32s_layout(e.ex_ent_fields);
}

/// Decoding the bytes of an entry gives the entry back.
#[verifier::spinoff_prover]
proof fn lemma_entry_roundtrip(b: Seq<u8>, off: int, e: CtocEntryModel, es: int)
    requires
        0 <= off,
        off + es <= b.len(),
        25 + 4 * e.ex_ent_fields.len() + e.name.len() <= es,
        b.subrange(off, off + es) == entry_bytes(e, es),
    ensures
        entry_at(b, off, e.ex_ent_fields.len() as int, e.name.len() as int) == e,
{
    let ne = e.ex_ent_fields.len() as int;
    let ns = e.name.len() as int;
    let x = entry_bytes(e, es);
    lemma_entry_core_len(e);
    lemma_u32s_layout(e.ex_ent_fields);
    let c = entry_core(e);
    assert(x.subrange(0, 4) =~= u32_bytes(e.offset));
    assert(x.subrange(4, 8) =~= u32_bytes(e.size));
    assert(x.subrange(8, 12) =~= u32_bytes(e.med_type));
    assert(x.subrange(12, 16) =~= u32_bytes(e.med_usage));
    assert(x.subrange(16, 20) =~= u32_bytes(e.compress_tech));
    assert(x.subrange(20, 24) =~= u32_bytes(e.uncompress_bytes));
    assert(x.subrange(24, 24 + 4 * ne) =~= u32s_bytes(e.ex_ent_fields));
    assert(x.subrange(25 + 4 * ne, 25 + 4 * ne + ns) =~= e.name);
    assert(x[24 + 4 * ne] == e.flags);
    lemma_sub(b, off, es, x, 0, 4);
    lemma_sub(b, off, es, x, 4, 8);
    lemma_sub(b, off, es, x, 8, 12);
    lemma_sub(b, off, es, x, 12, 16);
    lemma_sub(b, off, es, x, 16, 20);
    lemma_sub(b, off, es, x, 20, 24);
    lemma_sub(b, off, es, x, 24, 24 + 4 * ne);
    lemma_sub(b, off, es, x, 25 + 4 * ne, 25 + 4 * ne + ns);
    assert(b[off + 24 + 4 * ne] == b.subrange(off, off + es)[24 + 4 * ne]);
    lemma_u32_roundtrip(b, off, e.offset);
    lemma_u32_roundtrip(b, off + 4, e.size);
    lemma_u32_roundtrip(b, off + 8, e.med_type);
    lemma_u32_roundtrip(b, off + 12, e.med_usage);
    lemma_u32_roundtrip(b, off + 16, e.compress_tech);
    lemma_u32_roundtrip(b, off + 20, e.uncompress_bytes);
    lemma_u32s_roundtrip(b, off + 24, e.ex_ent_fields);
}

/// Encoding a decoded entry whose pad bytes are zero gives the bytes
/// back.
#[verifier::rlimit(60)]
#[verifier::spinoff_prover]
proof fn lemma_entry_bytes_of(b: Seq<u8>, off: int, ne: int, ns: int, es: int)
    requires
        0 <= off,
        0 <= ne,
        0 <= ns,
        25 + 4 * ne + ns <= es,
        off + es <= b.len(),
        forall|j: int| off + 25 + 4 * ne + ns <= j < off + es ==> #[trigger] b[j] == 0,
    ensures
        entry_bytes(entry_at(b, off, ne, ns), es) == b.subrange(off, off + es),
{
    let e = entry_at(b, off, ne, ns);
    lemma_u32_bytes_of_le(b, off);
    lemma_u32_bytes_of_le(b, off + 4);
    lemma_u32_bytes_of_le(b, off + 8);
    lemma_u32_bytes_of_le(b, off + 12);
    lemma_u32_bytes_of_le(b, off + 16);
    lemma_u32_bytes_of_le(b, off + 20);
    lemma_u32s_bytes_of(b, off + 24, ne as nat);
    lemma_entry_core_len(e);
    let c = entry_core(e);
    assert(c =~= b.subrange(off, off + 25 + 4 * ne + ns));
    assert(entry_bytes(e, es) =~= b.subrange(off, off + es));
}

proof fn lemma_entries_layout(es_m: Seq<CtocEntryModel>, es: int, ne: int, ns: int)
    requires
        0 <= ne,
        0 <= ns,
        25 + 4 * ne + ns <= es,
        forall|k: int|
            0 <= k < es_m.len() ==> (#[trigger] es_m[k]).ex_ent_fields.len() == ne
                && es_m[k].name.len() == ns,
    ensures
        entries_bytes(es_m, es).len() == es * es_m.len(),
        forall|k: int|
            0 <= k < es_m.len() ==> entries_bytes(es_m, es).subrange(es * k, es * k + es)
                == entry_bytes(#[trigger] es_m[k], es),
{
    let s = es_m.map_values(|e: CtocEntryModel| entry_bytes(e, es));
    assert(all_len(s, es)) by {
        assert forall|k: int| 0 <= k < s.len() implies (#[trigger] s[k]).len() == es by {
            lemma_entry_core_len(es_m[k]);
            assert(s[k] == entry_bytes(es_m[k], es));
        }
    }
    lemma_concat_fixed(s, es);
    assert forall|k: int| 0 <= k < es_m.len() implies entries_bytes(es_m, es).subrange(
        es * k,
        es * k + es,
    ) == entry_bytes(#[trigger] es_m[k], es) by {
        assert(s[k] == entry_bytes(es_m[k], es));
    }
}

#[verifier::spinoff_prover]
proof fn lemma_fixed_roundtrip(b: Seq<u8>, m: CtocModel)
    requires
        b.len() >= 36,
        b.subrange(0, 36) == ctoc_fixed_bytes(m),
    ensures
        le_u32(b, 0) == m.header_size,
        le_u32(b, 4) == m.entries_total,
        le_u32(b, 8) == m.entries_deleted,
        le_u32(b, 12) == m.entries_unused,
        le_u32(b, 16) == m.bytes_total,
        le_u32(b, 20) == m.bytes_deleted,
        le_u32(b, 24) == m.header_flags,
        le_u16(b, 28) == m.entry_size,
        le_u16(b, 30) == m.name_size,
        le_u16(b, 32) == m.ex_hdr_usage.len() as u16,
        le_u16(b, 34) == m.ex_ent_usage.len() as u16,
{
    let f = ctoc_fixed_bytes(m);
    assert(f.subrange(0, 4) =~= u32_bytes(m.header_size));
    assert(f.subrange(4, 8) =~= u32_bytes(m.entries_total));
    assert(f.subrange(8, 12) =~= u32_bytes(m.entries_deleted));
    assert(f.subrange(12, 16) =~= u32_bytes(m.entries_unused));
    assert(f.subrange(16, 20) =~= u32_bytes(m.bytes_total));
    assert(f.subrange(20, 24) =~= u32_bytes(m.bytes_deleted));
    assert(f.subrange(24, 28) =~= u32_bytes(m.header_flags));
    assert(f.subrange(28, 30) =~= u16_bytes(m.entry_size));
    assert(f.subrange(30, 32) =~= u16_bytes(m.name_size));
    assert(f.subrange(32, 34) =~= u16_bytes(m.ex_hdr_usage.len() as u16));
    assert(f.subrange(34, 36) =~= u16_bytes(m.ex_ent_usage.len() as u16));
    lemma_sub(b, 0, 36, f, 0, 4);
    lemma_sub(b, 0, 36, f, 4, 8);
    lemma_sub(b, 0, 36, f, 8, 12);
    lemma_sub(b, 0, 36, f, 12, 16);
    lemma_sub(b, 0, 36, f, 16, 20);
    lemma_sub(b, 0, 36, f, 20, 24);
    lemma_sub(b, 0, 36, f, 24, 28);
    lemma_sub(b, 0, 36, f, 28, 30);
    lemma_sub(b, 0, 36, f, 30, 32);
    lemma_sub(b, 0, 36, f, 32, 34);
    lemma_sub(b, 0, 36, f, 34, 36);
    lemma_u32_roundtrip(b, 0, m.header_size);
    lemma_u32_roundtrip(b, 4, m.entries_total);
    lemma_u32_roundtrip(b, 8, m.entries_deleted);
    lemma_u32_roundtrip(b, 12, m.entries_unused);
    lemma_u32_roundtrip(b, 16, m.bytes_total);
    lemma_u32_roundtrip(b, 20, m.bytes_deleted);
    lemma_u32_roundtrip(b, 24, m.header_flags);
    lemma_u16_roundtrip(b, 28, m.entry_size);
    lemma_u16_roundtrip(b, 30, m.name_size);
    lemma_u16_roundtrip(b, 32, m.ex_hdr_usage.len() as u16);
    lemma_u16_roundtrip(b, 34, m.ex_ent_usage.len() as u16);
}

#[verifier::spinoff_prover]
proof fn lemma_entries_roundtrip(
    b: Seq<u8>,
    hs: int,
    ents: Seq<CtocEntryModel>,
    es: int,
    ne: int,
    ns: int,
)
    requires
        0 <= hs,
        0 <= ne,
        0 <= ns,
        25 + 4 * ne + ns <= es,
        forall|k: int|
            0 <= k < ents.len() ==> (#[trigger] ents[k]).ex_ent_fields.len() == ne
                && ents[k].name.len() == ns,
        hs + es * ents.len() <= b.len(),
        b.subrange(hs, hs + es * ents.len()) == entries_bytes(ents, es),
    ensures
        forall|k: int| 0 <= k < ents.len() ==> entry_at(b, hs + k * es, ne, ns) == #[trigger] ents[k],
{
    let n = ents.len() as int;
    let eb = entries_bytes(ents, es);
    lemma_entries_layout(ents, es, ne, ns);
    assert forall|k: int| 0 <= k < n implies entry_at(b, hs + k * es, ne, ns) == #[trigger] ents[k] by {
        assert(es * k + es <= es * n) by (nonlinear_arith)
            requires
                0 <= k < n,
                0 <= es,
        ;
        assert(0 <= es * k) by (nonlinear_arith)
            requires
                0 <= k,
                0 <= es,
        ;
        assert(es * k == k * es) by (nonlinear_arith);
        lemma_sub(b, hs, es * n, eb, es * k, es * k + es);
        lemma_entry_roundtrip(b, hs + es * k, ents[k], es);
    }
}

/// Encoding a `CTOC` value and decoding the bytes gives the value back,
/// provided its usage arrays fit their 16-bit counts, `dwEntriesTotal`
/// counts its entries, and `wEntrySize` leaves room for the mandatory
/// entry fields even when there are no entries.
#[verifier::spinoff_prover]
#[verifier::rlimit(100)]
pub proof fn lemma_ctoc_encode_parse(m: CtocModel)
    requires
        ctoc_encodable(m),
        m.ex_hdr_usage.len() <= 0xFFFF,
        m.ex_ent_usage.len() <= 0xFFFF,
        m.entries_total == m.entries.len(),
        25 + 4 * m.ex_ent_usage.len() + m.name_size <= m.entry_size,
    ensures
        ctoc_parse_ok(ctoc_bytes(m)),
        ctoc_model_of(ctoc_bytes(m)) == m,
{
    let b = ctoc_bytes(m);
    let nh = m.ex_hdr_usage.len() as int;
    let ne = m.ex_ent_usage.len() as int;
    let ns = m.name_size as int;
    let es = m.entry_size as int;
    let hs = m.header_size as int;
    let n = m.entries.len() as int;
    lemma_u16s_layout(m.ex_hdr_usage);
    lemma_u16s_layout(m.ex_ent_usage);
    lemma_u32s_layout(m.ex_hdr_fields);
    lemma_entries_layout(m.entries, es, ne, ns);
    let eb = entries_bytes(m.entries, es);
    assert(b.len() == hs + es * n);
    assert(b.subrange(0, 36) =~= ctoc_fixed_bytes(m));
    lemma_fixed_roundtrip(b, m);
    assert(b.subrange(36, 36 + 2 * nh) =~= u16s_bytes(m.ex_hdr_usage));
    assert(b.subrange(36 + 2 * nh, 36 + 2 * nh + 2 * ne) =~= u16s_bytes(m.ex_ent_usage));
    assert(b.subrange(36 + 2 * nh + 2 * ne, 36 + 6 * nh + 2 * ne) =~= u32s_bytes(
        m.ex_hdr_fields,
    ));
    lemma_u16s_roundtrip(b, 36, m.ex_hdr_usage);
    lemma_u16s_roundtrip(b, 36 + 2 * nh, m.ex_ent_usage);
    lemma_u32s_roundtrip(b, 36 + 2 * nh + 2 * ne, m.ex_hdr_fields);
    assert(b.subrange(36 + 6 * nh + 2 * ne, hs) =~= m.header_pad);
    assert(b.subrange(hs, hs + es * n) =~= eb);
    lemma_entries_roundtrip(b, hs, m.entries, es, ne, ns);
    assert(es * n == n * es) by (nonlinear_arith);
    lemma_encoded_pads_zero(m, b, eb);
    let md = ctoc_model_of(b);
    assert(md.entries =~= m.entries);
}

/// The entries of an encoded `CTOC` body are padded with zeros.
proof fn lemma_encoded_pads_zero(m: CtocModel, b: Seq<u8>, eb: Seq<u8>)
    requires
        0 <= m.header_size,
        25 + 4 * m.ex_ent_usage.len() + m.name_size <= m.entry_size,
        forall|k: int|
            0 <= k < m.entries.len() ==> (#[trigger] m.entries[k]).ex_ent_fields.len()
                == m.ex_ent_usage.len() && m.entries[k].name.len() == m.name_size,
        eb == entries_bytes(m.entries, m.entry_size as int),
        forall|k: int|
            0 <= k < m.entries.len() ==> eb.subrange(
                m.entry_size * k,
                m.entry_size * k + m.entry_size,
            ) == entry_bytes(#[trigger] m.entries[k], m.entry_size as int),
        eb.len() == m.entry_size * m.entries.len(),
        b.len() == m.header_size + eb.len(),
        b.subrange(m.header_size as int, b.len() as int) == eb,
        le_u32(b, 0) == m.header_size,
        le_u32(b, 4) == m.entries.len(),
        le_u16(b, 28) == m.entry_size,
        le_u16(b, 30) == m.name_size,
        ctoc_ne(b) == m.ex_ent_usage.len(),
    ensures
        ctoc_pads_zero(b),
{
    let hs = m.header_size as int;
    let es = m.entry_size as int;
    let n = m.entries.len() as int;
    let lo = 25 + 4 * ctoc_ne(b) + le_u16(b, 30);
    assert forall|k: int, j: int|
        0 <= k < le_u32(b, 4) && lo <= j < le_u16(b, 28) implies #[trigger] ctoc_entry_byte(
        b,
        k,
        j,
    ) == 0 by {
        let e = m.entries[k];
        lemma_entry_core_len(e);
        assert(k * es == es * k) by (nonlinear_arith);
        assert(0 <= es * k && es * k + es <= es * n) by (nonlinear_arith)
            requires
                0 <= k < n,
                0 <= es,
        ;
        let x = eb.subrange(es * k, es * k + es);
        assert(x == entry_bytes(e, es));
        assert(x[j] == eb[es * k + j]);
        assert(eb[es * k + j] == b[hs + es * k + j]);
        assert(entry_bytes(e, es)[j] == zeros(es - entry_core(e).len())[j - entry_core(e).len()]);
    }
}

/// Byte `j` of table entry `k` of a `CTOC` body.
pub open spec fn ctoc_entry_byte(b: Seq<u8>, k: int, j: int) -> u8 {
    b[le_u32(b, 0) + k * le_u16(b, 28) + j]
}

/// Every entry's pad bytes (those after its name) are zero.
pub open spec fn ctoc_pads_zero(b: Seq<u8>) -> bool {
    forall|k: int, j: int|
        0 <= k < le_u32(b, 4) && 25 + 4 * ctoc_ne(b) + le_u16(b, 30) <= j < le_u16(b, 28)
            ==> #[trigger] ctoc_entry_byte(b, k, j) == 0
}

proof fn lemma_fixed_bytes_of(b: Seq<u8>)
    requires
        b.len() >= 36,
    ensures
        ctoc_fixed_bytes(ctoc_model_of(b)) == b.subrange(0, 36),
{
    let m = ctoc_model_of(b);
    lemma_u32_bytes_of_le(b, 0);
    lemma_u32_bytes_of_le(b, 4);
    lemma_u32_bytes_of_le(b, 8);
    lemma_u32_bytes_of_le(b, 12);
    lemma_u32_bytes_of_le(b, 16);
    lemma_u32_bytes_of_le(b, 20);
    lemma_u32_bytes_of_le(b, 24);
    lemma_u16_bytes_of_le(b, 28);
    lemma_u16_bytes_of_le(b, 30);
    lemma_u16_bytes_of_le(b, 32);
    lemma_u16_bytes_of_le(b, 34);
    assert(m.ex_hdr_usage.len() as u16 == le_u16(b, 32));
    assert(m.ex_ent_usage.len() as u16 == le_u16(b, 34));
    assert(ctoc_fixed_bytes(m) =~= b.subrange(0, 36));
}

proof fn lemma_entries_bytes_of(b: Seq<u8>)
    requires
        ctoc_parse_ok(b),
    ensures
        entries_bytes(ctoc_model_of(b).entries, le_u16(b, 28) as int) == b.subrange(
            le_u32(b, 0) as int,
            b.len() as int,
        ),
{
    let m = ctoc_model_of(b);
    let hs = le_u32(b, 0) as int;
    let n = le_u32(b, 4) as int;
    let es = le_u16(b, 28) as int;
    let ns = le_u16(b, 30) as int;
    let ne = ctoc_ne(b);
    let s = m.entries.map_values(|e: CtocEntryModel| entry_bytes(e, es));
    assert(hs + es * n == b.len()) by (nonlinear_arith)
        requires
            b.len() == hs + n * es,
    ;
    assert forall|k: int| 0 <= k < s.len() implies #[trigger] s[k] == b.subrange(
        hs + es * k,
        hs + es * k + es,
    ) by {
        assert(es * k == k * es) by (nonlinear_arith);
        assert(es * k + es <= es * n) by (nonlinear_arith)
            requires
                0 <= k < n,
                0 <= es,
        ;
        assert(0 <= es * k) by (nonlinear_arith)
            requires
                0 <= k,
                0 <= es,
        ;
        let off = hs + k * es;
        assert forall|j: int| off + 25 + 4 * ne + ns <= j < off + es implies #[trigger] b[j]
            == 0 by {
            assert(ctoc_entry_byte(b, k, j - off) == 0);
        }
        lemma_entry_bytes_of(b, off, ne, ns, es);
        assert(s[k] == entry_bytes(m.entries[k], es));
    }
    lemma_concat_slices(s, b, hs, es);
}

/// Decoding a `CTOC` body and encoding the result gives the body back,
/// provided the body ends with its last entry and every entry's pad
/// bytes are zero (the encoder writes zero pads and nothing after the
/// table).
#[verifier::spinoff_prover]
#[verifier::rlimit(100)]
pub proof fn lemma_ctoc_parse_encode(b: Seq<u8>)
    requires
        ctoc_parse_ok(b),
    ensures
        ctoc_encodable(ctoc_model_of(b)),
        ctoc_bytes(ctoc_model_of(b)) == b,
{
    let m = ctoc_model_of(b);
    let hs = le_u32(b, 0) as int;
    let nh = ctoc_nh(b);
    let ne = ctoc_ne(b);
    lemma_fixed_bytes_of(b);
    lemma_u16s_bytes_of(b, 36, nh as nat);
    lemma_u16s_bytes_of(b, 36 + 2 * nh, ne as nat);
    lemma_u32s_bytes_of(b, 36 + 2 * nh + 2 * ne, nh as nat);
    lemma_entries_bytes_of(b);
    let a1 = 36 + 2 * nh;
    let a2 = a1 + 2 * ne;
    let a3 = a2 + 4 * nh;
    let len = b.len() as int;
    assert(ctoc_bytes(m) == b.subrange(0, 36) + b.subrange(36, a1) + b.subrange(a1, a2)
        + b.subrange(a2, a3) + b.subrange(a3, hs) + b.subrange(hs, len));
    lemma_join(b, 0, 36, a1);
    lemma_join(b, 0, a1, a2);
    lemma_join(b, 0, a2, a3);
    lemma_join(b, 0, a3, hs);
    lemma_join(b, 0, hs, len);
    assert(b.subrange(0, len) =~= b);
    lemma_model_encodable(b);
}

proof fn lemma_model_encodable(b: Seq<u8>)
    requires
        ctoc_parse_ok(b),
    ensures
        ctoc_encodable(ctoc_model_of(b)),
{
    let m = ctoc_model_of(b);
    assert forall|k: int| 0 <= k < m.entries.len() implies {
        &&& (#[trigger] m.entries[k]).ex_ent_fields.len() == m.ex_ent_usage.len()
        &&& m.entries[k].name.len() == m.name_size
        &&& 25 + 4 * m.ex_ent_usage.len() + m.name_size <= m.entry_size
    } by {
        let hs = le_u32(b, 0) as int;
        let es = le_u16(b, 28) as int;
        let et = le_u32(b, 4) as int;
        assert(0 <= k * es) by (nonlinear_arith)
            requires
                0 <= k,
                0 <= es,
        ;
        assert(k * es + es <= et * es) by (nonlinear_arith)
            requires
                0 <= k < et,
                0 <= es,
        ;
        assert(m.entries[k] == entry_at(b, hs + k * es, ctoc_ne(b), le_u16(b, 30) as int));
    }
}

} // verus!
