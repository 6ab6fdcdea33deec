//! The RF64 / BW64 `ds64` (data-size-64) chunk.
//!
//! A plain RIFF file stores every size in 32 bits. An `RF64` (or the
//! ADM-carrying `BW64`) file sets the oversized 32-bit fields to the
//! sentinel `0xFFFFFFFF` and carries their real 64-bit values in a
//! `ds64` chunk:
//!
//! ```text
//! riffSize     : u64 (low word, high word; both little-endian)
//! dataSize     : u64
//! sampleCount  : u64
//! tableLength  : u32
//! table        : tableLength records of { FOURCC chunkId; u64 size }
//! ```
use vstd::prelude::*;

use crate::error::{Error, Result};
use crate::le::{
    le_u32, le_u64, lemma_u32_bytes_of_le, lemma_u32_roundtrip, lemma_u64_bytes_of_le,
    lemma_u64_roundtrip, push_u32, push_u64, read_u32, read_u64, u32_bytes, u64_bytes,
};
use crate::records::{all_len, concat, lemma_concat_fixed, lemma_concat_push, lemma_concat_slices};

verus! {

/// FourCC of the RF64 outer wrapper (`RF64`).
pub const FOURCC_RF64: [u8; 4] = [0x52, 0x46, 0x36, 0x34];

/// FourCC of the ADM-carrying BW64 outer wrapper (`BW64`).
pub const FOURCC_BW64: [u8; 4] = [0x42, 0x57, 0x36, 0x34];

/// FourCC of the data-size-64 chunk (`ds64`).
pub const FOURCC_DS64: [u8; 4] = [0x64, 0x73, 0x36, 0x34];

/// Size of one `<chunkSize64>` table record.
pub const CHUNK_SIZE64_LEN: usize = 12;

/// Size of the fixed `ds64` prefix before the table.
pub const DS64_PREFIX_LEN: usize = 28;

/// The 32-bit size value that defers to the `ds64` chunk.
pub const SIZE_SENTINEL: u32 = 0xFFFF_FFFF;

/// The view of `RF64`.
pub open spec fn rf64_id() -> Seq<u8> {
    seq![0x52u8, 0x46u8, 0x36u8, 0x34u8]
}

/// The view of `BW64`.
pub open spec fn bw64_id() -> Seq<u8> {
    seq![0x42u8, 0x57u8, 0x36u8, 0x34u8]
}

/// The view of `ds64`.
pub open spec fn ds64_id() -> Seq<u8> {
    seq![0x64u8, 0x73u8, 0x36u8, 0x34u8]
}

/// `true` if `value` is the `0xFFFFFFFF` deferral sentinel.
pub fn is_sentinel(value: u32) -> (r: bool)
    ensures
        r == (value == SIZE_SENTINEL),
{
    value == SIZE_SENTINEL
}

/// `true` if `magic` is `RF64` or `BW64`.
pub fn is_rf64_magic(magic: &[u8; 4]) -> (r: bool)
    ensures
        r == (magic@ == rf64_id() || magic@ == bw64_id()),
{
    let a = magic[0] == 0x52 && magic[1] == 0x46 && magic[2] == 0x36 && magic[3] == 0x34;
    let b = magic[0] == 0x42 && magic[1] == 0x57 && magic[2] == 0x36 && magic[3] == 0x34;
    proof {
        if a {
            assert(magic@ =~= rf64_id());
        }
        if b {
            assert(magic@ =~= bw64_id());
        }
        if magic@ == rf64_id() {
            assert(magic@[0] == 0x52 && magic@[1] == 0x46 && magic@[2] == 0x36 && magic@[3]
                == 0x34);
        }
        if magic@ == bw64_id() {
            assert(magic@[0] == 0x42 && magic@[1] == 0x57 && magic@[2] == 0x36 && magic@[3]
                == 0x34);
        }
    }
    a || b
}

/// One `<chunkSize64>` table entry: the real 64-bit size of an
/// oversized non-`data` chunk.
#[derive(Clone, Copy, Debug, PartialEq, Eq, Hash)]
pub struct ChunkSize64 {
    /// FourCC of the chunk the entry sizes.
    pub chunk_id: [u8; 4],
    /// Its real 64-bit size.
    pub size: u64,
}

/// The 12 wire bytes of a table entry.
pub open spec fn record_bytes(e: ChunkSize64) -> Seq<u8> {
    e.chunk_id@ + u64_bytes(e.size)
}

/// The table entry stored at `s[off..off + 12]`.
pub open spec fn record_at(s: Seq<u8>, off: int) -> ChunkSize64 {
    ChunkSize64 { chunk_id: [s[off], s[off + 1], s[off + 2], s[off + 3]], size: le_u64(s, off + 4) }
}

/// Decoding the bytes of an entry gives the entry back.
#[verifier::spinoff_prover]
pub proof fn lemma_record_roundtrip(s: Seq<u8>, off: int, e: ChunkSize64)
    requires
        0 <= off,
        off + 12 <= s.len(),
        s.subrange(off, off + 12) == record_bytes(e),
    ensures
        record_at(s, off) == e,
{
    let ub = u64_bytes(e.size);
    let b = e.chunk_id@ + ub;
    assert(b.subrange(4, 12) =~= ub);
    assert(s.subrange(off + 4, off + 12) =~= s.subrange(off, off + 12).subrange(4, 12));
    lemma_u64_roundtrip(s, off + 4, e.size);
    assert(s[off] == b[0] && s[off + 1] == b[1] && s[off + 2] == b[2] && s[off + 3] == b[3]) by {
        assert(s.subrange(off, off + 12)[0] == s[off]);
        assert(s.subrange(off, off + 12)[1] == s[off + 1]);
        assert(s.subrange(off, off + 12)[2] == s[off + 2]);
        assert(s.subrange(off, off + 12)[3] == s[off + 3]);
    }
    assert(record_at(s, off).chunk_id =~= e.chunk_id);
}

/// Encoding a decoded entry gives the same bytes back.
pub proof fn lemma_record_bytes_of(s: Seq<u8>, off: int)
    requires
        0 <= off,
        off + 12 <= s.len(),
    ensures
        record_bytes(record_at(s, off)) == s.subrange(off, off + 12),
{
    lemma_u64_bytes_of_le(s, off + 4);
    assert(record_bytes(record_at(s, off)) =~= s.subrange(off, off + 12));
}

impl ChunkSize64 {
    /// Decode one 12-byte table record; any other length is an error.
    pub fn parse(raw: &[u8]) -> (r: Result<Self>)
        ensures
            r is Ok <==> raw@.len() == CHUNK_SIZE64_LEN,
            r matches Ok(e) ==> e == record_at(raw@, 0),
    {
        if raw.len() != CHUNK_SIZE64_LEN {
            return Err(Error::invalid("RIFF: ds64 table record is not 12 bytes"));
        }
        Ok(ChunkSize64 { chunk_id: [raw[0], raw[1], raw[2], raw[3]], size: read_u64(raw, 4) })
    }

    /// The 12 wire bytes of this entry; the exact inverse of
    /// [`ChunkSize64::parse`].
    pub fn encode(&self) -> (r: [u8; 12])
        ensures
            r@ == record_bytes(*self),
    {
        let lo = (self.size % 4294967296) as u32;
        let hi = (self.size / 4294967296) as u32;
        let r = [
            self.chunk_id[0],
            self.chunk_id[1],
            self.chunk_id[2],
            self.chunk_id[3],
            (lo % 256) as u8,
            ((lo / 256) % 256) as u8,
            ((lo / 65536) % 256) as u8,
            (lo / 16777216) as u8,
            (hi % 256) as u8,
            ((hi / 256) % 256) as u8,
            ((hi / 65536) % 256) as u8,
            (hi / 16777216) as u8,
        ];
        assert(r@ =~= record_bytes(*self));
        r
    }
}

/// The mathematical content of a `ds64` chunk.
pub struct Ds64Model {
    pub riff_size: u64,
    pub data_size: u64,
    pub sample_count: u64,
    pub table: Seq<ChunkSize64>,
}

/// A decoded `ds64` chunk: the three mandatory 64-bit values and the
/// size-override table.
#[derive(Clone, Debug, PartialEq, Eq)]
pub struct DataSize64 {
    /// Real size of the RF64/BW64 block.
    pub riff_size: u64,
    /// Real size of the `data` chunk.
    pub data_size: u64,
    /// Real per-channel sample count.
    pub sample_count: u64,
    /// Size-override table: one entry per oversized non-`data` chunk.
    pub table: Vec<ChunkSize64>,
}

impl View for DataSize64 {
    type V = Ds64Model;

    open spec fn view(&self) -> Ds64Model {
        Ds64Model {
            riff_size: self.riff_size,
            data_size: self.data_size,
            sample_count: self.sample_count,
            table: self.table@,
        }
    }
}

impl Default for DataSize64 {
    fn default() -> (r: Self)
        ensures
            r@ == (Ds64Model {
                riff_size: 0,
                data_size: 0,
                sample_count: 0,
                table: Seq::<ChunkSize64>::empty(),
            }),
    {
        let r = DataSize64 { riff_size: 0, data_size: 0, sample_count: 0, table: Vec::new() };
        assert(r@.table =~= Seq::<ChunkSize64>::empty());
        r
    }
}

/// The number of table records a `ds64` body declares.
pub open spec fn ds64_table_len(body: Seq<u8>) -> nat {
    le_u32(body, 24) as nat
}

/// `true` if `body` is a well-formed `ds64` body: the 28-byte prefix
/// followed by exactly `tableLength` records.
pub open spec fn ds64_valid(body: Seq<u8>) -> bool {
    body.len() >= 28 && body.len() - 28 == 12 * ds64_table_len(body)
}

/// The content of a well-formed `ds64` body.
pub open spec fn ds64_model_of(body: Seq<u8>) -> Ds64Model {
    Ds64Model {
        riff_size: le_u64(body, 0),
        data_size: le_u64(body, 8),
        sample_count: le_u64(body, 16),
        table: Seq::new(ds64_table_len(body), |i: int| record_at(body, 28 + 12 * i)),
    }
}

/// The wire bytes of the records of a table.
pub open spec fn table_bytes(t: Seq<ChunkSize64>) -> Seq<u8> {
    concat(t.map_values(|e: ChunkSize64| record_bytes(e)))
}

/// The wire bytes of a `ds64` body.
pub open spec fn ds64_bytes(m: Ds64Model) -> Seq<u8> {
    u64_bytes(m.riff_size) + u64_bytes(m.data_size) + u64_bytes(m.sample_count) + u32_bytes(
        m.table.len() as u32,
    ) + table_bytes(m.table)
}

/// The first table entry for `id`, if any.
pub open spec fn size_for_in(t: Seq<ChunkSize64>, id: Seq<u8>) -> Option<u64>
    decreases t.len(),
{
    if t.len() == 0 {
        None
    } else if t[0].chunk_id@ == id {
        Some(t[0].size)
    } else {
        size_for_in(t.drop_first(), id)
    }
}

proof fn lemma_table_bytes_len(t: Seq<ChunkSize64>)
    ensures
        all_len(t.map_values(|e: ChunkSize64| record_bytes(e)), 12),
        table_bytes(t).len() == 12 * t.len(),
        forall|i: int|
            0 <= i < t.len() ==> table_bytes(t).subrange(12 * i, 12 * i + 12) == record_bytes(
                #[trigger] t[i],
            ),
{
    let s = t.map_values(|e: ChunkSize64| record_bytes(e));
    assert(all_len(s, 12)) by {
        assert forall|i: int| 0 <= i < s.len() implies (#[trigger] s[i]).len() == 12 by {
            assert(s[i] == record_bytes(t[i]));
        }
    }
    lemma_concat_fixed(s, 12);
    assert forall|i: int| 0 <= i < t.len() implies table_bytes(t).subrange(12 * i, 12 * i + 12)
        == record_bytes(#[trigger] t[i]) by {
        assert(s[i] == record_bytes(t[i]));
    }
}

/// Encoding then decoding a `ds64` body gives the same content back.
#[verifier::spinoff_prover]
#[verifier::rlimit(30)]
pub proof fn lemma_ds64_encode_parse(m: Ds64Model)
    requires
        m.table.len() <= u32::MAX,
    ensures
        ds64_valid(ds64_bytes(m)),
        ds64_model_of(ds64_bytes(m)) == m,
{
    let b = ds64_bytes(m);
    lemma_table_bytes_len(m.table);
    let p0 = u64_bytes(m.riff_size);
    let p1 = u64_bytes(m.data_size);
    let p2 = u64_bytes(m.sample_count);
    let p3 = u32_bytes(m.table.len() as u32);
    let tb = table_bytes(m.table);
    assert(b.subrange(0, 8) =~= p0);
    assert(b.subrange(8, 16) =~= p1);
    assert(b.subrange(16, 24) =~= p2);
    assert(b.subrange(24, 28) =~= p3);
    lemma_u64_roundtrip(b, 0, m.riff_size);
    lemma_u64_roundtrip(b, 8, m.data_size);
    lemma_u64_roundtrip(b, 16, m.sample_count);
    lemma_u32_roundtrip(b, 24, m.table.len() as u32);
    let md = ds64_model_of(b);
    assert forall|i: int| 0 <= i < m.table.len() implies md.table[i] == m.table[i] by {
        assert(tb.subrange(12 * i, 12 * i + 12) == record_bytes(m.table[i]));
        assert(b.subrange(28 + 12 * i, 28 + 12 * i + 12) =~= tb.subrange(12 * i, 12 * i + 12));
        lemma_record_roundtrip(b, 28 + 12 * i, m.table[i]);
    }
    assert(md.table =~= m.table);
}

/// Decoding then encoding a well-formed `ds64` body gives the same
/// bytes back.
#[verifier::spinoff_prover]
pub proof fn lemma_ds64_parse_encode(body: Seq<u8>)
    requires
        ds64_valid(body),
    ensures
        ds64_bytes(ds64_model_of(body)) == body,
{
    let m = ds64_model_of(body);
    let n = ds64_table_len(body);
    lemma_u64_bytes_of_le(body, 0);
    lemma_u64_bytes_of_le(body, 8);
    lemma_u64_bytes_of_le(body, 16);
    lemma_u32_bytes_of_le(body, 24);
    let s = m.table.map_values(|e: ChunkSize64| record_bytes(e));
    assert forall|i: int| 0 <= i < s.len() implies #[trigger] s[i] == body.subrange(
        28 + 12 * i,
        28 + 12 * i + 12,
    ) by {
        lemma_record_bytes_of(body, 28 + 12 * i);
    }
    lemma_concat_slices(s, body, 28, 12);
    assert(ds64_bytes(m) =~= body);
}

impl DataSize64 {
    /// Decode a `ds64` body: the 28-byte prefix followed by exactly
    /// `tableLength` 12-byte records. A shorter body, or one whose table
    /// length disagrees with its record bytes, is an error.
    pub fn parse(body: &[u8]) -> (r: Result<Self>)
        ensures
            r is Ok <==> ds64_valid(body@),
            r matches Ok(ds) ==> ds@ == ds64_model_of(body@),
    {
        if body.len() < DS64_PREFIX_LEN {
            return Err(Error::invalid("RIFF: ds64 chunk shorter than 28-byte prefix"));
        }
        let riff_size = read_u64(body, 0);
        let data_size = read_u64(body, 8);
        let sample_count = read_u64(body, 16);
        let table_length = read_u32(body, 24);
        let rest = body.len() - DS64_PREFIX_LEN;
        if rest / CHUNK_SIZE64_LEN != table_length as usize || rest % CHUNK_SIZE64_LEN != 0 {
            return Err(Error::invalid("RIFF: ds64 body length disagrees with tableLength"));
        }
        let mut table: Vec<ChunkSize64> = Vec::new();
        let mut i: usize = 0;
        while i < table_length as usize
            invariant
                body@.len() == 28 + 12 * table_length,
                body@.len() <= usize::MAX,
                table_length == ds64_table_len(body@),
                i <= table_length,
                table@.len() == i,
                forall|j: int| 0 <= j < i ==> table@[j] == record_at(body@, 28 + 12 * j),
            decreases table_length - i,
        {
            assert(28 + 12 * i + 12 <= body@.len()) by (nonlinear_arith)
                requires
                    i < table_length,
                    body@.len() == 28 + 12 * table_length,
            ;
            let off = 28 + 12 * i;
            let e = ChunkSize64 {
                chunk_id: [body[off], body[off + 1], body[off + 2], body[off + 3]],
                size: read_u64(body, off + 4),
            };
            table.push(e);
            i += 1;
        }
        let ds = DataSize64 { riff_size, data_size, sample_count, table };
        assert(ds@.table =~= ds64_model_of(body@).table);
        Ok(ds)
    }

    /// Build a `ds64` from its three values and a size-override table.
    pub fn new(riff_size: u64, data_size: u64, sample_count: u64, table: Vec<ChunkSize64>) -> (r:
        Self)
        ensures
            r@ == (Ds64Model { riff_size, data_size, sample_count, table: table@ }),
    {
        DataSize64 { riff_size, data_size, sample_count, table }
    }

    /// Append a size override, returning the extended value.
    pub fn with_override(self, chunk_id: [u8; 4], size: u64) -> (r: Self)
        ensures
            r@ == (Ds64Model {
                table: self@.table.push(ChunkSize64 { chunk_id, size }),
                ..self@
            }),
    {
        let mut s = self;
        s.table.push(ChunkSize64 { chunk_id, size });
        s
    }

    /// The size-override table in wire order.
    pub fn table(&self) -> (r: &[ChunkSize64])
        ensures
            r@ == self@.table,
    {
        self.table.as_slice()
    }

    /// The size of the first table entry whose FourCC is `chunk_id`.
    pub fn size_for(&self, chunk_id: &[u8; 4]) -> (r: Option<u64>)
        ensures
            r == size_for_in(self@.table, chunk_id@),
    {
        let t = &self.table;
        assert(self@.table == t@);
        let mut i: usize = 0;
        assert(t@.subrange(0, t@.len() as int) =~= t@);
        while i < t.len()
            invariant
                i <= t@.len(),
                t@ == self@.table,
                size_for_in(t@, chunk_id@) == size_for_in(t@.subrange(i as int, t@.len() as int), chunk_id@),
            decreases t@.len() - i,
        {
            let ghost rest = t@.subrange(i as int, t@.len() as int);
            assert(rest.drop_first() =~= t@.subrange(i + 1, t@.len() as int));
            assert(rest[0] == t@[i as int]);
            if crate::chunk::fourcc_eq(&t[i].chunk_id, chunk_id) {
                assert(size_for_in(rest, chunk_id@) == Some(t@[i as int].size));
                return Some(t[i].size);
            }
            i += 1;
        }
        None
    }

    /// The real size of a chunk whose header says `ck_size`: the value
    /// itself unless it is the sentinel, in which case the table entry
    /// for `chunk_id` (none if the table has no entry).
    pub fn resolve(&self, chunk_id: &[u8; 4], ck_size: u32) -> (r: Option<u64>)
        ensures
            r == (if ck_size == SIZE_SENTINEL {
                size_for_in(self@.table, chunk_id@)
            } else {
                Some(ck_size as u64)
            }),
    {
        if is_sentinel(ck_size) {
            self.size_for(chunk_id)
        } else {
            Some(ck_size as u64)
        }
    }

    /// The wire bytes of this `ds64` body; the exact inverse of
    /// [`DataSize64::parse`].
    pub fn encode_body(&self) -> (r: Vec<u8>)
        ensures
            r@ == ds64_bytes(self@),
    {
        let mut out: Vec<u8> = Vec::new();
        push_u64(&mut out, self.riff_size);
        push_u64(&mut out, self.data_size);
        push_u64(&mut out, self.sample_count);
        push_u32(&mut out, self.table.len() as u32);
        let ghost prefix = out@;
        let mut i: usize = 0;
        while i < self.table.len()
            invariant
                i <= self.table@.len(),
                out@ == prefix + table_bytes(self.table@.subrange(0, i as int)),
            decreases self.table@.len() - i,
        {
            let rec = self.table[i].encode();
            let mut k: usize = 0;
            let ghost before = out@;
            while k < 12
                invariant
                    k <= 12,
                    out@ == before + rec@.subrange(0, k as int),
                decreases 12 - k,
            {
                out.push(rec[k]);
                k += 1;
                assert(out@ =~= before + rec@.subrange(0, k as int));
            }
            proof {
                let t0 = self.table@.subrange(0, i as int);
                let t1 = self.table@.subrange(0, i + 1);
                assert(t1 =~= t0.push(self.table@[i as int]));
                assert(t1.map_values(|e: ChunkSize64| record_bytes(e)) =~= t0.map_values(
                    |e: ChunkSize64| record_bytes(e),
                ).push(record_bytes(self.table@[i as int])));
                lemma_concat_push(
                    t0.map_values(|e: ChunkSize64| record_bytes(e)),
                    record_bytes(self.table@[i as int]),
                );
                assert(rec@.subrange(0, 12) =~= rec@);
            }
            i += 1;
        }
        assert(self.table@.subrange(0, self.table@.len() as int) =~= self.table@);
        out
    }
}

/// An override appended with [`DataSize64::with_override`] is what
/// [`DataSize64::size_for`] reports for its FourCC, unless the table
/// already held a record for that FourCC (the first record wins); the
/// lookups of every other FourCC are unchanged.
pub proof fn lemma_override_lookup(t: Seq<ChunkSize64>, chunk_id: [u8; 4], size: u64, other: Seq<u8>)
    requires
        other != chunk_id@,
    ensures
        size_for_in(t.push(ChunkSize64 { chunk_id, size }), chunk_id@) == (match size_for_in(
            t,
            chunk_id@,
        ) {
            Some(old) => Some(old),
            None => Some(size),
        }),
        size_for_in(t.push(ChunkSize64 { chunk_id, size }), other) == size_for_in(t, other),
    decreases t.len(),
{
    let e = ChunkSize64 { chunk_id, size };
    if t.len() == 0 {
        assert(t.push(e).drop_first() =~= Seq::<ChunkSize64>::empty());
        assert(t.push(e)[0] == e);
        assert(size_for_in(Seq::<ChunkSize64>::empty(), other) is None);
    } else {
        lemma_override_lookup(t.drop_first(), chunk_id, size, other);
        assert(t.push(e).drop_first() =~= t.drop_first().push(e));
        assert(t.push(e)[0] == t[0]);
    }
}

} // verus!
