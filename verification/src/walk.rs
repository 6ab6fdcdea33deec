//! A non-recursive walker over the children of one group chunk.
//!
//! [`Walker`] yields successive children of a parent group chunk as
//! [`ChunkRef`] descriptors while enforcing the parent's `ckSize`
//! budget: it stops cleanly when the consumed bytes equal the parent
//! payload length, rejects a child whose body would overflow that
//! budget, and reports a truncated parent when the input ends early.
//!
//! To descend into a `LIST` child, build a nested walker with
//! [`Walker::open_within`] over a copy of the outer walker's
//! [`Walker::reader`], then [`Walker::skip`] the child on the outer one.
use vstd::prelude::*;

use crate::chunk::{
    fourcc_eq, is_group_id, padded, read_chunk_header, read_form_type, riff_id, spec_header_at,
    ByteReader, ChunkHeader, FOURCC_LIST, FOURCC_RIFF,
};
use crate::ds64::{ds64_id, ds64_model_of, ds64_valid, is_rf64_magic, bw64_id, rf64_id, DataSize64,
    FOURCC_DS64};
use crate::error::{Error, Result};
use crate::chunk::chunk_bytes;
use crate::le::{le_u32, lemma_u32_roundtrip, u32_bytes};
use crate::records::{concat, lemma_concat_prepend, lemma_sub};

verus! {

/// One child chunk yielded by [`Walker::read_next`].
#[derive(Clone, Copy, Debug, PartialEq, Eq)]
pub struct ChunkRef {
    /// 4-byte FourCC of the chunk.
    pub id: [u8; 4],
    /// Payload length from the chunk header (no header, no pad byte).
    pub size: u32,
    /// Absolute offset of the payload in the underlying input.
    pub body_offset: u64,
}

impl ChunkRef {
    /// `true` for a `RIFF` or `LIST` child.
    pub fn is_group(&self) -> (r: bool)
        ensures
            r == is_group_id(self.id@),
    {
        fourcc_eq(&self.id, &FOURCC_RIFF) || fourcc_eq(&self.id, &FOURCC_LIST)
    }

    /// Bytes the body plus its optional pad byte occupy.
    pub fn padded_size(&self) -> (r: u64)
        ensures
            r == padded(self.size as int),
    {
        self.size as u64 + (self.size % 2) as u64
    }

    /// Offset just past this chunk's body and pad byte.
    pub fn end_offset(&self) -> (r: u64)
        requires
            self.body_offset + padded(self.size as int) <= u64::MAX,
        ensures
            r == self.body_offset + padded(self.size as int),
    {
        self.body_offset + self.padded_size()
    }
}

/// The prologue of an RF64 / BW64 file is acceptable: the outer magic,
/// room for the form type, a `ds64` first chunk whose body (and pad
/// byte) is present and well-formed, and a `riffSize` that covers the
/// form type and the `ds64` chunk.
pub open spec fn rf64_prologue_ok(d: Seq<u8>) -> bool {
    let s = le_u32(d, 16) as int;
    &&& d.len() >= 20
    &&& (d.subrange(0, 4) == rf64_id() || d.subrange(0, 4) == bw64_id())
    &&& le_u32(d, 4) >= 4
    &&& d.subrange(12, 16) == ds64_id()
    &&& d.len() - 20 >= padded(s)
    &&& ds64_valid(d.subrange(20, 20 + s))
    &&& 12 + padded(s) <= ds64_model_of(d.subrange(20, 20 + s)).riff_size
}

/// Walker over the immediate children of a parent group chunk.
#[derive(Debug)]
pub struct Walker<'a> {
    inner: ByteReader<'a>,
    payload_len: u64,
    consumed: u64,
    form_type: [u8; 4],
    data_size_64: Option<DataSize64>,
}

impl<'a> Walker<'a> {
    #[verifier::type_invariant]
    spec fn budget_ok(self) -> bool {
        self.consumed <= self.payload_len
    }

    /// The cursor the walker reads from.
    pub closed spec fn spec_reader(&self) -> ByteReader<'a> {
        self.inner
    }

    /// The parent's payload length.
    pub closed spec fn spec_payload_len(&self) -> u64 {
        self.payload_len
    }

    /// Bytes of the parent payload consumed so far.
    pub closed spec fn spec_consumed(&self) -> u64 {
        self.consumed
    }

    /// The parent's form / list type.
    pub closed spec fn spec_form_type(&self) -> [u8; 4] {
        self.form_type
    }

    /// The `ds64` chunk read by [`Walker::open_rf64`].
    pub closed spec fn spec_ds64(&self) -> Option<DataSize64> {
        self.data_size_64
    }

    /// The input bytes.
    pub open spec fn spec_data(&self) -> Seq<u8> {
        self.spec_reader().spec_data()
    }

    /// The current input position.
    pub open spec fn spec_pos(&self) -> u64 {
        self.spec_reader().spec_pos()
    }

    /// Everything but the cursor position and the consumed count is the
    /// same in `self` and `other`.
    pub open spec fn same_parent(&self, other: &Walker<'a>) -> bool {
        &&& self.spec_data() == other.spec_data()
        &&& self.spec_payload_len() == other.spec_payload_len()
        &&& self.spec_form_type() == other.spec_form_type()
        &&& self.spec_ds64() == other.spec_ds64()
    }

    /// Open the outermost `RIFF` chunk at offset 0 of `data`; the
    /// walker is positioned at the first top-level child.
    pub fn open_root(data: &'a [u8]) -> (r: Result<Walker<'a>>)
        ensures
            r is Ok <==> (data@.len() >= 12 && data@.subrange(0, 4) == riff_id() && le_u32(
                data@,
                4,
            ) >= 4),
            r matches Ok(w) ==> ({
                &&& w.spec_data() == data@
                &&& w.spec_pos() == 12
                &&& w.spec_payload_len() == le_u32(data@, 4)
                &&& w.spec_consumed() == 4
                &&& w.spec_form_type()@ == data@.subrange(8, 12)
                &&& w.spec_ds64() is None
            }),
    {
        let mut r = ByteReader::new(data);
        let header = match read_chunk_header(&mut r) {
            Ok(Some(h)) => h,
            Ok(None) => {
                return Err(Error::invalid("RIFF: empty input, no outer chunk header"));
            },
            Err(e) => {
                return Err(e);
            },
        };
        proof {
            assert(header.id@ =~= data@.subrange(0, 4));
        }
        if !fourcc_eq(&header.id, &FOURCC_RIFF) {
            return Err(Error::invalid("RIFF: outer chunk is not 'RIFF'"));
        }
        if header.size < 4 {
            return Err(Error::invalid("RIFF: outer ckSize < 4 \u{2014} no room for form type"));
        }
        let form_type = read_form_type(&mut r)?;
        Ok(Walker {
            inner: r,
            payload_len: header.size as u64,
            consumed: 4,
            form_type,
            data_size_64: None,
        })
    }

    /// Open an `RF64` / `BW64` outer wrapper: read the outer header, the
    /// form type and the mandatory `ds64` chunk, and return a walker
    /// whose budget is the `ds64` `riffSize`, positioned at the first
    /// chunk after `ds64`.
    #[verifier::rlimit(40)]
    pub fn open_rf64(data: &'a [u8]) -> (r: Result<Walker<'a>>)
        ensures
            r is Ok <==> rf64_prologue_ok(data@),
            r matches Ok(w) ==> ({
                let s = le_u32(data@, 16) as int;
                let body = data@.subrange(20, 20 + s);
                &&& w.spec_data() == data@
                &&& w.spec_pos() == 20 + padded(s)
                &&& w.spec_payload_len() == ds64_model_of(body).riff_size
                &&& w.spec_consumed() == 12 + padded(s)
                &&& w.spec_form_type()@ == data@.subrange(8, 12)
                &&& w.spec_ds64() matches Some(ds) && ds@ == ds64_model_of(body)
            }),
    {
        let mut r = ByteReader::new(data);
        let header = match read_chunk_header(&mut r) {
            Ok(Some(h)) => h,
            Ok(None) => {
                return Err(Error::invalid("RF64: empty input, no outer chunk header"));
            },
            Err(e) => {
                return Err(e);
            },
        };
        proof {
            assert(header.id@ =~= data@.subrange(0, 4));
        }
        if !is_rf64_magic(&header.id) {
            return Err(Error::invalid("RF64: outer chunk is neither 'RF64' nor 'BW64'"));
        }
        if header.size < 4 {
            return Err(Error::invalid("RF64: outer ckSize < 4 \u{2014} no room for form type"));
        }
        let form_type = read_form_type(&mut r)?;
        let ds64_header = match read_chunk_header(&mut r) {
            Ok(Some(h)) => h,
            Ok(None) => {
                return Err(Error::invalid("RF64: missing mandatory 'ds64' chunk"));
            },
            Err(e) => {
                return Err(e);
            },
        };
        proof {
            assert(ds64_header.id@ =~= data@.subrange(12, 16));
        }
        if !fourcc_eq(&ds64_header.id, &FOURCC_DS64) {
            return Err(Error::invalid("RF64: first chunk after the form type is not 'ds64'"));
        }
        let ds64_body = r.read_exact(ds64_header.size as usize)?;
        if ds64_header.size % 2 == 1 {
            let _pad = r.read_exact(1)?;
        }
        proof {
            let s = le_u32(data@, 16) as int;
            assert(ds64_header.size == s);
            assert(ds64_body@ =~= data@.subrange(20, 20 + s));
        }
        let ds64 = DataSize64::parse(ds64_body.as_slice())?;
        let payload_len = ds64.riff_size;
        let consumed = 4 + 8 + ds64_header.padded_size();
        if consumed > payload_len {
            return Err(
                Error::invalid("RF64: ds64 riffSize is smaller than the form-type + ds64 prologue"),
            );
        }
        Ok(Walker { inner: r, payload_len, consumed, form_type, data_size_64: Some(ds64) })
    }

    /// The same constructor as [`Walker::open_rf64`], named for the
    /// ADM-carrying `BW64` magic; both magics are accepted.
    pub fn open_bw64(data: &'a [u8]) -> (r: Result<Walker<'a>>)
        ensures
            r is Ok <==> rf64_prologue_ok(data@),
            r matches Ok(w) ==> ({
                let s = le_u32(data@, 16) as int;
                let body = data@.subrange(20, 20 + s);
                &&& w.spec_data() == data@
                &&& w.spec_pos() == 20 + padded(s)
                &&& w.spec_payload_len() == ds64_model_of(body).riff_size
                &&& w.spec_consumed() == 12 + padded(s)
                &&& w.spec_form_type()@ == data@.subrange(8, 12)
                &&& w.spec_ds64() matches Some(ds) && ds@ == ds64_model_of(body)
            }),
    {
        Self::open_rf64(data)
    }

    /// Start a walker over the payload of a group chunk whose header is
    /// `header`; `r` must sit at the first payload byte (the form type),
    /// which the constructor consumes.
    pub fn open_within(r: ByteReader<'a>, header: &ChunkHeader) -> (res: Result<Walker<'a>>)
        ensures
            res is Ok <==> (is_group_id(header.id@) && header.size >= 4 && r.spec_remaining()
                >= 4),
            res matches Ok(w) ==> ({
                &&& w.spec_data() == r.spec_data()
                &&& w.spec_pos() == r.spec_pos() + 4
                &&& w.spec_payload_len() == header.size
                &&& w.spec_consumed() == 4
                &&& w.spec_form_type()@ == r.spec_data().subrange(
                    r.spec_pos() as int,
                    r.spec_pos() + 4,
                )
                &&& w.spec_ds64() is None
            }),
    {
        if !header.is_group() {
            return Err(Error::invalid("RIFF: open_within called on a non-group chunk"));
        }
        if header.size < 4 {
            return Err(Error::invalid("RIFF: group ckSize < 4 \u{2014} no room for form type"));
        }
        let mut r = r;
        let form_type = read_form_type(&mut r)?;
        Ok(Walker {
            inner: r,
            payload_len: header.size as u64,
            consumed: 4,
            form_type,
            data_size_64: None,
        })
    }

    /// Form / list type of the parent group chunk.
    pub fn form_type(&self) -> (r: [u8; 4])
        ensures
            r == self.spec_form_type(),
    {
        self.form_type
    }

    /// The `ds64` chunk, for a walker opened over an RF64 / BW64 file.
    pub fn data_size_64(&self) -> (r: Option<&DataSize64>)
        ensures
            r matches Some(d) ==> self.spec_ds64() == Some(*d),
            r is None <==> self.spec_ds64() is None,
    {
        match &self.data_size_64 {
            Some(d) => Some(d),
            None => None,
        }
    }

    /// The parent's payload length.
    pub fn payload_len(&self) -> (r: u64)
        ensures
            r == self.spec_payload_len(),
    {
        self.payload_len
    }

    /// Unwalked bytes left in the parent payload.
    pub fn remaining(&self) -> (r: u64)
        ensures
            r == self.spec_payload_len() - self.spec_consumed(),
    {
        proof {
            use_type_invariant(self);
        }
        self.payload_len - self.consumed
    }

    /// A copy of the cursor at the walker's current position, from which
    /// a nested walker can be opened.
    pub fn reader(&self) -> (r: ByteReader<'a>)
        ensures
            r == self.spec_reader(),
    {
        self.inner
    }

    /// Read the next child header. `Ok(None)` once the parent budget is
    /// exactly used; an error when fewer than 8 budget bytes are left,
    /// when the input ends inside the parent, or when the child's body
    /// would overflow the parent.
    pub fn read_next(&mut self) -> (r: Result<Option<ChunkRef>>)
        ensures
            final(self).same_parent(old(self)),
            old(self).spec_consumed() == old(self).spec_payload_len() ==> (r matches Ok(None)
                && *final(self) == *old(self)),
            old(self).spec_consumed() < old(self).spec_payload_len() < old(self).spec_consumed()
                + 8 ==> (r is Err && *final(self) == *old(self)),
            old(self).spec_consumed() + 8 <= old(self).spec_payload_len() ==> ({
                let p = old(self).spec_pos() as int;
                let h = spec_header_at(old(self).spec_data(), p);
                let left = old(self).spec_payload_len() - old(self).spec_consumed() - 8;
                &&& old(self).spec_reader().spec_remaining() < 8 ==> r is Err
                &&& old(self).spec_reader().spec_remaining() >= 8 && padded(h.size as int) > left
                    ==> r is Err
                &&& old(self).spec_reader().spec_remaining() >= 8 && padded(h.size as int)
                    <= left ==> ({
                    &&& r matches Ok(Some(c))
                    &&& c == (ChunkRef { id: h.id, size: h.size, body_offset: (p + 8) as u64 })
                    &&& final(self).spec_pos() == p + 8
                    &&& final(self).spec_consumed() == old(self).spec_consumed() + 8
                })
            }),
    {
        proof {
            use_type_invariant(&*self);
        }
        if self.consumed == self.payload_len {
            return Ok(None);
        }
        if self.payload_len - self.consumed < 8 {
            return Err(Error::invalid("RIFF: truncated parent \u{2014} less than a chunk header left"));
        }
        let mut rd = self.inner;
        let res = read_chunk_header(&mut rd);
        self.inner = rd;
        let header = match res {
            Ok(Some(h)) => h,
            Ok(None) => {
                return Err(Error::invalid("RIFF: truncated parent \u{2014} EOF inside parent body"));
            },
            Err(e) => {
                return Err(e);
            },
        };
        self.consumed = self.consumed + 8;
        let padded_len = header.padded_size();
        if padded_len > self.payload_len - self.consumed {
            return Err(Error::invalid("RIFF: chunk overflows parent"));
        }
        let body_offset = self.inner.position();
        Ok(Some(ChunkRef { id: header.id, size: header.size, body_offset }))
    }

    /// Read the body of the chunk just yielded by [`Walker::read_next`]
    /// and move past it and its pad byte.
    pub fn read_body(&mut self, chunk: &ChunkRef) -> (r: Result<Vec<u8>>)
        requires
            old(self).spec_consumed() + padded(chunk.size as int) <= old(self).spec_payload_len(),
        ensures
            final(self).same_parent(old(self)),
            r is Ok <==> old(self).spec_reader().spec_remaining() >= padded(chunk.size as int),
            r matches Ok(v) ==> ({
                let p = old(self).spec_pos() as int;
                &&& chunk.size == 0 ==> v@.len() == 0
                &&& chunk.size > 0 ==> v@ == old(self).spec_data().subrange(p, p + chunk.size)
                &&& final(self).spec_pos() == p + padded(chunk.size as int)
                &&& final(self).spec_consumed() == old(self).spec_consumed() + padded(
                    chunk.size as int,
                )
            }),
            r is Err ==> final(self).spec_consumed() == old(self).spec_consumed(),
    {
        let mut rd = self.inner;
        let res = rd.read_exact(chunk.size as usize);
        self.inner = rd;
        let buf = res?;
        if chunk.size % 2 == 1 {
            let mut rd = self.inner;
            let res = rd.read_exact(1);
            self.inner = rd;
            let _pad = res?;
        }
        self.consumed = self.consumed + chunk.padded_size();
        Ok(buf)
    }

    /// Move past the body and pad byte of the chunk just yielded by
    /// [`Walker::read_next`].
    pub fn skip(&mut self, chunk: &ChunkRef) -> (r: Result<()>)
        requires
            old(self).spec_consumed() + padded(chunk.size as int) <= old(self).spec_payload_len(),
        ensures
            final(self).same_parent(old(self)),
            r is Ok <==> old(self).spec_pos() + padded(chunk.size as int) <= u64::MAX,
            r is Ok ==> final(self).spec_pos() == old(self).spec_pos() + padded(
                chunk.size as int,
            ) && final(self).spec_consumed() == old(self).spec_consumed() + padded(
                chunk.size as int,
            ),
            r is Err ==> *final(self) == *old(self),
    {
        let n = chunk.padded_size();
        if n > 0 {
            let mut rd = self.inner;
            rd.seek_forward(n)?;
            self.inner = rd;
        }
        self.consumed = self.consumed + n;
        Ok(())
    }

    /// Read the form / list type of a group child; the 4 bytes count
    /// against this walker's budget.
    pub fn read_inner_form_type(&mut self, chunk: &ChunkRef) -> (r: Result<[u8; 4]>)
        requires
            old(self).spec_consumed() + padded(chunk.size as int) <= old(self).spec_payload_len(),
        ensures
            final(self).same_parent(old(self)),
            r is Ok <==> (is_group_id(chunk.id@) && chunk.size >= 4
                && old(self).spec_reader().spec_remaining() >= 4),
            r matches Ok(t) ==> ({
                let p = old(self).spec_pos() as int;
                &&& t@ == old(self).spec_data().subrange(p, p + 4)
                &&& final(self).spec_pos() == p + 4
                &&& final(self).spec_consumed() == old(self).spec_consumed() + 4
            }),
            r is Err ==> final(self).spec_consumed() == old(self).spec_consumed(),
    {
        if !chunk.is_group() {
            return Err(
                Error::invalid("RIFF: read_inner_form_type called on a non-group chunk"),
            );
        }
        if chunk.size < 4 {
            return Err(
                Error::invalid("RIFF: nested group ckSize < 4 \u{2014} no room for form type"),
            );
        }
        let mut rd = self.inner;
        let res = read_form_type(&mut rd);
        self.inner = rd;
        let ft = res?;
        self.consumed = self.consumed + 4;
        Ok(ft)
    }
}

/// The children a walker reads from `d`, starting at `pos` with `left`
/// budget bytes, as `(FourCC, body)` pairs — `None` when a read fails:
/// fewer than 8 budget bytes left for a header, the input ending inside
/// a header or body, or a body (with its pad byte) overflowing the
/// budget.
pub open spec fn walk_items(d: Seq<u8>, pos: int, left: int) -> Option<Seq<([u8; 4], Seq<u8>)>>
    decreases left,
{
    if left <= 0 {
        Some(Seq::empty())
    } else if left < 8 || pos + 8 > d.len() {
        None
    } else {
        let h = spec_header_at(d, pos);
        let p = padded(h.size as int);
        if p > left - 8 || pos + 8 + p > d.len() {
            None
        } else {
            match walk_items(d, pos + 8 + p, left - 8 - p) {
                Some(rest) => Some(seq![(h.id, d.subrange(pos + 8, pos + 8 + h.size))] + rest),
                None => None,
            }
        }
    }
}

/// The children still to be read by `w`.
pub open spec fn walker_items<'a>(w: Walker<'a>) -> Option<Seq<([u8; 4], Seq<u8>)>> {
    walk_items(w.spec_data(), w.spec_pos() as int, w.spec_payload_len() - w.spec_consumed())
}

/// Read every remaining child of `w` with [`Walker::read_next`] and
/// [`Walker::read_body`], as `(FourCC, body)` pairs.
pub(crate) fn read_children(w: &mut Walker) -> (r: Result<Vec<([u8; 4], Vec<u8>)>>)
    ensures
        final(w).same_parent(old(w)),
        r is Ok <==> walker_items(*old(w)) is Some,
        r matches Ok(v) ==> walker_items(*old(w)) == Some(
            v@.map_values(|p: ([u8; 4], Vec<u8>)| (p.0, p.1@)),
        ),
        r is Ok ==> final(w).spec_consumed() == final(w).spec_payload_len(),
{
    proof {
        use_type_invariant(&*w);
    }
    let ghost w0 = *w;
    let mut out: Vec<([u8; 4], Vec<u8>)> = Vec::new();
    loop
        invariant
            w0 == *old(w),
            w.same_parent(&w0),
            w.spec_consumed() <= w.spec_payload_len(),
            walker_items(w0) == (match walker_items(*w) {
                Some(rest) => Some(out@.map_values(|p: ([u8; 4], Vec<u8>)| (p.0, p.1@)) + rest),
                None => None::<Seq<([u8; 4], Seq<u8>)>>,
            }),
        decreases w.spec_payload_len() - w.spec_consumed(),
    {
        let ghost before = *w;
        let ghost d = w.spec_data();
        let ghost pos = w.spec_pos() as int;
        let ghost left = w.spec_payload_len() - w.spec_consumed();
        assert(walker_items(before) == walk_items(d, pos, left));
        let next = w.read_next();
        match next {
            Err(e) => {
                assert(walk_items(d, pos, left) is None);
                assert(w.same_parent(&w0));
                return Err(e);
            },
            Ok(None) => {
                return Ok(out);
            },
            Ok(Some(chunk)) => {
                let ghost h = spec_header_at(d, pos);
                assert(chunk.size == h.size && chunk.id == h.id);
                let rb = w.read_body(&chunk);
                let body = match rb {
                    Err(e) => {
                        assert(pos + 8 + padded(h.size as int) > d.len());
                        assert(walk_items(d, pos, left) is None);
                        assert(w.same_parent(&w0));
                        return Err(e);
                    },
                    Ok(b) => b,
                };
                proof {
                    let m0 = out@.map_values(|p: ([u8; 4], Vec<u8>)| (p.0, p.1@));
                    let item = (chunk.id, body@);
                    assert(body@ =~= d.subrange(pos + 8, pos + 8 + h.size));
                    assert(walker_items(*w) == walk_items(
                        d,
                        pos + 8 + padded(h.size as int),
                        left - 8 - padded(h.size as int),
                    ));
                    assert(walk_items(d, pos, left) == (match walker_items(*w) {
                        Some(rest) => Some(seq![item] + rest),
                        None => None::<Seq<([u8; 4], Seq<u8>)>>,
                    }));
                    match walker_items(*w) {
                        Some(rest) => {
                            assert(m0 + (seq![item] + rest) =~= m0.push(item) + rest);
                        },
                        None => {},
                    }
                }
                out.push((chunk.id, body));
                proof {
                    let m0 = out@.drop_last().map_values(|p: ([u8; 4], Vec<u8>)| (p.0, p.1@));
                    assert(out@.map_values(|p: ([u8; 4], Vec<u8>)| (p.0, p.1@)) =~= m0.push(
                        (chunk.id, out@.last().1@),
                    ));
                }
            },
        }
    }
}

/// The wire bytes of a run of leaf chunks.
pub open spec fn chunks_bytes(items: Seq<([u8; 4], Seq<u8>)>) -> Seq<u8> {
    concat(items.map_values(|it: ([u8; 4], Seq<u8>)| chunk_bytes(it.0@, it.1)))
}

/// The length of one encoded chunk.
pub proof fn lemma_chunk_bytes_len(id: Seq<u8>, body: Seq<u8>)
    requires
        id.len() == 4,
    ensures
        chunk_bytes(id, body).len() == 8 + padded(body.len() as int),
{
}

/// Walking the bytes of a run of encoded chunks gives the chunks back:
/// what is written is what is read.
pub proof fn lemma_walk_encoded(d: Seq<u8>, pos: int, items: Seq<([u8; 4], Seq<u8>)>)
    requires
        0 <= pos,
        forall|i: int| 0 <= i < items.len() ==> (#[trigger] items[i]).1.len() <= u32::MAX,
        pos + chunks_bytes(items).len() <= d.len(),
        d.subrange(pos, pos + chunks_bytes(items).len()) == chunks_bytes(items),
    ensures
        walk_items(d, pos, chunks_bytes(items).len() as int) == Some(items),
    decreases items.len(),
{
    let cb = chunks_bytes(items);
    if items.len() == 0 {
        assert(cb =~= Seq::<u8>::empty());
        assert(walk_items(d, pos, 0) == Some(Seq::<([u8; 4], Seq<u8>)>::empty()));
        assert(Seq::<([u8; 4], Seq<u8>)>::empty() =~= items);
    } else {
        let x = items[0];
        let rest = items.drop_first();
        let f = |it: ([u8; 4], Seq<u8>)| chunk_bytes(it.0@, it.1);
        let xb = chunk_bytes(x.0@, x.1);
        assert(items.map_values(f) =~= seq![xb] + rest.map_values(f));
        lemma_concat_prepend(xb, rest.map_values(f));
        let rb = chunks_bytes(rest);
        assert(cb == xb + rb);
        let len = x.1.len() as int;
        lemma_chunk_bytes_len(x.0@, x.1);
        let p = padded(len);
        lemma_sub(d, pos, cb.len() as int, cb, 0, 8 + p);
        assert(cb.subrange(0, 8 + p) =~= xb);
        assert(xb.subrange(4, 8) =~= u32_bytes(len as u32));
        lemma_sub(d, pos, cb.len() as int, cb, 4, 8);
        assert(cb.subrange(4, 8) =~= xb.subrange(4, 8));
        lemma_u32_roundtrip(d, pos + 4, len as u32);
        let h = spec_header_at(d, pos);
        assert(h.size == len);
        assert(d[pos] == xb[0] && d[pos + 1] == xb[1] && d[pos + 2] == xb[2] && d[pos + 3] == xb[3]) by {
            assert(d.subrange(pos, pos + cb.len())[0] == d[pos]);
            assert(d.subrange(pos, pos + cb.len())[1] == d[pos + 1]);
            assert(d.subrange(pos, pos + cb.len())[2] == d[pos + 2]);
            assert(d.subrange(pos, pos + cb.len())[3] == d[pos + 3]);
        }
        assert(h.id =~= x.0);
        lemma_sub(d, pos, cb.len() as int, cb, 8, 8 + len);
        assert(cb.subrange(8, 8 + len) =~= x.1);
        lemma_sub(d, pos, cb.len() as int, cb, 8 + p, cb.len() as int);
        assert(cb.subrange(8 + p, cb.len() as int) =~= rb);
        assert forall|i: int| 0 <= i < rest.len() implies (#[trigger] rest[i]).1.len() <= u32::MAX by {
            assert(rest[i] == items[i + 1]);
        }
        lemma_walk_encoded(d, pos + 8 + p, rest);
        assert(seq![(h.id, d.subrange(pos + 8, pos + 8 + h.size))] + rest =~= items);
    }
}

} // verus!
