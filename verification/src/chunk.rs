//! RIFF chunk headers: decoding, framing and skipping.
//!
//! Every chunk is an 8-byte header — a 4-byte FourCC plus a
//! little-endian `ckSize` payload length — followed by `ckSize` payload
//! bytes and, when `ckSize` is odd, one `0x00` pad byte so the next
//! header starts on a 2-byte boundary. `RIFF` and `LIST` are *group*
//! chunks whose payload starts with a 4-byte form/list type followed by
//! nested chunks.
//!
//! Reading is done from a [`ByteReader`], a cursor over an in-memory
//! byte source.
use vstd::prelude::*;
use vstd::math::max;

use crate::error::{Error, Result};
use crate::le::{copy_range, le_u32, push_slice, push_u32, read_u32, u32_bytes};

verus! {

/// Outer wrapper FourCC (`RIFF`).
pub const FOURCC_RIFF: [u8; 4] = [0x52, 0x49, 0x46, 0x46];

/// Nested-grouping FourCC (`LIST`).
pub const FOURCC_LIST: [u8; 4] = [0x4C, 0x49, 0x53, 0x54];

/// Big-endian outer wrapper FourCC (`RIFX`).
pub const FOURCC_RIFX: [u8; 4] = [0x52, 0x49, 0x46, 0x58];

/// The view of `RIFF`.
pub open spec fn riff_id() -> Seq<u8> {
    seq![0x52u8, 0x49u8, 0x46u8, 0x46u8]
}

/// The view of `LIST`.
pub open spec fn list_id() -> Seq<u8> {
    seq![0x4Cu8, 0x49u8, 0x53u8, 0x54u8]
}

/// The view of `RIFX`.
pub open spec fn rifx_id() -> Seq<u8> {
    seq![0x52u8, 0x49u8, 0x46u8, 0x58u8]
}

/// `true` for the two group FourCCs (`RIFF`, `LIST`).
pub open spec fn is_group_id(id: Seq<u8>) -> bool {
    id == riff_id() || id == list_id()
}

/// Number of bytes a body of `size` bytes occupies with its pad byte.
pub open spec fn padded(size: int) -> int {
    size + size % 2
}

/// The pad bytes that follow a body of `len` bytes.
pub open spec fn pad_bytes(len: nat) -> Seq<u8> {
    if len % 2 == 1 {
        seq![0u8]
    } else {
        Seq::<u8>::empty()
    }
}

/// The wire bytes of a chunk header: the FourCC then the little-endian
/// `ckSize`.
pub open spec fn header_bytes(id: Seq<u8>, size: u32) -> Seq<u8> {
    id + u32_bytes(size)
}

/// The wire bytes of a whole chunk: header, body, pad byte if the body
/// length is odd.
pub open spec fn chunk_bytes(id: Seq<u8>, body: Seq<u8>) -> Seq<u8> {
    header_bytes(id, body.len() as u32) + body + pad_bytes(body.len())
}

/// Compare two FourCCs byte by byte.
pub fn fourcc_eq(a: &[u8; 4], b: &[u8; 4]) -> (r: bool)
    ensures
        r == (a@ == b@),
{
    let r = a[0] == b[0] && a[1] == b[1] && a[2] == b[2] && a[3] == b[3];
    proof {
        if r {
            assert(a@ =~= b@);
        } else {
            if a@ == b@ {
                assert(a@[0] == b@[0] && a@[1] == b@[1] && a@[2] == b@[2] && a@[3] == b@[3]);
            }
        }
    }
    r
}

/// Decoded 8-byte RIFF chunk header.
#[derive(Clone, Copy, Debug, PartialEq, Eq)]
pub struct ChunkHeader {
    /// 4-byte ASCII FourCC.
    pub id: [u8; 4],
    /// Payload length in bytes (not counting the header or the pad byte).
    pub size: u32,
}

impl ChunkHeader {
    /// `true` if this chunk introduces a sub-tree (`RIFF` or `LIST`).
    pub fn is_group(&self) -> (r: bool)
        ensures
            r == is_group_id(self.id@),
    {
        fourcc_eq(&self.id, &FOURCC_RIFF) || fourcc_eq(&self.id, &FOURCC_LIST)
    }

    /// Bytes the body plus its optional pad byte occupy on the wire.
    pub fn padded_size(&self) -> (r: u64)
        ensures
            r == padded(self.size as int),
    {
        self.size as u64 + (self.size % 2) as u64
    }
}

/// A read cursor over an in-memory byte source.
///
/// Reads past the end of the source return fewer bytes (a clean end of
/// input); seeks may move the position past the end, exactly like a
/// cursor over a byte buffer.
#[derive(Clone, Copy, Debug)]
pub struct ByteReader<'a> {
    data: &'a [u8],
    pos: u64,
}

impl<'a> ByteReader<'a> {
    /// The underlying bytes.
    pub closed spec fn spec_data(&self) -> Seq<u8> {
        self.data@
    }

    /// The current position.
    pub closed spec fn spec_pos(&self) -> u64 {
        self.pos
    }

    /// Bytes available from the current position to the end of input.
    pub open spec fn spec_remaining(&self) -> int {
        if self.spec_pos() >= self.spec_data().len() {
            0
        } else {
            self.spec_data().len() - self.spec_pos()
        }
    }

    /// A cursor at position 0 of `data`.
    pub fn new(data: &'a [u8]) -> (r: Self)
        ensures
            r.spec_data() == data@,
            r.spec_pos() == 0,
    {
        ByteReader { data, pos: 0 }
    }

    /// A cursor at position `pos` of `data`.
    pub fn at(data: &'a [u8], pos: u64) -> (r: Self)
        ensures
            r.spec_data() == data@,
            r.spec_pos() == pos,
    {
        ByteReader { data, pos }
    }

    /// The underlying bytes.
    pub fn data(&self) -> (r: &'a [u8])
        ensures
            r@ == self.spec_data(),
    {
        self.data
    }

    /// The current position.
    pub fn position(&self) -> (r: u64)
        ensures
            r == self.spec_pos(),
    {
        self.pos
    }

    /// Move the cursor to an absolute position.
    pub fn set_position(&mut self, pos: u64)
        ensures
            final(self).spec_data() == old(self).spec_data(),
            final(self).spec_pos() == pos,
    {
        self.pos = pos;
    }

    /// Bytes available from the current position.
    pub fn remaining(&self) -> (r: usize)
        ensures
            r == self.spec_remaining(),
    {
        if self.pos >= self.data.len() as u64 {
            0
        } else {
            self.data.len() - self.pos as usize
        }
    }

    /// Read exactly `n` bytes, or fail (moving to the end of input) when
    /// fewer remain.
    pub fn read_exact(&mut self, n: usize) -> (r: Result<Vec<u8>>)
        ensures
            final(self).spec_data() == old(self).spec_data(),
            n == 0 ==> (r matches Ok(v) && v@.len() == 0 && final(self).spec_pos() == old(
                self,
            ).spec_pos()),
            n > 0 && old(self).spec_remaining() >= n ==> ({
                &&& r matches Ok(v) && v@ == old(self).spec_data().subrange(
                    old(self).spec_pos() as int,
                    old(self).spec_pos() + n,
                )
                &&& final(self).spec_pos() == old(self).spec_pos() + n
            }),
            old(self).spec_remaining() < n ==> r is Err && final(self).spec_pos() == max(
                old(self).spec_pos() as int,
                old(self).spec_data().len() as int,
            ),
    {
        if n == 0 {
            return Ok(Vec::new());
        }
        let len = self.data.len();
        if self.pos >= len as u64 || ((len - self.pos as usize) as usize) < n {
            if self.pos < len as u64 {
                self.pos = len as u64;
            }
            return Err(Error::invalid("RIFF: unexpected end of input"));
        }
        let start = self.pos as usize;
        let v = copy_range(self.data, start, start + n);
        self.pos = self.pos + n as u64;
        Ok(v)
    }

    /// Advance the cursor by `n` bytes (possibly past the end of input).
    /// Fails only if the new position does not fit in 64 bits.
    pub fn seek_forward(&mut self, n: u64) -> (r: Result<()>)
        ensures
            final(self).spec_data() == old(self).spec_data(),
            r is Ok <==> old(self).spec_pos() + n <= u64::MAX,
            r is Ok ==> final(self).spec_pos() == old(self).spec_pos() + n,
            r is Err ==> final(self).spec_pos() == old(self).spec_pos(),
    {
        if self.pos > u64::MAX - n {
            return Err(Error::invalid("RIFF: seek position overflows"));
        }
        self.pos = self.pos + n;
        Ok(())
    }
}

/// The header decoded from the 8 bytes at `s[off..off + 8]`.
pub open spec fn spec_header_at(s: Seq<u8>, off: int) -> ChunkHeader {
    ChunkHeader { id: [s[off], s[off + 1], s[off + 2], s[off + 3]], size: le_u32(s, off + 4) }
}

/// Read a single 8-byte chunk header.
///
/// `Ok(None)` at clean end of input (no bytes left); an error when the
/// input ends part-way through the 8 bytes (the reader then sits at the
/// end of input); otherwise the decoded header, with the reader advanced
/// by 8.
pub fn read_chunk_header(r: &mut ByteReader) -> (res: Result<Option<ChunkHeader>>)
    ensures
        final(r).spec_data() == old(r).spec_data(),
        old(r).spec_remaining() == 0 ==> (res matches Ok(None) && final(r).spec_pos() == old(
            r,
        ).spec_pos()),
        0 < old(r).spec_remaining() < 8 ==> res is Err && final(r).spec_pos()
            == old(r).spec_data().len(),
        old(r).spec_remaining() >= 8 ==> ({
            &&& res matches Ok(Some(h))
            &&& h == spec_header_at(old(r).spec_data(), old(r).spec_pos() as int)
            &&& final(r).spec_pos() == old(r).spec_pos() + 8
        }),
{
    let rem = r.remaining();
    if rem == 0 {
        return Ok(None);
    }
    if rem < 8 {
        r.pos = r.data.len() as u64;
        return Err(Error::invalid("RIFF: truncated chunk header"));
    }
    let p = r.pos as usize;
    let d = r.data;
    let h = ChunkHeader { id: [d[p], d[p + 1], d[p + 2], d[p + 3]], size: read_u32(d, p + 4) };
    r.pos = r.pos + 8;
    Ok(Some(h))
}

/// Read the 4-byte form-type / list-type that follows a group chunk
/// header.
pub fn read_form_type(r: &mut ByteReader) -> (res: Result<[u8; 4]>)
    ensures
        final(r).spec_data() == old(r).spec_data(),
        old(r).spec_remaining() >= 4 ==> ({
            &&& res matches Ok(t)
            &&& t@ == old(r).spec_data().subrange(
                old(r).spec_pos() as int,
                old(r).spec_pos() + 4,
            )
            &&& final(r).spec_pos() == old(r).spec_pos() + 4
        }),
        old(r).spec_remaining() < 4 ==> res is Err && final(r).spec_pos() == max(
            old(r).spec_pos() as int,
            old(r).spec_data().len() as int,
        ),
{
    let rem = r.remaining();
    if rem < 4 {
        if r.pos < r.data.len() as u64 {
            r.pos = r.data.len() as u64;
        }
        return Err(Error::invalid("RIFF: unexpected end of input"));
    }
    let p = r.pos as usize;
    let d = r.data;
    let t = [d[p], d[p + 1], d[p + 2], d[p + 3]];
    r.pos = r.pos + 4;
    assert(t@ =~= d@.subrange(p as int, p + 4));
    Ok(t)
}

/// Skip past a chunk's body and its pad byte.
pub fn skip_chunk(r: &mut ByteReader, header: &ChunkHeader) -> (res: Result<()>)
    ensures
        final(r).spec_data() == old(r).spec_data(),
        res is Ok <==> old(r).spec_pos() + padded(header.size as int) <= u64::MAX,
        res is Ok ==> final(r).spec_pos() == old(r).spec_pos() + padded(header.size as int),
{
    let n = header.padded_size();
    if n > 0 {
        r.seek_forward(n)
    } else {
        Ok(())
    }
}

/// Skip only the pad byte after the caller has consumed a body of
/// `size` bytes.
pub fn skip_pad(r: &mut ByteReader, size: u32) -> (res: Result<()>)
    ensures
        final(r).spec_data() == old(r).spec_data(),
        res is Ok <==> (size % 2 == 0 || old(r).spec_pos() + 1 <= u64::MAX),
        res is Ok ==> final(r).spec_pos() == old(r).spec_pos() + size % 2,
{
    if size % 2 == 1 {
        r.seek_forward(1)
    } else {
        Ok(())
    }
}

/// Append an 8-byte chunk header (FourCC + little-endian `ckSize`).
pub fn write_chunk_header(out: &mut Vec<u8>, id: &[u8; 4], size: u32)
    ensures
        final(out)@ == old(out)@ + header_bytes(id@, size),
{
    out.push(id[0]);
    out.push(id[1]);
    out.push(id[2]);
    out.push(id[3]);
    push_u32(out, size);
    assert(out@ =~= old(out)@ + header_bytes(id@, size));
}

/// Append a whole chunk — header, body, and a pad byte when the body
/// length is odd. Fails, leaving `out` untouched, when the body is longer
/// than a 32-bit `ckSize` can express.
pub fn encode_chunk(out: &mut Vec<u8>, id: &[u8; 4], body: &[u8]) -> (res: Result<()>)
    ensures
        res is Ok <==> body@.len() <= u32::MAX,
        res is Ok ==> final(out)@ == old(out)@ + chunk_bytes(id@, body@),
        res is Err ==> final(out)@ == old(out)@,
{
    if body.len() > 0xFFFF_FFFFusize {
        return Err(Error::invalid("RIFF: chunk body exceeds 32-bit ckSize range"));
    }
    let size = body.len() as u32;
    write_chunk_header(out, id, size);
    push_slice(out, body);
    if size % 2 == 1 {
        out.push(0);
    }
    assert(out@ =~= old(out)@ + chunk_bytes(id@, body@));
    Ok(())
}

} // verus!
