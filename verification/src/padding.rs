//! `JUNK` / `PAD ` filler chunks.
//!
//! A filler chunk carries bytes a reader ignores; writers use one to
//! align later chunks or to reserve room, such as the 28 bytes a plain
//! RIFF file keeps free so it can later become RF64 with a `ds64` chunk
//! written in place.
use vstd::prelude::*;

use crate::chunk::{chunk_bytes, encode_chunk, fourcc_eq};
use crate::ds64::DS64_PREFIX_LEN;
use crate::error::Result;
use crate::le::{copy_range, push_slice};

verus! {

/// FourCC of the junk filler (`JUNK`).
pub const FOURCC_JUNK: [u8; 4] = [0x4A, 0x55, 0x4E, 0x4B];

/// FourCC of the pad filler (`PAD `).
pub const FOURCC_PAD: [u8; 4] = [0x50, 0x41, 0x44, 0x20];

/// Bytes reserved for a later `ds64` chunk body.
pub const DS64_RESERVATION_LEN: usize = DS64_PREFIX_LEN;

/// `JUNK` as a view.
pub open spec fn junk_id() -> Seq<u8> {
    seq![0x4Au8, 0x55u8, 0x4Eu8, 0x4Bu8]
}

/// `PAD ` as a view.
pub open spec fn pad_id() -> Seq<u8> {
    seq![0x50u8, 0x41u8, 0x44u8, 0x20u8]
}

/// `true` for `JUNK` and `PAD `.
pub fn is_padding_fourcc(fourcc: &[u8; 4]) -> (r: bool)
    ensures
        r == (fourcc@ == junk_id() || fourcc@ == pad_id()),
{
    assert(FOURCC_JUNK@ =~= junk_id());
    assert(FOURCC_PAD@ =~= pad_id());
    fourcc_eq(fourcc, &FOURCC_JUNK) || fourcc_eq(fourcc, &FOURCC_PAD)
}

/// A filler chunk's body.
#[derive(Clone, Debug, Default, PartialEq, Eq)]
pub struct Junk {
    /// The filler bytes, verbatim.
    pub filler: Vec<u8>,
}

impl Junk {
    /// Keep a filler body verbatim.
    pub fn from_body(body: &[u8]) -> (r: Self)
        ensures
            r.filler@ == body@,
    {
        let f = copy_range(body, 0, body.len());
        assert(f@ =~= body@);
        Junk { filler: f }
    }

    /// `len` zero bytes of filler.
    pub fn zeroed(len: usize) -> (r: Self)
        ensures
            r.filler@ == Seq::new(len as nat, |i: int| 0u8),
    {
        let mut f: Vec<u8> = Vec::new();
        let mut i: usize = 0;
        while i < len
            invariant
                i <= len,
                f@ == Seq::new(i as nat, |k: int| 0u8),
            decreases len - i,
        {
            f.push(0u8);
            i += 1;
            assert(f@ =~= Seq::new(i as nat, |k: int| 0u8));
        }
        Junk { filler: f }
    }

    /// A zero filler large enough to be overwritten by a `ds64` body.
    pub fn ds64_reservation() -> (r: Self)
        ensures
            r.filler@ == Seq::new(DS64_RESERVATION_LEN as nat, |i: int| 0u8),
    {
        Junk::zeroed(DS64_RESERVATION_LEN)
    }

    /// Number of filler bytes.
    pub fn len(&self) -> (r: usize)
        ensures
            r == self.filler@.len(),
    {
        self.filler.len()
    }

    /// `true` when there are no filler bytes.
    pub fn is_empty(&self) -> (r: bool)
        ensures
            r == (self.filler@.len() == 0),
    {
        self.filler.len() == 0
    }

    /// `true` when the filler is large enough to hold a `ds64` body.
    pub fn is_ds64_reservation(&self) -> (r: bool)
        ensures
            r == (self.filler@.len() >= DS64_RESERVATION_LEN),
    {
        self.filler.len() >= DS64_RESERVATION_LEN
    }

    /// The filler bytes.
    pub fn encode_body(&self) -> (r: Vec<u8>)
        ensures
            r@ == self.filler@,
    {
        let r = copy_range(self.filler.as_slice(), 0, self.filler.len());
        assert(r@ =~= self.filler@);
        r
    }

    /// The whole chunk with the `JUNK` FourCC.
    pub fn encode_chunk(&self) -> (r: Result<Vec<u8>>)
        ensures
            r is Ok <==> self.filler@.len() <= u32::MAX,
            r matches Ok(v) ==> v@ == chunk_bytes(junk_id(), self.filler@),
    {
        assert(FOURCC_JUNK@ =~= junk_id());
        self.encode_chunk_with(&FOURCC_JUNK)
    }

    /// The whole chunk with the given FourCC.
    pub fn encode_chunk_with(&self, fourcc: &[u8; 4]) -> (r: Result<Vec<u8>>)
        ensures
            r is Ok <==> self.filler@.len() <= u32::MAX,
            r matches Ok(v) ==> v@ == chunk_bytes(fourcc@, self.filler@),
    {
        let mut out: Vec<u8> = Vec::new();
        encode_chunk(&mut out, fourcc, self.filler.as_slice())?;
        assert(out@ =~= chunk_bytes(fourcc@, self.filler@));
        Ok(out)
    }
}

} // verus!
