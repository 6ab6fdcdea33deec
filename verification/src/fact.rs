//! The `fact` chunk: the per-channel sample count of compressed audio.
//!
//! The body is a 32-bit `dwSampleLength` followed by any extra bytes a
//! writer appended. In an RF64 file the count may be the `0xFFFFFFFF`
//! sentinel, deferring to the `ds64` chunk.
use vstd::prelude::*;

use crate::ds64::{is_sentinel, SIZE_SENTINEL};
use crate::error::{Error, Result};
use crate::le::{copy_range, le_u32, read_u32};

verus! {

/// FourCC of the fact chunk (`fact`).
pub const FOURCC_FACT: [u8; 4] = [0x66, 0x61, 0x63, 0x74];

/// Minimum body length: the 4-byte `dwSampleLength`.
pub const FACT_MIN_LEN: usize = 4;

/// A decoded `fact` chunk.
#[derive(Clone, Debug, Default, PartialEq, Eq)]
pub struct Fact {
    /// `dwSampleLength`, verbatim (possibly the sentinel).
    pub sample_length: u32,
    /// Bytes after `dwSampleLength`, verbatim.
    pub extra: Vec<u8>,
}

impl Fact {
    /// Decode a `fact` body; it must hold `dwSampleLength`.
    pub fn parse(body: &[u8]) -> (r: Result<Self>)
        ensures
            r is Ok <==> body@.len() >= FACT_MIN_LEN,
            r matches Ok(f) ==> f.sample_length == le_u32(body@, 0) && f.extra@ == body@.subrange(
                4,
                body@.len() as int,
            ),
    {
        if body.len() < FACT_MIN_LEN {
            return Err(Error::invalid("RIFF: fact chunk shorter than 4-byte dwSampleLength"));
        }
        Ok(Fact { sample_length: read_u32(body, 0), extra: copy_range(body, 4, body.len()) })
    }

    /// `true` when the count is the `ds64` sentinel.
    pub fn is_deferred(&self) -> (r: bool)
        ensures
            r == (self.sample_length == SIZE_SENTINEL),
    {
        is_sentinel(self.sample_length)
    }

    /// The sample count, `None` when it is deferred to `ds64`.
    pub fn sample_length(&self) -> (r: Option<u32>)
        ensures
            r == (if self.sample_length == SIZE_SENTINEL {
                None
            } else {
                Some(self.sample_length)
            }),
    {
        if self.is_deferred() {
            None
        } else {
            Some(self.sample_length)
        }
    }

    /// `true` when extra bytes follow the count.
    pub fn has_extra(&self) -> (r: bool)
        ensures
            r == (self.extra@.len() > 0),
    {
        self.extra.len() > 0
    }
}

} // verus!
