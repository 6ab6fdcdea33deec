//! The BW64 `chna` channel-allocation chunk.
//!
//! ```text
//! numTracks : u16   numUIDs : u16
//! audioID[N] : 40 bytes each
//!   trackIndex : u16   UID : CHAR[12]   trackRef : CHAR[14]
//!   packRef : CHAR[11]   pad : u8
//! ```
//!
//! A record whose `trackIndex` is zero is an unused, over-provisioned
//! slot; the record count `N` may exceed `numUIDs`.
use vstd::prelude::*;

use crate::error::{Error, Result};
use crate::le::{array_from, le_u16, lemma_u16_bytes_of_le, lemma_u16_roundtrip, push_slice, push_u16, read_u16, u16_bytes};
use crate::records::{all_len, concat, lemma_concat_fixed, lemma_concat_push, lemma_concat_slices, lemma_join, lemma_sub};
use crate::text::str_from_utf8;
use vstd::utf8::{decode_utf8, valid_utf8};

verus! {

/// FourCC of the channel-allocation chunk (`chna`).
pub const FOURCC_CHNA: [u8; 4] = [0x63, 0x68, 0x6E, 0x61];

/// Size of one `audioID` record.
pub const AUDIO_ID_LEN: usize = 40;

/// Size of the `numTracks` / `numUIDs` preamble.
pub const CHNA_PREFIX_LEN: usize = 4;

/// Width of the UID field.
pub const UID_LEN: usize = 12;

/// Width of the track-reference field.
pub const TRACK_REF_LEN: usize = 14;

/// Width of the pack-reference field.
pub const PACK_REF_LEN: usize = 11;

/// One `audioID` record.
#[derive(Clone, Copy, Debug, PartialEq, Eq, Hash)]
pub struct AudioId {
    /// 1-based physical track index (`0` = unused slot).
    pub track_index: u16,
    /// `audioTrackUID`, NUL-padded.
    pub uid: [u8; 12],
    /// `audioTrackFormatID` / `audioChannelFormatID` reference.
    pub track_ref: [u8; 14],
    /// `audioPackFormatID` reference (all zero when absent).
    pub pack_ref: [u8; 11],
    /// The trailing pad byte, verbatim.
    pub pad: u8,
}

/// The 40 wire bytes of a record.
pub open spec fn audio_id_bytes(a: AudioId) -> Seq<u8> {
    u16_bytes(a.track_index) + a.uid@ + a.track_ref@ + a.pack_ref@ + seq![a.pad]
}

/// `true` when the record whose bytes start at `b[off]` decodes to `a`.
pub open spec fn audio_id_at(b: Seq<u8>, off: int, a: AudioId) -> bool {
    &&& a.track_index == le_u16(b, off)
    &&& a.uid@ == b.subrange(off + 2, off + 14)
    &&& a.track_ref@ == b.subrange(off + 14, off + 28)
    &&& a.pack_ref@ == b.subrange(off + 28, off + 39)
    &&& a.pad == b[off + 39]
}

/// `s` without its trailing NUL bytes.
pub open spec fn trim_trailing_nul(s: Seq<u8>) -> Seq<u8>
    decreases s.len(),
{
    if s.len() > 0 && s.last() == 0 {
        trim_trailing_nul(s.drop_last())
    } else {
        s
    }
}

/// A fixed-width text field without its trailing NULs, as text when it
/// is valid UTF-8.
fn trimmed_str(field: &[u8]) -> (r: Option<&str>)
    ensures
        r is Some <==> valid_utf8(trim_trailing_nul(field@)),
        r matches Some(s) ==> s@ == decode_utf8(trim_trailing_nul(field@)),
{
    let mut end: usize = field.len();
    assert(field@.subrange(0, end as int) =~= field@);
    while end > 0 && field[end - 1] == 0
        invariant
            end <= field@.len(),
            trim_trailing_nul(field@) == trim_trailing_nul(field@.subrange(0, end as int)),
        decreases end,
    {
        assert(field@.subrange(0, end as int).drop_last() =~= field@.subrange(0, end - 1));
        end -= 1;
    }
    str_from_utf8(&field[0..end])
}

impl AudioId {
    /// Decode one 40-byte record; any other length is an error.
    pub fn parse(raw: &[u8]) -> (r: Result<Self>)
        ensures
            r is Ok <==> raw@.len() == AUDIO_ID_LEN,
            r matches Ok(a) ==> audio_id_at(raw@, 0, a),
    {
        if raw.len() != AUDIO_ID_LEN {
            return Err(Error::invalid("RIFF: chna audioID record is not 40 bytes"));
        }
        Ok(
            AudioId {
                track_index: read_u16(raw, 0),
                uid: array_from(raw, 2),
                track_ref: array_from(raw, 14),
                pack_ref: array_from(raw, 28),
                pad: raw[39],
            },
        )
    }

    /// `true` for an unused slot (`trackIndex == 0`).
    pub fn is_unused(&self) -> (r: bool)
        ensures
            r == (self.track_index == 0),
    {
        self.track_index == 0
    }

    /// `true` when the pack reference is all zero.
    pub fn has_no_pack(&self) -> (r: bool)
        ensures
            r == (forall|i: int| 0 <= i < 11 ==> self.pack_ref@[i] == 0),
    {
        let mut i: usize = 0;
        while i < 11
            invariant
                i <= 11,
                forall|j: int| 0 <= j < i ==> self.pack_ref@[j] == 0,
            decreases 11 - i,
        {
            if self.pack_ref[i] != 0 {
                return false;
            }
            i += 1;
        }
        true
    }

    /// The UID without trailing NULs, as text.
    pub fn uid_str(&self) -> (r: Option<&str>)
        ensures
            r is Some <==> valid_utf8(trim_trailing_nul(self.uid@)),
            r matches Some(s) ==> s@ == decode_utf8(trim_trailing_nul(self.uid@)),
    {
        trimmed_str(&self.uid)
    }

    /// The track reference without trailing NULs, as text.
    pub fn track_ref_str(&self) -> (r: Option<&str>)
        ensures
            r is Some <==> valid_utf8(trim_trailing_nul(self.track_ref@)),
            r matches Some(s) ==> s@ == decode_utf8(trim_trailing_nul(self.track_ref@)),
    {
        trimmed_str(&self.track_ref)
    }

    /// The pack reference without trailing NULs, as text.
    pub fn pack_ref_str(&self) -> (r: Option<&str>)
        ensures
            r is Some <==> valid_utf8(trim_trailing_nul(self.pack_ref@)),
            r matches Some(s) ==> s@ == decode_utf8(trim_trailing_nul(self.pack_ref@)),
    {
        trimmed_str(&self.pack_ref)
    }

    /// The record's 40 wire bytes; the exact inverse of
    /// [`AudioId::parse`].
    pub fn encode(&self) -> (r: [u8; 40])
        ensures
            r@ == audio_id_bytes(*self),
    {
        let r = [
            (self.track_index % 256) as u8,
            (self.track_index / 256) as u8,
            self.uid[0],
            self.uid[1],
            self.uid[2],
            self.uid[3],
            self.uid[4],
            self.uid[5],
            self.uid[6],
            self.uid[7],
            self.uid[8],
            self.uid[9],
            self.uid[10],
            self.uid[11],
            self.track_ref[0],
            self.track_ref[1],
            self.track_ref[2],
            self.track_ref[3],
            self.track_ref[4],
            self.track_ref[5],
            self.track_ref[6],
            self.track_ref[7],
            self.track_ref[8],
            self.track_ref[9],
            self.track_ref[10],
            self.track_ref[11],
            self.track_ref[12],
            self.track_ref[13],
            self.pack_ref[0],
            self.pack_ref[1],
            self.pack_ref[2],
            self.pack_ref[3],
            self.pack_ref[4],
            self.pack_ref[5],
            self.pack_ref[6],
            self.pack_ref[7],
            self.pack_ref[8],
            self.pack_ref[9],
            self.pack_ref[10],
            self.pad,
        ];
        assert(r@ =~= audio_id_bytes(*self));
        r
    }
}

/// Decoding the bytes of a record gives the record back.
#[verifier::spinoff_prover]
pub proof fn lemma_audio_id_roundtrip(b: Seq<u8>, off: int, a: AudioId)
    requires
        0 <= off,
        off + 40 <= b.len(),
        b.subrange(off, off + 40) == audio_id_bytes(a),
    ensures
        audio_id_at(b, off, a),
{
    let x = audio_id_bytes(a);
    assert(x.subrange(0, 2) =~= u16_bytes(a.track_index));
    lemma_sub(b, off, 40, x, 0, 2);
    lemma_u16_roundtrip(b, off, a.track_index);
    assert(x.subrange(2, 14) =~= a.uid@);
    lemma_sub(b, off, 40, x, 2, 14);
    assert(x.subrange(14, 28) =~= a.track_ref@);
    lemma_sub(b, off, 40, x, 14, 28);
    assert(x.subrange(28, 39) =~= a.pack_ref@);
    lemma_sub(b, off, 40, x, 28, 39);
    assert(b.subrange(off, off + 40)[39] == b[off + 39]);
}

/// Encoding a decoded record gives the bytes back.
pub proof fn lemma_audio_id_bytes_of(b: Seq<u8>, off: int, a: AudioId)
    requires
        0 <= off,
        off + 40 <= b.len(),
        audio_id_at(b, off, a),
    ensures
        audio_id_bytes(a) == b.subrange(off, off + 40),
{
    lemma_u16_bytes_of_le(b, off);
    assert(audio_id_bytes(a) =~= b.subrange(off, off + 40));
}

/// The content of a `chna` chunk.
pub struct ChnaModel {
    pub num_tracks: u16,
    pub num_uids: u16,
    pub records: Seq<AudioId>,
}

/// A decoded `chna` chunk.
#[derive(Clone, Debug, PartialEq, Eq)]
pub struct ChannelAllocation {
    /// `numTracks`.
    pub num_tracks: u16,
    /// `numUIDs`: the number of used records.
    pub num_uids: u16,
    /// The 40-byte track records, unused ones included.
    pub records: Vec<AudioId>,
}

impl View for ChannelAllocation {
    type V = ChnaModel;

    open spec fn view(&self) -> ChnaModel {
        ChnaModel { num_tracks: self.num_tracks, num_uids: self.num_uids, records: self.records@ }
    }
}

/// `true` if `b` is a `chna` body that [`ChannelAllocation::parse`]
/// accepts: the preamble, then whole 40-byte records.
pub open spec fn chna_parse_ok(b: Seq<u8>) -> bool {
    b.len() >= 4 && (b.len() - 4) % 40 == 0
}

/// `c` is the content of the `chna` body `b`.
pub open spec fn chna_model_of(b: Seq<u8>, c: ChnaModel) -> bool {
    &&& c.num_tracks == le_u16(b, 0)
    &&& c.num_uids == le_u16(b, 2)
    &&& 4 + 40 * c.records.len() == b.len()
    &&& forall|i: int| 0 <= i < c.records.len() ==> audio_id_at(b, 4 + 40 * i, #[trigger] c.records[i])
}

/// The wire bytes of a `chna` body.
pub open spec fn chna_bytes(c: ChnaModel) -> Seq<u8> {
    u16_bytes(c.num_tracks) + u16_bytes(c.num_uids) + concat(
        c.records.map_values(|a: AudioId| audio_id_bytes(a)),
    )
}

/// The used records (non-zero `trackIndex`), in order.
pub open spec fn active_of(s: Seq<AudioId>) -> Seq<AudioId>
    decreases s.len(),
{
    if s.len() == 0 {
        Seq::empty()
    } else if s.last().track_index != 0 {
        active_of(s.drop_last()).push(s.last())
    } else {
        active_of(s.drop_last())
    }
}

/// The first record bound to `track_index`.
pub open spec fn first_with_track(s: Seq<AudioId>, track_index: u16) -> Option<AudioId>
    decreases s.len(),
{
    if s.len() == 0 {
        None
    } else if s[0].track_index == track_index {
        Some(s[0])
    } else {
        first_with_track(s.drop_first(), track_index)
    }
}

proof fn lemma_active_len(s: Seq<AudioId>)
    ensures
        active_of(s).len() <= s.len(),
    decreases s.len(),
{
    if s.len() > 0 {
        lemma_active_len(s.drop_last());
    }
}

impl Default for ChannelAllocation {
    fn default() -> (r: Self)
        ensures
            r@ == (ChnaModel { num_tracks: 0, num_uids: 0, records: Seq::empty() }),
    {
        ChannelAllocation::new()
    }
}

impl ChannelAllocation {
    /// An empty allocation.
    pub fn new() -> (r: Self)
        ensures
            r@ == (ChnaModel { num_tracks: 0, num_uids: 0, records: Seq::empty() }),
    {
        let r = ChannelAllocation { num_tracks: 0, num_uids: 0, records: Vec::new() };
        assert(r@.records =~= Seq::<AudioId>::empty());
        r
    }

    /// Decode a `chna` body; see [`chna_parse_ok`] for when it fails.
    pub fn parse(body: &[u8]) -> (r: Result<Self>)
        ensures
            r is Ok <==> chna_parse_ok(body@),
            r matches Ok(c) ==> chna_model_of(body@, c@),
    {
        let blen = body.len();
        if blen < CHNA_PREFIX_LEN {
            return Err(Error::invalid("RIFF: chna chunk shorter than 4-byte numTracks/numUIDs preamble"));
        }
        if (blen - 4) % AUDIO_ID_LEN != 0 {
            return Err(Error::invalid("RIFF: chna record region is not a whole multiple of 40 bytes"));
        }
        let n = (blen - 4) / AUDIO_ID_LEN;
        let mut records: Vec<AudioId> = Vec::new();
        let mut i: usize = 0;
        while i < n
            invariant
                blen == body@.len(),
                blen == 4 + 40 * n,
                i <= n,
                records@.len() == i,
                forall|j: int| 0 <= j < i ==> audio_id_at(body@, 4 + 40 * j, #[trigger] records@[j]),
            decreases n - i,
        {
            let off = 4 + 40 * i;
            let a = AudioId {
                track_index: read_u16(body, off),
                uid: array_from(body, off + 2),
                track_ref: array_from(body, off + 14),
                pack_ref: array_from(body, off + 28),
                pad: body[off + 39],
            };
            records.push(a);
            i += 1;
        }
        Ok(ChannelAllocation { num_tracks: read_u16(body, 0), num_uids: read_u16(body, 2), records })
    }

    /// Build an allocation from its header values and records.
    pub fn from_records(num_tracks: u16, num_uids: u16, records: Vec<AudioId>) -> (r: Self)
        ensures
            r@ == (ChnaModel { num_tracks, num_uids, records: records@ }),
    {
        ChannelAllocation { num_tracks, num_uids, records }
    }

    /// Append a record, returning the extended allocation.
    pub fn push(self, record: AudioId) -> (r: Self)
        ensures
            r@ == (ChnaModel { records: self@.records.push(record), ..self@ }),
    {
        let mut s = self;
        s.records.push(record);
        s
    }

    /// The wire bytes of this `chna` body; the exact inverse of
    /// [`ChannelAllocation::parse`].
    pub fn encode_body(&self) -> (r: Vec<u8>)
        ensures
            r@ == chna_bytes(self@),
    {
        let mut out: Vec<u8> = Vec::new();
        push_u16(&mut out, self.num_tracks);
        push_u16(&mut out, self.num_uids);
        let ghost prefix = out@;
        let mut i: usize = 0;
        while i < self.records.len()
            invariant
                i <= self.records@.len(),
                out@ == prefix + concat(
                    self.records@.subrange(0, i as int).map_values(|a: AudioId| audio_id_bytes(a)),
                ),
            decreases self.records@.len() - i,
        {
            let rec = self.records[i].encode();
            push_slice(&mut out, &rec);
            proof {
                let t0 = self.records@.subrange(0, i as int);
                let t1 = self.records@.subrange(0, i + 1);
                assert(t1 =~= t0.push(self.records@[i as int]));
                assert(t1.map_values(|a: AudioId| audio_id_bytes(a)) =~= t0.map_values(
                    |a: AudioId| audio_id_bytes(a),
                ).push(audio_id_bytes(self.records@[i as int])));
                lemma_concat_push(
                    t0.map_values(|a: AudioId| audio_id_bytes(a)),
                    audio_id_bytes(self.records@[i as int]),
                );
            }
            i += 1;
        }
        assert(self.records@.subrange(0, self.records@.len() as int) =~= self.records@);
        out
    }

    /// Every record in wire order, unused slots included.
    pub fn records(&self) -> (r: &[AudioId])
        ensures
            r@ == self@.records,
    {
        self.records.as_slice()
    }

    /// The record count.
    pub fn record_count(&self) -> (r: usize)
        ensures
            r == self@.records.len(),
    {
        self.records.len()
    }

    /// The used records, in order.
    pub fn active(&self) -> (r: Vec<&AudioId>)
        ensures
            r@.map_values(|a: &AudioId| *a) == active_of(self@.records),
    {
        let mut out: Vec<&AudioId> = Vec::new();
        let mut i: usize = 0;
        while i < self.records.len()
            invariant
                i <= self.records@.len(),
                out@.map_values(|a: &AudioId| *a) == active_of(self.records@.subrange(0, i as int)),
            decreases self.records@.len() - i,
        {
            let a = &self.records[i];
            proof {
                assert(self.records@.subrange(0, i + 1).drop_last() =~= self.records@.subrange(
                    0,
                    i as int,
                ));
            }
            let ghost before = out@.map_values(|a: &AudioId| *a);
            if !a.is_unused() {
                out.push(a);
                assert(out@.map_values(|a: &AudioId| *a) =~= before.push(*a));
            }
            i += 1;
        }
        assert(self.records@.subrange(0, self.records@.len() as int) =~= self.records@);
        out
    }

    /// The number of used records.
    pub fn active_count(&self) -> (r: usize)
        ensures
            r == active_of(self@.records).len(),
    {
        let mut count: usize = 0;
        let mut i: usize = 0;
        while i < self.records.len()
            invariant
                i <= self.records@.len(),
                count == active_of(self.records@.subrange(0, i as int)).len(),
            decreases self.records@.len() - i,
        {
            proof {
                assert(self.records@.subrange(0, i + 1).drop_last() =~= self.records@.subrange(
                    0,
                    i as int,
                ));
                lemma_active_len(self.records@.subrange(0, i as int));
            }
            if self.records[i].track_index != 0 {
                count += 1;
            }
            i += 1;
        }
        assert(self.records@.subrange(0, self.records@.len() as int) =~= self.records@);
        count
    }

    /// `true` when the used-record count equals `numUIDs`.
    pub fn uid_count_consistent(&self) -> (r: bool)
        ensures
            r == (active_of(self@.records).len() == self@.num_uids),
    {
        self.active_count() == self.num_uids as usize
    }

    /// The first record bound to physical track `track_index`; `None`
    /// for index `0` (the unused marker).
    pub fn by_track_index(&self, track_index: u16) -> (r: Option<&AudioId>)
        ensures
            track_index == 0 ==> r is None,
            track_index != 0 ==> (r is None <==> first_with_track(self@.records, track_index) is None),
            r matches Some(a) ==> first_with_track(self@.records, track_index) == Some(*a),
    {
        if track_index == 0 {
            return None;
        }
        let mut i: usize = 0;
        assert(self.records@.subrange(0, self.records@.len() as int) =~= self.records@);
        while i < self.records.len()
            invariant
                i <= self.records@.len(),
                track_index != 0,
                first_with_track(self.records@, track_index) == first_with_track(
                    self.records@.subrange(i as int, self.records@.len() as int),
                    track_index,
                ),
            decreases self.records@.len() - i,
        {
            let ghost rest = self.records@.subrange(i as int, self.records@.len() as int);
            assert(rest.drop_first() =~= self.records@.subrange(i + 1, self.records@.len() as int));
            assert(rest[0] == self.records@[i as int]);
            if self.records[i].track_index == track_index {
                return Some(&self.records[i]);
            }
            i += 1;
        }
        None
    }
}

/// Encoding a `chna` value and decoding the bytes gives the value back.
#[verifier::spinoff_prover]
pub proof fn lemma_chna_encode_parse(c: ChnaModel)
    ensures
        chna_parse_ok(chna_bytes(c)),
        chna_model_of(chna_bytes(c), c),
{
    let b = chna_bytes(c);
    let m = c.records.map_values(|a: AudioId| audio_id_bytes(a));
    assert(all_len(m, 40)) by {
        assert forall|i: int| 0 <= i < m.len() implies (#[trigger] m[i]).len() == 40 by {
            assert(m[i] == audio_id_bytes(c.records[i]));
        }
    }
    lemma_concat_fixed(m, 40);
    let rb = concat(m);
    assert(b.subrange(0, 2) =~= u16_bytes(c.num_tracks));
    assert(b.subrange(2, 4) =~= u16_bytes(c.num_uids));
    lemma_u16_roundtrip(b, 0, c.num_tracks);
    lemma_u16_roundtrip(b, 2, c.num_uids);
    let n = c.records.len() as int;
    assert(b.subrange(4, 4 + 40 * n) =~= rb);
    assert((b.len() - 4) % 40 == 0) by {
        assert(b.len() - 4 == 40 * n);
    }
    assert forall|i: int| 0 <= i < n implies audio_id_at(b, 4 + 40 * i, #[trigger] c.records[i]) by {
        lemma_sub(b, 4, 40 * n, rb, 40 * i, 40 * i + 40);
        assert(m[i] == audio_id_bytes(c.records[i]));
        lemma_audio_id_roundtrip(b, 4 + 40 * i, c.records[i]);
    }
}

/// Decoding a `chna` body and encoding the result gives the body back.
#[verifier::spinoff_prover]
pub proof fn lemma_chna_parse_encode(b: Seq<u8>, c: ChnaModel)
    requires
        chna_parse_ok(b),
        chna_model_of(b, c),
    ensures
        chna_bytes(c) == b,
{
    let m = c.records.map_values(|a: AudioId| audio_id_bytes(a));
    assert forall|i: int| 0 <= i < m.len() implies #[trigger] m[i] == b.subrange(
        4 + 40 * i,
        4 + 40 * i + 40,
    ) by {
        lemma_audio_id_bytes_of(b, 4 + 40 * i, c.records[i]);
    }
    lemma_concat_slices(m, b, 4, 40);
    lemma_u16_bytes_of_le(b, 0);
    lemma_u16_bytes_of_le(b, 2);
    assert(chna_bytes(c) =~= b);
}

} // verus!
