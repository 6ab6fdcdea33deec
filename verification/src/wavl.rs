//! The `LIST wavl` wave-data list and its `slnt` silence segments.
//!
//! ```text
//! <wave-list>  -> LIST( 'wavl' { <data-ck> | <silence-ck> }... )
//! <data-ck>    -> data( <wave-data:bytes> )
//! <silence-ck> -> slnt( <dwSamples:u32 LE> )
//! ```
//!
//! A `wavl` list stores the waveform scattered over `data` runs and
//! `slnt` silence counts, in play order. [`WaveDataList`] keeps the
//! segments in wire order; children it does not know are kept verbatim.
use vstd::prelude::*;

use crate::chunk::{chunk_bytes, encode_chunk, fourcc_eq, list_id, FOURCC_LIST};
use crate::error::{Error, Result};
use crate::le::{copy_range, le_u32, lemma_u32_roundtrip, push_slice, read_u32, u32_bytes, push_u32};
use crate::records::lemma_concat_push;
use crate::walk::{chunks_bytes, lemma_walk_encoded, read_children, walk_items, walker_items, Walker};

verus! {

/// List type of the wave-data list (`wavl`).
pub const FOURCC_WAVL: [u8; 4] = [0x77, 0x61, 0x76, 0x6C];

/// Silence chunk (`slnt`).
pub const FOURCC_SLNT: [u8; 4] = [0x73, 0x6C, 0x6E, 0x74];

/// Sample-data chunk (`data`).
pub const FOURCC_DATA: [u8; 4] = [0x64, 0x61, 0x74, 0x61];

/// Size of a `slnt` body: the one `dwSamples` field.
pub const SLNT_LEN: usize = 4;

/// `wavl` as a view.
pub open spec fn wavl_id() -> Seq<u8> {
    seq![0x77u8, 0x61u8, 0x76u8, 0x6Cu8]
}

/// `slnt` as a view.
pub open spec fn slnt_id() -> Seq<u8> {
    seq![0x73u8, 0x6Cu8, 0x6Eu8, 0x74u8]
}

/// `data` as a view.
pub open spec fn data_id() -> Seq<u8> {
    seq![0x64u8, 0x61u8, 0x74u8, 0x61u8]
}

/// A `slnt` silence run: a count of silent samples.
#[derive(Clone, Copy, Debug, PartialEq, Eq)]
pub struct Silence {
    /// `dwSamples`: the number of silent samples.
    pub samples: u32,
}

impl Default for Silence {
    fn default() -> (r: Self)
        ensures
            r.samples == 0,
    {
        Silence { samples: 0 }
    }
}

impl Silence {
    /// A silence run of `samples` samples.
    pub fn new(samples: u32) -> (r: Self)
        ensures
            r.samples == samples,
    {
        Silence { samples }
    }

    /// Decode a `slnt` body, which must be exactly four bytes.
    pub fn parse(body: &[u8]) -> (r: Result<Self>)
        ensures
            r is Ok <==> body@.len() == SLNT_LEN,
            r matches Ok(s) ==> s.samples == le_u32(body@, 0),
    {
        if body.len() != SLNT_LEN {
            return Err(Error::invalid("RIFF: slnt chunk body is not exactly 4 bytes (dwSamples)"));
        }
        Ok(Silence { samples: read_u32(body, 0) })
    }

    /// The `slnt` body: `dwSamples` little-endian.
    pub fn encode_body(&self) -> (r: Vec<u8>)
        ensures
            r@ == u32_bytes(self.samples),
    {
        let mut out: Vec<u8> = Vec::new();
        push_u32(&mut out, self.samples);
        assert(out@ =~= u32_bytes(self.samples));
        out
    }

    /// The whole `slnt` chunk: header and the four-byte body.
    pub fn encode_chunk(&self) -> (r: Vec<u8>)
        ensures
            r@ == chunk_bytes(slnt_id(), u32_bytes(self.samples)),
    {
        let body = self.encode_body();
        let mut out: Vec<u8> = Vec::new();
        let res = encode_chunk(&mut out, &FOURCC_SLNT, body.as_slice());
        assert(res is Ok);
        assert(FOURCC_SLNT@ =~= slnt_id());
        assert(out@ =~= chunk_bytes(slnt_id(), u32_bytes(self.samples)));
        out
    }
}

/// What a segment holds.
pub enum SegmentModel {
    /// A `data` run of sample bytes.
    Data(Seq<u8>),
    /// A `slnt` run of silent samples.
    Silence(u32),
    /// A child of another kind: its FourCC and body.
    Other([u8; 4], Seq<u8>),
}

/// One segment of a wave-data list.
#[derive(Clone, Debug, PartialEq, Eq)]
pub enum WaveSegment {
    /// A `data` chunk's sample bytes.
    Data(Vec<u8>),
    /// A `slnt` chunk.
    Silence(Silence),
    /// A child of another kind, kept verbatim (FourCC and body).
    Other([u8; 4], Vec<u8>),
}

impl View for WaveSegment {
    type V = SegmentModel;

    open spec fn view(&self) -> SegmentModel {
        match self {
            WaveSegment::Data(b) => SegmentModel::Data(b@),
            WaveSegment::Silence(s) => SegmentModel::Silence(s.samples),
            WaveSegment::Other(id, b) => SegmentModel::Other(*id, b@),
        }
    }
}

impl WaveSegment {
    /// `true` for a `data` segment.
    pub fn is_data(&self) -> (r: bool)
        ensures
            r == self@ is Data,
    {
        match self {
            WaveSegment::Data(_) => true,
            _ => false,
        }
    }

    /// `true` for a `slnt` segment.
    pub fn is_silence(&self) -> (r: bool)
        ensures
            r == self@ is Silence,
    {
        match self {
            WaveSegment::Silence(_) => true,
            _ => false,
        }
    }

    /// The sample bytes of a `data` segment.
    pub fn data_bytes(&self) -> (r: Option<&[u8]>)
        ensures
            r is Some <==> self@ is Data,
            r matches Some(b) ==> self@ == SegmentModel::Data(b@),
    {
        match self {
            WaveSegment::Data(b) => Some(b.as_slice()),
            _ => None,
        }
    }

    /// The silent-sample count of a `slnt` segment.
    pub fn silence_samples(&self) -> (r: Option<u32>)
        ensures
            r is Some <==> self@ is Silence,
            r matches Some(n) ==> self@ == SegmentModel::Silence(n),
    {
        match self {
            WaveSegment::Silence(s) => Some(s.samples),
            _ => None,
        }
    }
}

/// The segment a child chunk decodes to (a `slnt` body is read as its
/// first four bytes; see [`slnt_ok`]).
pub open spec fn segment_of(fourcc: [u8; 4], body: Seq<u8>) -> SegmentModel {
    if fourcc@ == data_id() {
        SegmentModel::Data(body)
    } else if fourcc@ == slnt_id() {
        SegmentModel::Silence(le_u32(body, 0))
    } else {
        SegmentModel::Other(fourcc, body)
    }
}

/// A child is acceptable: anything but a `slnt` whose body is not four
/// bytes.
pub open spec fn slnt_ok(fourcc: [u8; 4], body: Seq<u8>) -> bool {
    fourcc@ == slnt_id() ==> body.len() == 4
}

/// Every child is acceptable.
pub open spec fn children_ok(items: Seq<([u8; 4], Seq<u8>)>) -> bool {
    forall|i: int| 0 <= i < items.len() ==> slnt_ok(#[trigger] items[i].0, items[i].1)
}

/// The segments a run of children decodes to.
pub open spec fn segments_of(items: Seq<([u8; 4], Seq<u8>)>) -> Seq<SegmentModel> {
    items.map_values(|it: ([u8; 4], Seq<u8>)| segment_of(it.0, it.1))
}

/// The child chunk a segment encodes to.
pub open spec fn segment_child(m: SegmentModel) -> ([u8; 4], Seq<u8>) {
    match m {
        SegmentModel::Data(b) => (FOURCC_DATA, b),
        SegmentModel::Silence(n) => (FOURCC_SLNT, u32_bytes(n)),
        SegmentModel::Other(id, b) => (id, b),
    }
}

/// The child chunks a list encodes to.
pub open spec fn wavl_children(s: Seq<SegmentModel>) -> Seq<([u8; 4], Seq<u8>)> {
    s.map_values(|m: SegmentModel| segment_child(m))
}

/// The `LIST wavl` body a list encodes to.
pub open spec fn wavl_body_bytes(s: Seq<SegmentModel>) -> Seq<u8> {
    wavl_id() + chunks_bytes(wavl_children(s))
}

/// Every segment's body fits a 32-bit `ckSize`.
pub open spec fn wavl_encodable(s: Seq<SegmentModel>) -> bool {
    forall|i: int| 0 <= i < s.len() ==> (#[trigger] segment_child(s[i])).1.len() <= u32::MAX
}

/// The sample bytes a segment contributes.
pub open spec fn data_len(m: SegmentModel) -> nat {
    match m {
        SegmentModel::Data(b) => b.len(),
        _ => 0,
    }
}

/// The silent samples a segment contributes.
pub open spec fn silent_len(m: SegmentModel) -> nat {
    match m {
        SegmentModel::Silence(n) => n as nat,
        _ => 0,
    }
}

/// Total sample bytes over the `data` segments.
pub open spec fn total_data(s: Seq<SegmentModel>) -> nat
    decreases s.len(),
{
    if s.len() == 0 {
        0
    } else {
        total_data(s.drop_last()) + data_len(s.last())
    }
}

/// Total silent samples over the `slnt` segments.
pub open spec fn total_silent(s: Seq<SegmentModel>) -> nat
    decreases s.len(),
{
    if s.len() == 0 {
        0
    } else {
        total_silent(s.drop_last()) + silent_len(s.last())
    }
}

/// A prefix holds no more data bytes and silent samples than a longer
/// prefix.
pub proof fn lemma_total_prefix(s: Seq<SegmentModel>, i: int, j: int)
    requires
        0 <= i <= j <= s.len(),
    ensures
        total_data(s.take(i)) <= total_data(s.take(j)),
        total_silent(s.take(i)) <= total_silent(s.take(j)),
    decreases j - i,
{
    if i < j {
        lemma_total_prefix(s, i, j - 1);
        assert(s.take(j).drop_last() =~= s.take(j - 1));
    }
}

/// A decoded `LIST wavl`: segments in play order.
#[derive(Clone, Debug, PartialEq, Eq)]
pub struct WaveDataList {
    segments: Vec<WaveSegment>,
}

impl View for WaveDataList {
    type V = Seq<SegmentModel>;

    closed spec fn view(&self) -> Seq<SegmentModel> {
        self.segments@.map_values(|s: WaveSegment| s@)
    }
}

impl Default for WaveDataList {
    fn default() -> (r: Self)
        ensures
            r@ == Seq::<SegmentModel>::empty(),
    {
        WaveDataList::new()
    }
}

impl WaveDataList {
    /// An empty list.
    pub fn new() -> (r: Self)
        ensures
            r@ == Seq::<SegmentModel>::empty(),
    {
        let r = WaveDataList { segments: Vec::new() };
        assert(r@ =~= Seq::<SegmentModel>::empty());
        r
    }

    /// The segments in play order.
    pub fn segments(&self) -> (r: &[WaveSegment])
        ensures
            r@.map_values(|s: WaveSegment| s@) == self@,
    {
        self.segments.as_slice()
    }

    /// Number of segments of any kind.
    pub fn len(&self) -> (r: usize)
        ensures
            r == self@.len(),
    {
        self.segments.len()
    }

    /// `true` when the list holds no segment.
    pub fn is_empty(&self) -> (r: bool)
        ensures
            r == (self@.len() == 0),
    {
        self.segments.len() == 0
    }

    /// Total sample bytes over the `data` segments.
    pub fn total_data_bytes(&self) -> (r: u64)
        requires
            total_data(self@) <= u64::MAX,
        ensures
            r == total_data(self@),
    {
        let mut total: u64 = 0;
        let mut i: usize = 0;
        while i < self.segments.len()
            invariant
                i <= self@.len(),
                self@.len() == self.segments@.len(),
                total_data(self@) <= u64::MAX,
                total == total_data(self@.take(i as int)),
            decreases self@.len() - i,
        {
            proof {
                lemma_total_prefix(self@, i + 1, self@.len() as int);
                assert(self@.take(self@.len() as int) =~= self@);
                assert(self@.take(i + 1).drop_last() =~= self@.take(i as int));
                assert(self@[i as int] == self.segments@[i as int]@);
                assert(self@.take(i + 1).last() == self@[i as int]);
                assert(total_data(self@.take(i + 1)) == total_data(self@.take(i as int)) + data_len(self@[i as int]));
            }
            let add: u64 = match &self.segments[i] {
                WaveSegment::Data(b) => {
                    assert(self@[i as int] == SegmentModel::Data(b@));
                    b.len() as u64
                },
                _ => {
                    assert(!(self@[i as int] is Data));
                    0
                },
            };
            assert(add == data_len(self@[i as int]));
            total = total + add;
            i += 1;
        }
        assert(self@.take(self@.len() as int) =~= self@);
        total
    }

    /// Total silent samples over the `slnt` segments.
    pub fn total_silent_samples(&self) -> (r: u64)
        requires
            total_silent(self@) <= u64::MAX,
        ensures
            r == total_silent(self@),
    {
        let mut total: u64 = 0;
        let mut i: usize = 0;
        while i < self.segments.len()
            invariant
                i <= self@.len(),
                self@.len() == self.segments@.len(),
                total_silent(self@) <= u64::MAX,
                total == total_silent(self@.take(i as int)),
            decreases self@.len() - i,
        {
            proof {
                lemma_total_prefix(self@, i + 1, self@.len() as int);
                assert(self@.take(self@.len() as int) =~= self@);
                assert(self@.take(i + 1).drop_last() =~= self@.take(i as int));
                assert(self@[i as int] == self.segments@[i as int]@);
                assert(self@.take(i + 1).last() == self@[i as int]);
                assert(total_silent(self@.take(i + 1)) == total_silent(self@.take(i as int)) + silent_len(self@[i as int]));
            }
            let add: u64 = match &self.segments[i] {
                WaveSegment::Silence(s) => {
                    assert(self@[i as int] == SegmentModel::Silence(s.samples));
                    s.samples as u64
                },
                _ => {
                    assert(!(self@[i as int] is Silence));
                    0
                },
            };
            assert(add == silent_len(self@[i as int]));
            total = total + add;
            i += 1;
        }
        assert(self@.take(self@.len() as int) =~= self@);
        total
    }

    /// Append a `data` segment.
    pub fn push_data(&mut self, bytes: Vec<u8>)
        ensures
            final(self)@ == old(self)@.push(SegmentModel::Data(bytes@)),
    {
        self.push_segment(WaveSegment::Data(bytes));
    }

    /// Append a `slnt` segment of `samples` silent samples.
    pub fn push_silence(&mut self, samples: u32)
        ensures
            final(self)@ == old(self)@.push(SegmentModel::Silence(samples)),
    {
        self.push_segment(WaveSegment::Silence(Silence::new(samples)));
    }

    /// Append a segment.
    pub fn push_segment(&mut self, seg: WaveSegment)
        ensures
            final(self)@ == old(self)@.push(seg@),
    {
        let ghost m = seg@;
        self.segments.push(seg);
        assert(self@ =~= old(self)@.push(m));
    }

    /// Decode one child chunk and append it: `data` as sample bytes,
    /// `slnt` as a silence run, anything else verbatim. Fails, leaving the
    /// list unchanged, on a `slnt` body that is not four bytes.
    pub fn push_child(&mut self, fourcc: [u8; 4], body: &[u8]) -> (r: Result<()>)
        ensures
            r is Ok <==> slnt_ok(fourcc, body@),
            r is Ok ==> final(self)@ == old(self)@.push(segment_of(fourcc, body@)),
            r is Err ==> final(self)@ == old(self)@,
    {
        proof {
            assert(FOURCC_DATA@ =~= data_id());
            assert(FOURCC_SLNT@ =~= slnt_id());
            assert(body@.subrange(0, body@.len() as int) =~= body@);
        }
        if fourcc_eq(&fourcc, &FOURCC_DATA) {
            self.push_data(copy_range(body, 0, body.len()));
        } else if fourcc_eq(&fourcc, &FOURCC_SLNT) {
            let s = Silence::parse(body)?;
            self.push_segment(WaveSegment::Silence(s));
        } else {
            self.push_segment(WaveSegment::Other(fourcc, copy_range(body, 0, body.len())));
        }
        Ok(())
    }

    /// Read every child of a walker over a `LIST wavl` body, in order.
    /// Fails when the walker's list type is not `wavl`, when a child
    /// cannot be read, or on a `slnt` body that is not four bytes.
    pub fn collect_from(walker: &mut Walker) -> (r: Result<WaveDataList>)
        ensures
            final(walker).same_parent(old(walker)),
            r is Ok <==> (old(walker).spec_form_type()@ == wavl_id() && (walker_items(*old(walker))
                matches Some(items) && children_ok(items))),
            r matches Ok(l) ==> (walker_items(*old(walker)) matches Some(items) && l@
                == segments_of(items)),
    {
        let ft = walker.form_type();
        proof {
            assert(FOURCC_WAVL@ =~= wavl_id());
        }
        if !fourcc_eq(&ft, &FOURCC_WAVL) {
            return Err(Error::invalid("RIFF: collect_from called on a non-wavl LIST"));
        }
        let ghost w0 = *walker;
        let children = read_children(walker)?;
        let ghost items = children@.map_values(|p: ([u8; 4], Vec<u8>)| (p.0, p.1@));
        let ghost w1 = *walker;
        let mut list = WaveDataList::new();
        let mut i: usize = 0;
        while i < children.len()
            invariant
                i <= children@.len(),
                items == children@.map_values(|p: ([u8; 4], Vec<u8>)| (p.0, p.1@)),
                list@ == segments_of(items.subrange(0, i as int)),
                children_ok(items.subrange(0, i as int)),
                *walker == w1,
                w1.same_parent(&w0),
                w0 == *old(walker),
                walker_items(w0) == Some(items),
                w0.spec_form_type()@ == wavl_id(),
            decreases children@.len() - i,
        {
            let res = list.push_child(children[i].0, children[i].1.as_slice());
            if res.is_err() {
                assert(!slnt_ok(items[i as int].0, items[i as int].1));
                return Err(Error::invalid("RIFF: slnt chunk body is not exactly 4 bytes (dwSamples)"));
            }
            proof {
                assert(items.subrange(0, i + 1) =~= items.subrange(0, i as int).push(items[i as int]));
                assert(segments_of(items.subrange(0, i + 1)) =~= segments_of(
                    items.subrange(0, i as int),
                ).push(segment_of(children@[i as int].0, children@[i as int].1@)));
                assert forall|j: int| 0 <= j < i + 1 implies slnt_ok(
                    #[trigger] items.subrange(0, i + 1)[j].0,
                    items.subrange(0, i + 1)[j].1,
                ) by {
                    if j < i {
                        assert(items.subrange(0, i + 1)[j] == items.subrange(0, i as int)[j]);
                    }
                }
            }
            i += 1;
        }
        assert(items.subrange(0, items.len() as int) =~= items);
        Ok(list)
    }

    /// The `LIST wavl` body: the `wavl` list type, then one child chunk
    /// per segment in order (odd `data` runs padded). Fails when a body
    /// is too long for a 32-bit `ckSize`.
    pub fn encode_list_body(&self) -> (r: Result<Vec<u8>>)
        ensures
            r is Ok <==> wavl_encodable(self@),
            r matches Ok(v) ==> v@ == wavl_body_bytes(self@),
    {
        let mut out: Vec<u8> = Vec::new();
        push_slice(&mut out, &FOURCC_WAVL);
        assert(out@ =~= wavl_id() + chunks_bytes(wavl_children(self@.subrange(0, 0))));
        let mut i: usize = 0;
        while i < self.segments.len()
            invariant
                i <= self@.len(),
                self@.len() == self.segments@.len(),
                out@ == wavl_id() + chunks_bytes(wavl_children(self@.subrange(0, i as int))),
                forall|j: int| 0 <= j < i ==> (#[trigger] segment_child(self@[j])).1.len() <= u32::MAX,
            decreases self@.len() - i,
        {
            assert(self@[i as int] == self.segments@[i as int]@);
            let ghost item = segment_child(self@[i as int]);
            let res = match &self.segments[i] {
                WaveSegment::Data(b) => encode_chunk(&mut out, &FOURCC_DATA, b.as_slice()),
                WaveSegment::Silence(s) => {
                    let body = s.encode_body();
                    encode_chunk(&mut out, &FOURCC_SLNT, body.as_slice())
                },
                WaveSegment::Other(id, b) => encode_chunk(&mut out, id, b.as_slice()),
            };
            if res.is_err() {
                return Err(Error::invalid("RIFF: chunk body exceeds 32-bit ckSize range"));
            }
            proof {
                let f = |it: ([u8; 4], Seq<u8>)| chunk_bytes(it.0@, it.1);
                let c0 = wavl_children(self@.subrange(0, i as int));
                let c1 = wavl_children(self@.subrange(0, i + 1));
                assert(c1 =~= c0.push(item));
                assert(c1.map_values(f) =~= c0.map_values(f).push(chunk_bytes(item.0@, item.1)));
                lemma_concat_push(c0.map_values(f), chunk_bytes(item.0@, item.1));
            }
            i += 1;
        }
        assert(self@.subrange(0, self@.len() as int) =~= self@);
        Ok(out)
    }

    /// The whole `LIST wavl` chunk: a `LIST` header around
    /// [`WaveDataList::encode_list_body`].
    pub fn encode_chunk(&self) -> (r: Result<Vec<u8>>)
        ensures
            r is Ok <==> (wavl_encodable(self@) && wavl_body_bytes(self@).len() <= u32::MAX),
            r matches Ok(v) ==> v@ == chunk_bytes(list_id(), wavl_body_bytes(self@)),
    {
        let body = self.encode_list_body()?;
        let mut out: Vec<u8> = Vec::new();
        encode_chunk(&mut out, &FOURCC_LIST, body.as_slice())?;
        proof {
            assert(FOURCC_LIST@ =~= list_id());
            assert(out@ =~= chunk_bytes(list_id(), wavl_body_bytes(self@)));
        }
        Ok(out)
    }
}

/// A segment list round-trips through its encoding: the `LIST wavl`
/// body that [`WaveDataList::encode_list_body`] writes walks back to its
/// children, every child is acceptable, and they decode to the same
/// segments — as long as no verbatim segment carries the `data` or
/// `slnt` FourCC, which would decode as that kind instead.
pub proof fn lemma_wavl_encode_collect(s: Seq<SegmentModel>)
    requires
        wavl_encodable(s),
        forall|i: int|
            0 <= i < s.len() ==> (#[trigger] s[i] matches SegmentModel::Other(id, _) ==> (id@
                != data_id() && id@ != slnt_id())),
    ensures
        walk_items(wavl_body_bytes(s), 4, wavl_body_bytes(s).len() - 4) == Some(wavl_children(s)),
        children_ok(wavl_children(s)),
        segments_of(wavl_children(s)) == s,
{
    let b = wavl_body_bytes(s);
    let c = wavl_children(s);
    let cb = chunks_bytes(c);
    assert(b.subrange(4, 4 + cb.len() as int) =~= cb);
    assert forall|i: int| 0 <= i < c.len() implies (#[trigger] c[i]).1.len() <= u32::MAX by {
        assert(c[i] == segment_child(s[i]));
    }
    lemma_walk_encoded(b, 4, c);
    assert(FOURCC_DATA@ =~= data_id());
    assert(FOURCC_SLNT@ =~= slnt_id());
    assert(data_id() != slnt_id()) by {
        assert(data_id()[0] != slnt_id()[0]);
    }
    assert forall|i: int| 0 <= i < c.len() implies slnt_ok(#[trigger] c[i].0, c[i].1) by {
        assert(c[i] == segment_child(s[i]));
    }
    let e = segments_of(c);
    assert forall|i: int| 0 <= i < s.len() implies #[trigger] e[i] == s[i] by {
        assert(c[i] == segment_child(s[i]));
        match s[i] {
            SegmentModel::Silence(n) => {
                assert(u32_bytes(n).subrange(0, 4) =~= u32_bytes(n));
                lemma_u32_roundtrip(u32_bytes(n), 0, n);
            },
            _ => {},
        }
    }
    assert(e =~= s);
}

/// A silence run round-trips through its body.
#[verifier::spinoff_prover]
pub proof fn lemma_silence_encode_parse(samples: u32)
    ensures
        u32_bytes(samples).len() == SLNT_LEN,
        le_u32(u32_bytes(samples), 0) == samples,
{
    assert(u32_bytes(samples).subrange(0, 4) =~= u32_bytes(samples));
    lemma_u32_roundtrip(u32_bytes(samples), 0, samples);
}

} // verus!
