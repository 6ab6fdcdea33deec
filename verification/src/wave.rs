//! A typed view of the chunks of a `RIFF/WAVE` file.
//!
//! [`WaveFile::from_tree`] walks the top level of a parsed
//! [`RiffTree`] and decodes the chunks a WAV / BWF file commonly
//! carries into their typed structs:
//!
//! | chunk       | decoded as             |
//! |-------------|------------------------|
//! | `fmt `      | [`WaveFormat`]         |
//! | `fact`      | [`Fact`]               |
//! | `cue `      | [`CueChunk`]           |
//! | `plst`      | [`Playlist`]           |
//! | `bext`      | [`BroadcastExtension`] |
//! | `acid`      | [`Acid`]               |
//! | `smpl`      | [`Smpl`]               |
//! | `inst`      | [`Inst`]               |
//! | `LIST INFO` | [`InfoList`]           |
//! | `LIST adtl` | [`AdtlList`]           |
//!
//! Every field is optional; when a chunk occurs more than once, the last
//! one wins. Other chunks stay in the tree, untouched.
use vstd::prelude::*;

use crate::acid::{acid_of, Acid, ACID_LEN};
use crate::adtl::{adtl_entry_of, AdtlEntryModel, AdtlList};
use crate::bext::{bext_fields_of, BroadcastExtension, BEXT_PREFIX_LEN};
use crate::cue::{cue_parse_ok, cue_points_of, CueChunk};
use crate::error::{Error, Result};
use crate::fact::{Fact, FACT_MIN_LEN};
use crate::info::{InfoList, InfoTag};
use crate::inst::{Inst, INST_LEN};
use crate::le::le_u32;
use crate::plst::{plst_parse_ok, segments_of, Playlist};
use crate::smpl::{smpl_model_of, smpl_parse_ok, Smpl};
use crate::text::{before_nul, lossy_text};
use crate::tree::{lemma_view_seq_index, lemma_view_seq_len, view_seq, ChunkModel, RiffChunk, RiffTree};
use crate::waveformat::{fmt_model_of, fmt_parse_ok, WaveFormat};

verus! {

/// Form type of a `RIFF/WAVE` file (`WAVE`).
pub const FORM_WAVE: [u8; 4] = [0x57, 0x41, 0x56, 0x45];

/// `WAVE` as a view.
pub open spec fn wave_id() -> Seq<u8> {
    seq![0x57u8, 0x41u8, 0x56u8, 0x45u8]
}

/// The role a top-level chunk plays in a `WAVE` file.
#[derive(Clone, Copy, Debug, PartialEq, Eq)]
pub enum WaveChunkKind {
    /// `fmt `
    Format,
    /// `fact`
    Fact,
    /// `cue `
    Cue,
    /// `plst`
    Playlist,
    /// `bext`
    Bext,
    /// `acid`
    Acid,
    /// `smpl`
    Smpl,
    /// `inst`
    Inst,
    /// `LIST INFO`
    Info,
    /// `LIST adtl`
    Adtl,
    /// Anything else.
    Other,
}

/// The role of a leaf chunk, by FourCC.
pub open spec fn leaf_kind(id: Seq<u8>) -> WaveChunkKind {
    match (id[0], id[1], id[2], id[3]) {
        (0x66u8, 0x6Du8, 0x74u8, 0x20u8) => WaveChunkKind::Format,
        (0x66u8, 0x61u8, 0x63u8, 0x74u8) => WaveChunkKind::Fact,
        (0x63u8, 0x75u8, 0x65u8, 0x20u8) => WaveChunkKind::Cue,
        (0x70u8, 0x6Cu8, 0x73u8, 0x74u8) => WaveChunkKind::Playlist,
        (0x62u8, 0x65u8, 0x78u8, 0x74u8) => WaveChunkKind::Bext,
        (0x61u8, 0x63u8, 0x69u8, 0x64u8) => WaveChunkKind::Acid,
        (0x73u8, 0x6Du8, 0x70u8, 0x6Cu8) => WaveChunkKind::Smpl,
        (0x69u8, 0x6Eu8, 0x73u8, 0x74u8) => WaveChunkKind::Inst,
        _ => WaveChunkKind::Other,
    }
}

/// The role of a group chunk, by FourCC and list type.
pub open spec fn group_kind(id: Seq<u8>, ft: Seq<u8>) -> WaveChunkKind {
    match (id[0], id[1], id[2], id[3], ft[0], ft[1], ft[2], ft[3]) {
        (0x4Cu8, 0x49u8, 0x53u8, 0x54u8, 0x49u8, 0x4Eu8, 0x46u8, 0x4Fu8) => WaveChunkKind::Info,
        (0x4Cu8, 0x49u8, 0x53u8, 0x54u8, 0x61u8, 0x64u8, 0x74u8, 0x6Cu8) => WaveChunkKind::Adtl,
        _ => WaveChunkKind::Other,
    }
}

/// The role of a chunk.
pub open spec fn chunk_kind(c: ChunkModel) -> WaveChunkKind {
    match c {
        ChunkModel::Leaf { id, .. } => leaf_kind(id),
        ChunkModel::Group { id, form_type, .. } => group_kind(id, form_type),
    }
}

/// A leaf's payload (empty for a group).
pub open spec fn body_of(c: ChunkModel) -> Seq<u8> {
    match c {
        ChunkModel::Leaf { body, .. } => body,
        _ => Seq::empty(),
    }
}

/// A group's children (empty for a leaf).
pub open spec fn children_of(c: ChunkModel) -> Seq<ChunkModel> {
    match c {
        ChunkModel::Group { children, .. } => children,
        _ => Seq::empty(),
    }
}

/// The array of the first four bytes of `s`.
pub open spec fn fourcc_of(s: Seq<u8>) -> [u8; 4] {
    [s[0], s[1], s[2], s[3]]
}

/// The last chunk of `s` that plays role `k`.
pub open spec fn last_of(s: Seq<ChunkModel>, k: WaveChunkKind) -> Option<ChunkModel>
    decreases s.len(),
{
    if s.len() == 0 {
        None
    } else if chunk_kind(s.last()) == k {
        Some(s.last())
    } else {
        last_of(s.drop_last(), k)
    }
}

/// The `INFO` entries the leaf children of a list decode to.
pub open spec fn info_from(s: Seq<ChunkModel>) -> Seq<(InfoTag, Seq<char>)>
    decreases s.len(),
{
    if s.len() == 0 {
        Seq::empty()
    } else {
        let rest = info_from(s.drop_last());
        match s.last() {
            ChunkModel::Leaf { id, body } => rest.push(
                (InfoTag(fourcc_of(id)), lossy_text(before_nul(body))),
            ),
            _ => rest,
        }
    }
}

/// The `adtl` entries the leaf children of a list decode to; `None`
/// when one of them does not decode.
pub open spec fn adtl_from(s: Seq<ChunkModel>) -> Option<Seq<AdtlEntryModel>>
    decreases s.len(),
{
    if s.len() == 0 {
        Some(Seq::empty())
    } else {
        match adtl_from(s.drop_last()) {
            None => None,
            Some(rest) => match s.last() {
                ChunkModel::Leaf { id, body } => match adtl_entry_of(fourcc_of(id), body) {
                    Some(e) => Some(rest.push(e)),
                    None => None,
                },
                _ => Some(rest),
            },
        }
    }
}

/// A top-level chunk decodes under its role.
pub open spec fn chunk_ok(c: ChunkModel) -> bool {
    let b = body_of(c);
    match chunk_kind(c) {
        WaveChunkKind::Format => fmt_parse_ok(b),
        WaveChunkKind::Fact => b.len() >= FACT_MIN_LEN,
        WaveChunkKind::Cue => cue_parse_ok(b),
        WaveChunkKind::Playlist => plst_parse_ok(b),
        WaveChunkKind::Bext => b.len() >= BEXT_PREFIX_LEN,
        WaveChunkKind::Acid => b.len() == ACID_LEN,
        WaveChunkKind::Smpl => smpl_parse_ok(b),
        WaveChunkKind::Inst => b.len() == INST_LEN,
        WaveChunkKind::Adtl => adtl_from(children_of(c)) is Some,
        _ => true,
    }
}

/// Every top-level chunk decodes under its role.
pub open spec fn wave_children_ok(s: Seq<ChunkModel>) -> bool {
    forall|i: int| 0 <= i < s.len() ==> chunk_ok(#[trigger] s[i])
}

/// Each field of `w` holds the decoding of the last chunk of `s` in its
/// role, or nothing when `s` has no such chunk.
pub open spec fn wave_matches(w: WaveFile, s: Seq<ChunkModel>) -> bool {
    &&& match last_of(s, WaveChunkKind::Format) {
        Some(c) => (w.format matches Some(f) && f@ == fmt_model_of(body_of(c))),
        None => w.format is None,
    }
    &&& match last_of(s, WaveChunkKind::Fact) {
        Some(c) => (w.fact matches Some(f) && f.sample_length == le_u32(body_of(c), 0)
            && f.extra@ == body_of(c).subrange(4, body_of(c).len() as int)),
        None => w.fact is None,
    }
    &&& match last_of(s, WaveChunkKind::Cue) {
        Some(c) => (w.cue matches Some(x) && x@ == cue_points_of(body_of(c))),
        None => w.cue is None,
    }
    &&& match last_of(s, WaveChunkKind::Playlist) {
        Some(c) => (w.playlist matches Some(x) && x@ == segments_of(body_of(c))),
        None => w.playlist is None,
    }
    &&& match last_of(s, WaveChunkKind::Bext) {
        Some(c) => (w.bext matches Some(x) && bext_fields_of(body_of(c), x)),
        None => w.bext is None,
    }
    &&& match last_of(s, WaveChunkKind::Acid) {
        Some(c) => w.acid == Some(acid_of(body_of(c))),
        None => w.acid is None,
    }
    &&& match last_of(s, WaveChunkKind::Smpl) {
        Some(c) => (w.smpl matches Some(x) && x@ == smpl_model_of(body_of(c))),
        None => w.smpl is None,
    }
    &&& match last_of(s, WaveChunkKind::Inst) {
        Some(c) => (w.inst matches Some(x) && x.encode_spec() == body_of(c)),
        None => w.inst is None,
    }
    &&& match last_of(s, WaveChunkKind::Info) {
        Some(c) => (w.info matches Some(x) && x@ == info_from(children_of(c))),
        None => w.info is None,
    }
    &&& match last_of(s, WaveChunkKind::Adtl) {
        Some(c) => (w.adtl matches Some(x) && adtl_from(children_of(c)) == Some(x@)),
        None => w.adtl is None,
    }
}

/// The typed chunks of a `RIFF/WAVE` file; the sample data and every
/// other chunk stay in the tree.
#[derive(Clone, Debug, PartialEq)]
pub struct WaveFile {
    /// The `fmt ` format descriptor.
    pub format: Option<WaveFormat>,
    /// The `fact` chunk.
    pub fact: Option<Fact>,
    /// The `cue ` cue-point table.
    pub cue: Option<CueChunk>,
    /// The `plst` playlist.
    pub playlist: Option<Playlist>,
    /// The `bext` broadcast extension.
    pub bext: Option<BroadcastExtension>,
    /// The `acid` loop block.
    pub acid: Option<Acid>,
    /// The `smpl` sampler chunk.
    pub smpl: Option<Smpl>,
    /// The `inst` instrument chunk.
    pub inst: Option<Inst>,
    /// The `LIST INFO` metadata list.
    pub info: Option<InfoList>,
    /// The `LIST adtl` associated-data list.
    pub adtl: Option<AdtlList>,
}

/// `w` holds nothing.
pub open spec fn wave_empty(w: WaveFile) -> bool {
    &&& w.format is None
    &&& w.fact is None
    &&& w.cue is None
    &&& w.playlist is None
    &&& w.bext is None
    &&& w.acid is None
    &&& w.smpl is None
    &&& w.inst is None
    &&& w.info is None
    &&& w.adtl is None
}

impl Default for WaveFile {
    fn default() -> (r: Self)
        ensures
            wave_empty(r),
    {
        WaveFile {
            format: None,
            fact: None,
            cue: None,
            playlist: None,
            bext: None,
            acid: None,
            smpl: None,
            inst: None,
            info: None,
            adtl: None,
        }
    }
}

/// The role of a chunk.
fn kind_of(c: &RiffChunk) -> (k: WaveChunkKind)
    ensures
        k == chunk_kind(c@),
{
    match c {
        RiffChunk::Leaf { id, .. } => match (id[0], id[1], id[2], id[3]) {
            (0x66u8, 0x6Du8, 0x74u8, 0x20u8) => WaveChunkKind::Format,
            (0x66u8, 0x61u8, 0x63u8, 0x74u8) => WaveChunkKind::Fact,
            (0x63u8, 0x75u8, 0x65u8, 0x20u8) => WaveChunkKind::Cue,
            (0x70u8, 0x6Cu8, 0x73u8, 0x74u8) => WaveChunkKind::Playlist,
            (0x62u8, 0x65u8, 0x78u8, 0x74u8) => WaveChunkKind::Bext,
            (0x61u8, 0x63u8, 0x69u8, 0x64u8) => WaveChunkKind::Acid,
            (0x73u8, 0x6Du8, 0x70u8, 0x6Cu8) => WaveChunkKind::Smpl,
            (0x69u8, 0x6Eu8, 0x73u8, 0x74u8) => WaveChunkKind::Inst,
            _ => WaveChunkKind::Other,
        },
        RiffChunk::Group { id, form_type, .. } => {
            let ft = form_type;
            match (id[0], id[1], id[2], id[3], ft[0], ft[1], ft[2], ft[3]) {
                (0x4Cu8, 0x49u8, 0x53u8, 0x54u8, 0x49u8, 0x4Eu8, 0x46u8, 0x4Fu8) => WaveChunkKind::Info,
                (0x4Cu8, 0x49u8, 0x53u8, 0x54u8, 0x61u8, 0x64u8, 0x74u8, 0x6Cu8) => WaveChunkKind::Adtl,
                _ => WaveChunkKind::Other,
            }
        },
    }
}

/// Decode the leaf children of a `LIST INFO`.
fn decode_info(children: &[RiffChunk]) -> (r: InfoList)
    ensures
        r@ == info_from(view_seq(children@)),
{
    let ghost s = view_seq(children@);
    proof {
        lemma_view_seq_len(children@);
    }
    let mut info = InfoList::new();
    let mut i: usize = 0;
    while i < children.len()
        invariant
            i <= children@.len(),
            s == view_seq(children@),
            s.len() == children@.len(),
            info@ == info_from(s.take(i as int)),
        decreases children@.len() - i,
    {
        proof {
            lemma_view_seq_index(children@, i as int);
            assert(s.take(i + 1).drop_last() =~= s.take(i as int));
            assert(s.take(i + 1).last() == s[i as int]);
        }
        match &children[i] {
            RiffChunk::Leaf { id, body } => {
                info.push_chunk(*id, body.as_slice());
                assert(fourcc_of(id@) =~= *id);
            },
            _ => {},
        }
        i += 1;
    }
    assert(s.take(s.len() as int) =~= s);
    info
}

/// Decode the leaf children of a `LIST adtl`; fails on the first child
/// that does not decode.
fn decode_adtl(children: &[RiffChunk]) -> (r: Result<AdtlList>)
    ensures
        r is Ok <==> adtl_from(view_seq(children@)) is Some,
        r matches Ok(l) ==> adtl_from(view_seq(children@)) == Some(l@),
{
    let ghost s = view_seq(children@);
    proof {
        lemma_view_seq_len(children@);
    }
    let mut adtl = AdtlList::new();
    let mut i: usize = 0;
    while i < children.len()
        invariant
            i <= children@.len(),
            s == view_seq(children@),
            s.len() == children@.len(),
            adtl_from(s.take(i as int)) == Some(adtl@),
        decreases children@.len() - i,
    {
        proof {
            lemma_view_seq_index(children@, i as int);
            assert(s.take(i + 1).drop_last() =~= s.take(i as int));
            assert(s.take(i + 1).last() == s[i as int]);
        }
        match &children[i] {
            RiffChunk::Leaf { id, body } => {
                assert(fourcc_of(id@) =~= *id);
                let res = adtl.push_chunk(*id, body.as_slice());
                if let Err(e) = res {
                    proof {
                        lemma_adtl_from_prefix_none(s, i + 1);
                        assert(s.take(s.len() as int) =~= s);
                    }
                    return Err(e);
                }
            },
            _ => {},
        }
        i += 1;
    }
    assert(s.take(s.len() as int) =~= s);
    Ok(adtl)
}

/// Once a prefix fails to decode as `adtl` entries, every longer prefix
/// fails too.
proof fn lemma_adtl_from_prefix_none(s: Seq<ChunkModel>, i: int)
    requires
        0 <= i <= s.len(),
        adtl_from(s.take(i)) is None,
    ensures
        adtl_from(s.take(s.len() as int)) is None,
    decreases s.len() - i,
{
    if i < s.len() {
        assert(s.take(i + 1).drop_last() =~= s.take(i));
        lemma_adtl_from_prefix_none(s, i + 1);
    }
}

impl WaveFile {
    /// Decode the typed chunks of a parsed `RIFF/WAVE` tree. Fails when
    /// the form type is not `WAVE`, or when a chunk that is present does
    /// not decode.
    pub fn from_tree(tree: &RiffTree) -> (r: Result<Self>)
        ensures
            r is Ok <==> (tree@.form_type == wave_id() && wave_children_ok(tree@.children)),
            r matches Ok(w) ==> wave_matches(w, tree@.children),
    {
        let ft = &tree.form_type;
        if !(ft[0] == 0x57 && ft[1] == 0x41 && ft[2] == 0x56 && ft[3] == 0x45) {
            proof {
                if tree@.form_type == wave_id() {
                    assert(tree@.form_type[0] == 0x57 && tree@.form_type[1] == 0x41);
                    assert(tree@.form_type[2] == 0x56 && tree@.form_type[3] == 0x45);
                }
            }
            return Err(Error::invalid("WAVE: tree form type is not 'WAVE'"));
        }
        assert(tree@.form_type =~= wave_id());
        let ghost s = tree@.children;
        let children = &tree.children;
        proof {
            lemma_view_seq_len(children@);
        }
        let mut w = WaveFile::default();
        let mut i: usize = 0;
        while i < children.len()
            invariant
                i <= children@.len(),
                s == view_seq(children@),
                s.len() == children@.len(),
                wave_matches(w, s.take(i as int)),
                wave_children_ok(s.take(i as int)),
                s == tree@.children,
                tree@.form_type == wave_id(),
            decreases children@.len() - i,
        {
            proof {
                lemma_view_seq_index(children@, i as int);
                assert(s.take(i + 1).drop_last() =~= s.take(i as int));
                assert(s.take(i + 1).last() == s[i as int]);
                assert forall|j: int| 0 <= j < i implies #[trigger] s.take(i + 1)[j] == s.take(
                    i as int,
                )[j] by {}
            }
            let child = &children[i];
            let k = kind_of(child);
            let ghost c = s[i as int];
            match child {
                RiffChunk::Leaf { body, .. } => {
                    let b = body.as_slice();
                    assert(b@ == body_of(c));
                    match k {
                        WaveChunkKind::Format => {
                            w.format = Some(WaveFormat::parse(b)?);
                        },
                        WaveChunkKind::Fact => {
                            w.fact = Some(Fact::parse(b)?);
                        },
                        WaveChunkKind::Cue => {
                            w.cue = Some(CueChunk::parse(b)?);
                        },
                        WaveChunkKind::Playlist => {
                            w.playlist = Some(Playlist::parse(b)?);
                        },
                        WaveChunkKind::Bext => {
                            w.bext = Some(BroadcastExtension::parse(b)?);
                        },
                        WaveChunkKind::Acid => {
                            w.acid = Some(Acid::parse(b)?);
                        },
                        WaveChunkKind::Smpl => {
                            w.smpl = Some(Smpl::parse(b)?);
                        },
                        WaveChunkKind::Inst => {
                            w.inst = Some(Inst::parse(b)?);
                        },
                        _ => {},
                    }
                },
                RiffChunk::Group { children: sub, .. } => {
                    assert(view_seq(sub@) == children_of(c));
                    match k {
                        WaveChunkKind::Info => {
                            w.info = Some(decode_info(sub.as_slice()));
                        },
                        WaveChunkKind::Adtl => {
                            w.adtl = Some(decode_adtl(sub.as_slice())?);
                        },
                        _ => {},
                    }
                },
            }
            i += 1;
        }
        assert(s.take(s.len() as int) =~= s);
        Ok(w)
    }

    /// `true` when the file carries a `fmt ` descriptor.
    pub fn has_format(&self) -> (r: bool)
        ensures
            r == self.format is Some,
    {
        self.format.is_some()
    }
}

} // verus!
