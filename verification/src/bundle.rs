//! The RIFF Bundle (`BND `) compound-file form.
//!
//! ```text
//! <BND-file> -> RIFF('BND ' <CTOC-chunk> <CGRP-chunk>)
//! ```
//!
//! A bundle concatenates standalone files into its `CGRP` chunk and
//! indexes them with a `CTOC` table of contents. [`Bundle`] pairs the
//! decoded table with the raw `CGRP` body so each element can be sliced
//! out by its entry.
use vstd::prelude::*;

use crate::chunk::fourcc_eq;
use crate::ctoc::{
    cgrp_id, ctoc_id, ctoc_model_of, ctoc_parse_ok, element_bytes, CtocChunk, CtocEntry,
    CtocEntryModel, CTOC_EF_DELETED, CTOC_EF_UNUSED, FOURCC_CGRP, FOURCC_CTOC,
};
use crate::error::{Error, Result};
use crate::le::copy_range;
use crate::tree::{lemma_view_seq_index, lemma_view_seq_len, view_seq, ChunkModel, RiffChunk, RiffTree};

verus! {

/// Form type of a bundle file (`BND `).
pub const FORM_BND: [u8; 4] = [0x42, 0x4E, 0x44, 0x20];

/// `BND ` as a view.
pub open spec fn bnd_id() -> Seq<u8> {
    seq![0x42u8, 0x4Eu8, 0x44u8, 0x20u8]
}

/// The payload of the last leaf of `s` whose FourCC is `id`.
pub open spec fn last_leaf(s: Seq<ChunkModel>, id: Seq<u8>) -> Option<Seq<u8>>
    decreases s.len(),
{
    if s.len() == 0 {
        None
    } else {
        match s.last() {
            ChunkModel::Leaf { id: lid, body } => if lid == id {
                Some(body)
            } else {
                last_leaf(s.drop_last(), id)
            },
            _ => last_leaf(s.drop_last(), id),
        }
    }
}

/// Every `CTOC` leaf of `s` decodes.
pub open spec fn ctocs_ok(s: Seq<ChunkModel>) -> bool {
    forall|i: int|
        0 <= i < s.len() ==> match #[trigger] s[i] {
            ChunkModel::Leaf { id, body } => id == ctoc_id() ==> ctoc_parse_ok(body),
            _ => true,
        }
}

/// The entries of `s` that are neither deleted nor unused, in order.
pub open spec fn live_entries(s: Seq<CtocEntryModel>) -> Seq<CtocEntryModel>
    decreases s.len(),
{
    if s.len() == 0 {
        Seq::empty()
    } else if s.last().flags & 3u8 == 0 {
        live_entries(s.drop_last()).push(s.last())
    } else {
        live_entries(s.drop_last())
    }
}

/// A decoded bundle: the table of contents and the raw `CGRP` body.
#[derive(Clone, Debug, PartialEq, Eq)]
pub struct Bundle {
    /// The decoded `CTOC` table of contents.
    pub toc: CtocChunk,
    /// The raw `CGRP` body: every element, concatenated.
    pub group: Vec<u8>,
}

impl Bundle {
    /// Decode a bundle from a parsed tree: the last `CTOC` leaf (every
    /// `CTOC` leaf must decode) and the last `CGRP` leaf, verbatim.
    /// Fails when the form type is not `BND `, or when either chunk is
    /// missing.
    pub fn from_tree(tree: &RiffTree) -> (r: Result<Self>)
        ensures
            r is Ok <==> (tree@.form_type == bnd_id() && ctocs_ok(tree@.children) && last_leaf(
                tree@.children,
                ctoc_id(),
            ) is Some && last_leaf(tree@.children, cgrp_id()) is Some),
            r matches Ok(b) ==> (b.toc@ == ctoc_model_of(last_leaf(tree@.children, ctoc_id())->0)
                && b.group@ == last_leaf(tree@.children, cgrp_id())->0),
    {
        let ft = &tree.form_type;
        if !(ft[0] == 0x42 && ft[1] == 0x4E && ft[2] == 0x44 && ft[3] == 0x20) {
            proof {
                if tree@.form_type == bnd_id() {
                    assert(tree@.form_type[0] == 0x42 && tree@.form_type[1] == 0x4E);
                    assert(tree@.form_type[2] == 0x44 && tree@.form_type[3] == 0x20);
                }
            }
            return Err(Error::invalid("BND: tree form type is not 'BND '"));
        }
        assert(tree@.form_type =~= bnd_id());
        proof {
            assert(FOURCC_CTOC@ =~= ctoc_id());
            assert(FOURCC_CGRP@ =~= cgrp_id());
            assert(ctoc_id()[1] != cgrp_id()[1]);
        }
        let ghost s = tree@.children;
        let children = &tree.children;
        proof {
            lemma_view_seq_len(children@);
        }
        let mut toc: Option<CtocChunk> = None;
        let mut group: Option<Vec<u8>> = None;
        let mut i: usize = 0;
        while i < children.len()
            invariant
                i <= children@.len(),
                s == view_seq(children@),
                s.len() == children@.len(),
                s == tree@.children,
                tree@.form_type == bnd_id(),
                FOURCC_CTOC@ == ctoc_id(),
                FOURCC_CGRP@ == cgrp_id(),
                ctoc_id() != cgrp_id(),
                ctocs_ok(s.take(i as int)),
                match last_leaf(s.take(i as int), ctoc_id()) {
                    Some(b) => (toc matches Some(t) && t@ == ctoc_model_of(b)),
                    None => toc is None,
                },
                match last_leaf(s.take(i as int), cgrp_id()) {
                    Some(b) => (group matches Some(g) && g@ == b),
                    None => group is None,
                },
            decreases children@.len() - i,
        {
            proof {
                lemma_view_seq_index(children@, i as int);
                assert(s.take(i + 1).drop_last() =~= s.take(i as int));
                assert(s.take(i + 1).last() == s[i as int]);
                assert forall|j: int| 0 <= j < i implies #[trigger] s.take(i + 1)[j] == s.take(
                    i as int,
                )[j] by {}
            }
            match &children[i] {
                RiffChunk::Leaf { id, body } => {
                    if fourcc_eq(id, &FOURCC_CTOC) {
                        toc = Some(CtocChunk::parse(body.as_slice())?);
                    } else if fourcc_eq(id, &FOURCC_CGRP) {
                        let g = copy_range(body.as_slice(), 0, body.len());
                        assert(body@.subrange(0, body@.len() as int) =~= body@);
                        group = Some(g);
                    }
                },
                _ => {},
            }
            i += 1;
        }
        assert(s.take(s.len() as int) =~= s);
        let toc = match toc {
            Some(t) => t,
            None => {
                return Err(Error::invalid("BND: missing mandatory 'CTOC' chunk"));
            },
        };
        let group = match group {
            Some(g) => g,
            None => {
                return Err(Error::invalid("BND: missing mandatory 'CGRP' chunk"));
            },
        };
        Ok(Bundle { toc, group })
    }

    /// The table entries, deleted and unused slots included.
    pub fn entries(&self) -> (r: &[CtocEntry])
        ensures
            r@ == self.toc.entries@,
    {
        self.toc.entries.as_slice()
    }

    /// The bytes of the element that `entry` indexes in the `CGRP` body.
    /// Fails for a deleted or unused entry, or a span outside the body.
    pub fn element(&self, entry: &CtocEntry) -> (r: Result<&[u8]>)
        ensures
            r is Ok <==> (entry.flags & 3u8 == 0 && entry.offset + entry.size <= self.group@.len()),
            r matches Ok(s) ==> s@ == self.group@.subrange(
                entry.offset as int,
                entry.offset + entry.size,
            ),
    {
        element_bytes(self.group.as_slice(), entry)
    }

    /// The live entries (neither deleted nor unused), in order, each
    /// paired with its bytes; an entry whose span leaves the body gives
    /// an error in its place.
    pub fn live_elements(&self) -> (r: Vec<Result<(&CtocEntry, &[u8])>>)
        ensures
            r@.len() == live_entries(self.toc@.entries).len(),
            forall|i: int|
                0 <= i < r@.len() ==> {
                    let e = #[trigger] live_entries(self.toc@.entries)[i];
                    &&& (r@[i] is Ok <==> e.offset + e.size <= self.group@.len())
                    &&& (r@[i] matches Ok(p) ==> p.0@ == e && p.1@ == self.group@.subrange(
                        e.offset as int,
                        e.offset + e.size,
                    ))
                },
    {
        let ghost es = self.toc@.entries;
        let mut out: Vec<Result<(&CtocEntry, &[u8])>> = Vec::new();
        let mut i: usize = 0;
        let mask: u8 = CTOC_EF_DELETED | CTOC_EF_UNUSED;
        assert(mask == 3u8) by (bit_vector)
            requires
                mask == 0x01u8 | 0x02u8,
        ;
        while i < self.toc.entries.len()
            invariant
                mask == 3u8,
                i <= self.toc.entries@.len(),
                es == self.toc@.entries,
                es.len() == self.toc.entries@.len(),
                out@.len() == live_entries(es.take(i as int)).len(),
                forall|j: int|
                    0 <= j < out@.len() ==> {
                        let e = #[trigger] live_entries(es.take(i as int))[j];
                        &&& (out@[j] is Ok <==> e.offset + e.size <= self.group@.len())
                        &&& (out@[j] matches Ok(p) ==> p.0@ == e && p.1@ == self.group@.subrange(
                            e.offset as int,
                            e.offset + e.size,
                        ))
                    },
            decreases self.toc.entries@.len() - i,
        {
            let e = &self.toc.entries[i];
            proof {
                assert(es.take(i + 1).drop_last() =~= es.take(i as int));
                assert(es.take(i + 1).last() == e@);
            }
            if e.flags & mask == 0 {
                let res = element_bytes(self.group.as_slice(), e);
                let item = match res {
                    Ok(b) => Ok((e, b)),
                    Err(err) => Err(err),
                };
                let ghost prev = live_entries(es.take(i as int));
                out.push(item);
                proof {
                    assert(live_entries(es.take(i + 1)) == prev.push(e@));
                    assert forall|j: int| 0 <= j < out@.len() implies {
                        let x = #[trigger] live_entries(es.take(i + 1))[j];
                        &&& (out@[j] is Ok <==> x.offset + x.size <= self.group@.len())
                        &&& (out@[j] matches Ok(p) ==> p.0@ == x && p.1@ == self.group@.subrange(
                            x.offset as int,
                            x.offset + x.size,
                        ))
                    } by {
                        if j < prev.len() {
                            assert(live_entries(es.take(i + 1))[j] == prev[j]);
                        }
                    }
                }
            } else {
                proof {
                    assert(live_entries(es.take(i + 1)) == live_entries(es.take(i as int)));
                }
            }
            i += 1;
        }
        assert(es.take(es.len() as int) =~= es);
        out
    }
}

} // verus!
