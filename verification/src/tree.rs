//! Recursive, owned model of a whole RIFF (or RIFX) file.
//!
//! A `RIFF` / `LIST` chunk's body is a 4-byte form/list type followed by
//! child chunks; every other chunk is an opaque leaf. [`RiffTree::parse`]
//! reads a complete in-memory file into that shape and
//! [`RiffTree::encode`] writes it back. The two are inverse: parsing the
//! encoding of a well-formed tree gives the tree back
//! ([`lemma_tree_roundtrip`]), and every well-formed file re-encodes byte
//! for byte ([`lemma_encode_parse_bytes`]).
use vstd::prelude::*;

use crate::chunk::{
    fourcc_eq, is_group_id, list_id, pad_bytes, padded, riff_id, rifx_id, FOURCC_LIST,
    FOURCC_RIFF, FOURCC_RIFX,
};
use crate::error::{Error, Result};
use crate::search::{
    first_of, has_id, lemma_collect_seq_is_filter, lemma_find_seq_is_first, run_nodes,
};
use crate::le::{
    be_u32, copy_range, le_u32, lemma_u32_be_bytes_of_be, lemma_u32_be_roundtrip,
    lemma_u32_bytes_of_le, lemma_u32_roundtrip, push_slice, push_u32, push_u32_be, read_u32,
    read_u32_be, u32_be_bytes, u32_bytes,
};

verus! {

/// Maximum nesting depth the parser descends before rejecting the input.
pub const MAX_DEPTH: usize = 64;

/// Integer byte order of a file's length fields: little-endian for the
/// `RIFF` magic, big-endian for `RIFX`.
#[derive(Clone, Copy, Debug, PartialEq, Eq)]
pub enum ByteOrder {
    /// Intel little-endian (`RIFF`).
    LittleEndian,
    /// Motorola big-endian (`RIFX`).
    BigEndian,
}

/// The outer magic FourCC of a byte order.
pub open spec fn spec_magic(order: ByteOrder) -> Seq<u8> {
    match order {
        ByteOrder::LittleEndian => riff_id(),
        ByteOrder::BigEndian => rifx_id(),
    }
}

/// The length word at `s[off..off + 4]` in the given byte order.
pub open spec fn read_len(order: ByteOrder, s: Seq<u8>, off: int) -> u32 {
    match order {
        ByteOrder::LittleEndian => le_u32(s, off),
        ByteOrder::BigEndian => be_u32(s, off),
    }
}

/// The wire bytes of a length word in the given byte order.
pub open spec fn len_bytes(order: ByteOrder, v: u32) -> Seq<u8> {
    match order {
        ByteOrder::LittleEndian => u32_bytes(v),
        ByteOrder::BigEndian => u32_be_bytes(v),
    }
}

impl ByteOrder {
    /// The outer-wrapper FourCC this order serialises with (`RIFF` /
    /// `RIFX`).
    pub fn magic(self) -> (r: [u8; 4])
        ensures
            r@ == spec_magic(self),
    {
        match self {
            ByteOrder::LittleEndian => {
                let r = FOURCC_RIFF;
                assert(r@ =~= riff_id());
                r
            },
            ByteOrder::BigEndian => {
                let r = FOURCC_RIFX;
                assert(r@ =~= rifx_id());
                r
            },
        }
    }
}

/// Decode the length word at `s[off..off + 4]` in `order`.
fn read_len_exec(order: ByteOrder, s: &[u8], off: usize) -> (r: u32)
    requires
        off + 4 <= s@.len(),
    ensures
        r == read_len(order, s@, off as int),
{
    match order {
        ByteOrder::LittleEndian => read_u32(s, off),
        ByteOrder::BigEndian => read_u32_be(s, off),
    }
}

/// Append a length word in `order`.
fn push_len(out: &mut Vec<u8>, order: ByteOrder, v: u32)
    ensures
        final(out)@ == old(out)@ + len_bytes(order, v),
{
    match order {
        ByteOrder::LittleEndian => push_u32(out, v),
        ByteOrder::BigEndian => push_u32_be(out, v),
    }
}

/// Decoding a length word from its encoding gives it back.
#[verifier::spinoff_prover]
proof fn lemma_len_roundtrip(order: ByteOrder, s: Seq<u8>, off: int, v: u32)
    requires
        0 <= off,
        off + 4 <= s.len(),
        s.subrange(off, off + 4) == len_bytes(order, v),
    ensures
        read_len(order, s, off) == v,
{
    match order {
        ByteOrder::LittleEndian => lemma_u32_roundtrip(s, off, v),
        ByteOrder::BigEndian => lemma_u32_be_roundtrip(s, off, v),
    }
}

/// One node of a [`RiffTree`].
#[derive(Debug, PartialEq, Eq)]
pub enum RiffChunk {
    /// A leaf chunk: its FourCC and its `ckSize` payload bytes (the pad
    /// byte is not stored).
    Leaf {
        /// 4-byte chunk FourCC.
        id: [u8; 4],
        /// Payload bytes, verbatim.
        body: Vec<u8>,
    },
    /// A group chunk (`RIFF` or `LIST`): its form/list type followed by
    /// its recursively parsed children.
    Group {
        /// `RIFF` or `LIST`.
        id: [u8; 4],
        /// The form type / list type word.
        form_type: [u8; 4],
        /// Child chunks in file order.
        children: Vec<RiffChunk>,
    },
}

/// The mathematical value of a [`RiffChunk`].
pub enum ChunkModel {
    /// A leaf: FourCC and payload.
    Leaf { id: Seq<u8>, body: Seq<u8> },
    /// A group: FourCC, form type and children.
    Group { id: Seq<u8>, form_type: Seq<u8>, children: Seq<ChunkModel> },
}

impl ChunkModel {
    /// The node's FourCC.
    pub open spec fn id(self) -> Seq<u8> {
        match self {
            ChunkModel::Leaf { id, .. } => id,
            ChunkModel::Group { id, .. } => id,
        }
    }
}

/// The model of a node.
pub open spec fn view_chunk(c: RiffChunk) -> ChunkModel
    decreases c,
{
    match c {
        RiffChunk::Leaf { id, body } => ChunkModel::Leaf { id: id@, body: body@ },
        RiffChunk::Group { id, form_type, children } => ChunkModel::Group {
            id: id@,
            form_type: form_type@,
            children: view_seq(children@),
        },
    }
}

/// The models of a run of sibling nodes.
pub open spec fn view_seq(s: Seq<RiffChunk>) -> Seq<ChunkModel>
    decreases s,
{
    if s.len() == 0 {
        Seq::empty()
    } else {
        seq![view_chunk(s[0])] + view_seq(s.drop_first())
    }
}

impl View for RiffChunk {
    type V = ChunkModel;

    open spec fn view(&self) -> ChunkModel {
        view_chunk(*self)
    }
}

/// Frame a payload as a chunk: FourCC, length word, payload, pad byte.
pub open spec fn frame(id: Seq<u8>, payload: Seq<u8>, order: ByteOrder) -> Seq<u8> {
    id + len_bytes(order, payload.len() as u32) + payload + pad_bytes(payload.len())
}

/// The payload (`ckSize` bytes) a node serialises to.
pub open spec fn payload_of(c: ChunkModel, order: ByteOrder) -> Seq<u8> {
    match c {
        ChunkModel::Leaf { body, .. } => body,
        ChunkModel::Group { form_type, children, .. } => form_type + enc_seq(children, order),
    }
}

/// The wire bytes of one node, including header and pad byte.
pub open spec fn enc_chunk(c: ChunkModel, order: ByteOrder) -> Seq<u8>
    decreases c,
{
    match c {
        ChunkModel::Leaf { id, body } => frame(id, body, order),
        ChunkModel::Group { id, form_type, children } => frame(
            id,
            form_type + enc_seq(children, order),
            order,
        ),
    }
}

/// The wire bytes of a run of sibling nodes.
pub open spec fn enc_seq(s: Seq<ChunkModel>, order: ByteOrder) -> Seq<u8>
    decreases s,
{
    if s.len() == 0 {
        Seq::empty()
    } else {
        enc_chunk(s[0], order) + enc_seq(s.drop_first(), order)
    }
}

/// Every payload in the node fits a 32-bit `ckSize`.
pub open spec fn encodable_chunk(c: ChunkModel, order: ByteOrder) -> bool
    decreases c,
{
    match c {
        ChunkModel::Leaf { body, .. } => body.len() <= u32::MAX,
        ChunkModel::Group { form_type, children, .. } => {
            &&& encodable_seq(children, order)
            &&& form_type.len() + enc_seq(children, order).len() <= u32::MAX
        },
    }
}

/// Every payload in the run fits a 32-bit `ckSize`.
pub open spec fn encodable_seq(s: Seq<ChunkModel>, order: ByteOrder) -> bool
    decreases s,
{
    s.len() == 0 || (encodable_chunk(s[0], order) && encodable_seq(s.drop_first(), order))
}

/// A node the parser can reproduce from its own encoding: FourCCs are
/// four bytes, leaves never carry a group FourCC and groups always do,
/// payloads fit 32 bits, and nesting stays within [`MAX_DEPTH`]. `depth`
/// is the nesting level at which the node's siblings are parsed.
pub open spec fn wf_chunk(c: ChunkModel, depth: int, order: ByteOrder) -> bool
    decreases c,
{
    match c {
        ChunkModel::Leaf { id, body } => {
            &&& id.len() == 4
            &&& !is_group_id(id)
            &&& body.len() <= u32::MAX
        },
        ChunkModel::Group { id, form_type, children } => {
            &&& id.len() == 4
            &&& is_group_id(id)
            &&& form_type.len() == 4
            &&& wf_seq(children, depth + 1, order)
            &&& 4 + enc_seq(children, order).len() <= u32::MAX
        },
    }
}

/// Every node of the run is well formed at nesting level `depth`, and
/// `depth` itself is within [`MAX_DEPTH`].
pub open spec fn wf_seq(s: Seq<ChunkModel>, depth: int, order: ByteOrder) -> bool
    decreases s,
{
    &&& 1 <= depth <= MAX_DEPTH
    &&& (s.len() == 0 || (wf_chunk(s[0], depth, order) && wf_seq(s.drop_first(), depth, order)))
}

/// The bytes of `b` from `pos` on (empty once `pos` passes the end).
pub open spec fn suffix(b: Seq<u8>, pos: int) -> Seq<u8> {
    if pos >= b.len() {
        Seq::empty()
    } else {
        b.subrange(pos, b.len() as int)
    }
}

/// Prefix the nodes of `a` to a parse result.
pub open spec fn prepend(a: Seq<ChunkModel>, r: Option<Seq<ChunkModel>>) -> Option<Seq<ChunkModel>> {
    match r {
        Some(t) => Some(a + t),
        None => None,
    }
}

/// Bytes the chunk starting at `b[0]` occupies, header and pad included.
pub open spec fn node_len(b: Seq<u8>, order: ByteOrder) -> int {
    8 + padded(read_len(order, b, 4) as int)
}

/// Parse the single chunk that starts at `b[0]`, at nesting level
/// `depth`. Fails on a truncated header, a body overflowing `b`, or a
/// group whose body is shorter than its form type or whose children fail
/// to parse.
pub open spec fn parse_node(b: Seq<u8>, depth: int, order: ByteOrder) -> Option<ChunkModel>
    decreases b.len(), 0int,
{
    if b.len() < 8 {
        None
    } else {
        let id = b.subrange(0, 4);
        let size = read_len(order, b, 4) as int;
        if 8 + size > b.len() {
            None
        } else if is_group_id(id) {
            if size < 4 {
                None
            } else {
                match parse_seq(b.subrange(12, 8 + size), depth + 1, order) {
                    Some(ch) => Some(
                        ChunkModel::Group { id, form_type: b.subrange(8, 12), children: ch },
                    ),
                    None => None,
                }
            }
        } else {
            Some(ChunkModel::Leaf { id, body: b.subrange(8, 8 + size) })
        }
    }
}

/// Parse a run of sibling chunks occupying all of `b`, at nesting level
/// `depth`, decoding length words in `order`.
///
/// Children are read one after another until the end of `b`; the pad
/// byte of an odd-length last child may be missing. Fails when any child
/// fails to parse or nesting goes beyond [`MAX_DEPTH`].
pub open spec fn parse_seq(b: Seq<u8>, depth: int, order: ByteOrder) -> Option<Seq<ChunkModel>>
    decreases b.len(), 1int,
{
    if depth > MAX_DEPTH {
        None
    } else if b.len() == 0 {
        Some(Seq::empty())
    } else {
        match parse_node(b, depth, order) {
            None => None,
            Some(n) => prepend(seq![n], parse_seq(suffix(b, node_len(b, order)), depth, order)),
        }
    }
}

/// The message of the error the parser reports for nesting beyond
/// [`MAX_DEPTH`].
pub open spec fn depth_message() -> Seq<char> {
    "RIFF: nesting exceeds MAX_DEPTH"@
}

/// `e` is the nesting-depth error.
pub open spec fn is_depth_error(e: Error) -> bool {
    e matches Error::Invalid(m) && m@ == depth_message()
}

/// Parsing the chunk that starts at `b[0]` fails first on the nesting
/// limit: its header and size are sound, and it is a group whose
/// children fail that way.
pub open spec fn depth_fail_node(b: Seq<u8>, depth: int, order: ByteOrder) -> bool
    decreases b.len(), 0int,
{
    if b.len() < 8 {
        false
    } else {
        let size = read_len(order, b, 4) as int;
        if 8 + size > b.len() {
            false
        } else if is_group_id(b.subrange(0, 4)) && size >= 4 {
            depth_fail_seq(b.subrange(12, 8 + size), depth + 1, order)
        } else {
            false
        }
    }
}

/// Parsing the run `b` at level `depth`, child by child from the left,
/// fails first on the nesting limit rather than on a malformed chunk.
pub open spec fn depth_fail_seq(b: Seq<u8>, depth: int, order: ByteOrder) -> bool
    decreases b.len(), 1int,
{
    if depth > MAX_DEPTH {
        true
    } else if b.len() == 0 {
        false
    } else {
        match parse_node(b, depth, order) {
            None => depth_fail_node(b, depth, order),
            Some(_) => depth_fail_seq(suffix(b, node_len(b, order)), depth, order),
        }
    }
}

/// `view_seq` distributes over appending one node.
pub proof fn lemma_view_seq_push(s: Seq<RiffChunk>, x: RiffChunk)
    ensures
        view_seq(s.push(x)) == view_seq(s).push(view_chunk(x)),
    decreases s.len(),
{
    if s.len() == 0 {
        let e = s.push(x).drop_first();
        assert(e =~= Seq::<RiffChunk>::empty());
        assert(view_seq(e) == Seq::<ChunkModel>::empty());
        assert(view_seq(s) == Seq::<ChunkModel>::empty());
        assert(view_seq(s.push(x)) =~= seq![view_chunk(x)] + view_seq(e));
    } else {
        assert(s.push(x).drop_first() =~= s.drop_first().push(x));
        lemma_view_seq_push(s.drop_first(), x);
        assert(view_seq(s.push(x)) =~= view_seq(s).push(view_chunk(x)));
    }
}

/// `view_seq` preserves the number of nodes.
pub proof fn lemma_view_seq_len(s: Seq<RiffChunk>)
    ensures
        view_seq(s).len() == s.len(),
    decreases s.len(),
{
    if s.len() > 0 {
        lemma_view_seq_len(s.drop_first());
    }
}

/// The `i`-th model is the model of the `i`-th node.
pub proof fn lemma_view_seq_index(s: Seq<RiffChunk>, i: int)
    requires
        0 <= i < s.len(),
    ensures
        view_seq(s)[i] == view_chunk(s[i]),
    decreases s.len(),
{
    lemma_view_seq_len(s.drop_first());
    if i > 0 {
        lemma_view_seq_index(s.drop_first(), i - 1);
    }
}

/// Encoding distributes over appending one node.
pub proof fn lemma_enc_seq_push(s: Seq<ChunkModel>, x: ChunkModel, order: ByteOrder)
    ensures
        enc_seq(s.push(x), order) == enc_seq(s, order) + enc_chunk(x, order),
        encodable_seq(s.push(x), order) == (encodable_seq(s, order) && encodable_chunk(x, order)),
    decreases s.len(),
{
    if s.len() == 0 {
        let e = s.push(x).drop_first();
        assert(e =~= Seq::<ChunkModel>::empty());
        assert(enc_seq(e, order) == Seq::<u8>::empty());
        assert(encodable_seq(e, order));
        assert(enc_seq(s, order) == Seq::<u8>::empty());
        assert(encodable_seq(s, order));
        assert(enc_seq(s.push(x), order) =~= enc_chunk(x, order) + enc_seq(e, order));
    } else {
        assert(s.push(x).drop_first() =~= s.drop_first().push(x));
        lemma_enc_seq_push(s.drop_first(), x, order);
        assert(enc_seq(s.push(x), order) =~= enc_seq(s, order) + enc_chunk(x, order));
    }
}

/// Reading back the header of a framed payload followed by more bytes.
proof fn lemma_frame_parse(id: Seq<u8>, p: Seq<u8>, r: Seq<u8>, order: ByteOrder)
    requires
        id.len() == 4,
        p.len() <= u32::MAX,
    ensures
        ({
            let b = frame(id, p, order) + r;
            &&& b.len() >= 8
            &&& b.subrange(0, 4) == id
            &&& read_len(order, b, 4) == p.len()
            &&& 8 + p.len() <= b.len()
            &&& b.subrange(8, 8 + p.len() as int) == p
            &&& suffix(b, 8 + padded(p.len() as int)) == r
            &&& frame(id, p, order).len() == 8 + padded(p.len() as int)
        }),
{
    let b = frame(id, p, order) + r;
    let lb = len_bytes(order, p.len() as u32);
    assert(lb.len() == 4);
    assert(b.subrange(0, 4) =~= id);
    assert(b.subrange(4, 8) =~= lb);
    lemma_len_roundtrip(order, b, 4, p.len() as u32);
    assert(b.subrange(8, 8 + p.len() as int) =~= p);
    assert(suffix(b, 8 + padded(p.len() as int)) =~= r);
}

/// Parsing one encoded node followed by further bytes, given that the
/// node's children (if any) already parse back from their encoding.
proof fn lemma_parse_node_enc(c: ChunkModel, r: Seq<u8>, depth: int, order: ByteOrder)
    requires
        wf_chunk(c, depth, order),
        c matches ChunkModel::Group { children, .. } ==> parse_seq(
            enc_seq(children, order),
            depth + 1,
            order,
        ) == Some(children),
    ensures
        ({
            let b = enc_chunk(c, order) + r;
            &&& parse_node(b, depth, order) == Some(c)
            &&& suffix(b, node_len(b, order)) == r
        }),
{
    let b = enc_chunk(c, order) + r;
    match c {
        ChunkModel::Leaf { id, body } => {
            lemma_frame_parse(id, body, r, order);
        },
        ChunkModel::Group { id, form_type, children } => {
            let p = form_type + enc_seq(children, order);
            lemma_frame_parse(id, p, r, order);
            assert(b.subrange(12, 8 + p.len() as int) =~= enc_seq(children, order));
            assert(b.subrange(8, 12) =~= form_type);
        },
    }
}

/// Parsing the encoding of a well-formed run of nodes gives the run back.
pub proof fn lemma_parse_enc_seq(s: Seq<ChunkModel>, depth: int, order: ByteOrder)
    requires
        wf_seq(s, depth, order),
    ensures
        parse_seq(enc_seq(s, order), depth, order) == Some(s),
    decreases s,
{
    let b = enc_seq(s, order);
    if s.len() == 0 {
        assert(b =~= Seq::<u8>::empty());
    } else {
        let c = s[0];
        let rest_s = s.drop_first();
        assert(wf_chunk(c, depth, order));
        assert(wf_seq(rest_s, depth, order));
        lemma_parse_enc_seq(rest_s, depth, order);
        match c {
            ChunkModel::Group { children, .. } => {
                lemma_parse_enc_seq(children, depth + 1, order);
            },
            _ => {},
        }
        lemma_parse_node_enc(c, enc_seq(rest_s, order), depth, order);
        assert(b == enc_chunk(c, order) + enc_seq(rest_s, order));
        assert(seq![c] + rest_s =~= s);
    }
}

/// Parse the single chunk that starts at `body[pos]` (at least 8 bytes
/// remain). Returns the node and the position just past its pad byte
/// (clamped to the end of `body`).
#[verifier::rlimit(50)]
fn parse_one(body: &[u8], pos: usize, depth: usize, order: ByteOrder) -> (res: Result<
    (RiffChunk, usize),
>)
    requires
        depth <= MAX_DEPTH,
        pos + 8 <= body@.len(),
    ensures
        ({
            let s = body@.subrange(pos as int, body@.len() as int);
            &&& res matches Ok((n, next)) ==> {
                &&& parse_node(s, depth as int, order) == Some(view_chunk(n))
                &&& suffix(s, node_len(s, order)) == suffix(body@, next as int)
                &&& pos < next <= body@.len()
            }
            &&& res is Err ==> parse_node(s, depth as int, order) is None
            &&& res matches Err(e) ==> (is_depth_error(e) <==> depth_fail_node(
                s,
                depth as int,
                order,
            ))
        }),
    decreases body@.len() - pos, 0int,
{
    let ghost b = body@;
    let ghost s = b.subrange(pos as int, b.len() as int);
    let id = [body[pos], body[pos + 1], body[pos + 2], body[pos + 3]];
    let ck_size = read_len_exec(order, body, pos + 4);
    assert(id@ =~= s.subrange(0, 4));
    assert(ck_size == read_len(order, s, 4));
    let body_start = pos + 8;
    if ck_size as usize > body.len() - body_start {
        proof {
            reveal_strlit("RIFF: child chunk overflows parent");
            reveal_strlit("RIFF: nesting exceeds MAX_DEPTH");
            assert(!depth_fail_node(s, depth as int, order));
            assert("RIFF: child chunk overflows parent"@.len() != depth_message().len());
        }
        return Err(Error::invalid("RIFF: child chunk overflows parent"));
    }
    let body_end = body_start + ck_size as usize;
    let next = if ck_size % 2 == 1 {
        if body_end < body.len() {
            body_end + 1
        } else {
            body.len()
        }
    } else {
        body_end
    };
    assert(suffix(s, node_len(s, order)) =~= suffix(b, next as int));
    if fourcc_eq(&id, &FOURCC_RIFF) || fourcc_eq(&id, &FOURCC_LIST) {
        assert(is_group_id(id@));
        if ck_size < 4 {
            proof {
                reveal_strlit("RIFF: group ckSize < 4 — no room for list type");
                reveal_strlit("RIFF: nesting exceeds MAX_DEPTH");
                assert(!depth_fail_node(s, depth as int, order));
                assert("RIFF: group ckSize < 4 — no room for list type"@.len()
                    != depth_message().len());
            }
            return Err(Error::invalid("RIFF: group ckSize < 4 — no room for list type"));
        }
        let form_type = [body[body_start], body[body_start + 1], body[body_start + 2], body[
            body_start + 3]];
        assert(form_type@ =~= s.subrange(8, 12));
        let inner = &body[body_start + 4..body_end];
        assert(inner@ =~= s.subrange(12, 8 + ck_size as int));
        match parse_children(inner, depth + 1, order) {
            Ok(ch) => Ok((RiffChunk::Group { id, form_type, children: ch }, next)),
            Err(e) => Err(e),
        }
    } else {
        assert(!is_group_id(id@)) by {
            assert(riff_id() =~= FOURCC_RIFF@);
            assert(list_id() =~= FOURCC_LIST@);
        }
        let leaf_body = copy_range(body, body_start, body_end);
        assert(leaf_body@ =~= s.subrange(8, 8 + ck_size as int));
        Ok((RiffChunk::Leaf { id, body: leaf_body }, next))
    }
}

/// Parse the run of sibling chunks that fills `body`, at nesting level
/// `depth`, decoding length words in `order`.
fn parse_children(body: &[u8], depth: usize, order: ByteOrder) -> (res: Result<Vec<RiffChunk>>)
    ensures
        res matches Ok(v) ==> parse_seq(body@, depth as int, order) == Some(view_seq(v@)),
        res is Err ==> parse_seq(body@, depth as int, order) is None,
        res matches Err(e) ==> (is_depth_error(e) <==> depth_fail_seq(body@, depth as int, order)),
    decreases body@.len(), 1int,
{
    if depth > MAX_DEPTH {
        return Err(Error::invalid("RIFF: nesting exceeds MAX_DEPTH"));
    }
    let mut children: Vec<RiffChunk> = Vec::new();
    let mut pos: usize = 0;
    let ghost b = body@;
    assert(suffix(b, 0) =~= b);
    assert(view_seq(children@) =~= Seq::<ChunkModel>::empty());
    while pos < body.len()
        invariant
            depth <= MAX_DEPTH,
            b == body@,
            pos <= body@.len(),
            parse_seq(b, depth as int, order) == prepend(
                view_seq(children@),
                parse_seq(suffix(b, pos as int), depth as int, order),
            ),
            depth_fail_seq(b, depth as int, order) == depth_fail_seq(
                suffix(b, pos as int),
                depth as int,
                order,
            ),
        decreases body@.len() - pos,
    {
        let ghost s = suffix(b, pos as int);
        assert(s =~= b.subrange(pos as int, b.len() as int));
        if body.len() - pos < 8 {
            assert(parse_node(s, depth as int, order) is None);
            proof {
                reveal_strlit("RIFF: trailing bytes too short for a chunk header");
                reveal_strlit("RIFF: nesting exceeds MAX_DEPTH");
                assert(!depth_fail_node(s, depth as int, order));
                assert(!depth_fail_seq(s, depth as int, order));
                assert("RIFF: trailing bytes too short for a chunk header"@.len()
                    != depth_message().len());
            }
            return Err(Error::invalid("RIFF: trailing bytes too short for a chunk header"));
        }
        let (node, next) = match parse_one(body, pos, depth, order) {
            Ok(x) => x,
            Err(e) => {
                return Err(e);
            },
        };
        proof {
            let rest = suffix(b, next as int);
            assert(parse_seq(s, depth as int, order) == prepend(
                seq![view_chunk(node)],
                parse_seq(rest, depth as int, order),
            ));
            lemma_view_seq_push(children@, node);
            match parse_seq(rest, depth as int, order) {
                Some(t) => {
                    assert(view_seq(children@) + (seq![view_chunk(node)] + t) =~= view_seq(
                        children@.push(node),
                    ) + t);
                },
                None => {},
            }
        }
        children.push(node);
        pos = next;
    }
    assert(suffix(b, pos as int) =~= Seq::<u8>::empty());
    assert(view_seq(children@) + Seq::<ChunkModel>::empty() =~= view_seq(children@));
    Ok(children)
}

/// A run is encodable exactly when each of its nodes is.
pub proof fn lemma_encodable_seq_all(s: Seq<ChunkModel>, order: ByteOrder)
    ensures
        encodable_seq(s, order) <==> forall|i: int|
            0 <= i < s.len() ==> #[trigger] encodable_chunk(s[i], order),
    decreases s.len(),
{
    if s.len() > 0 {
        lemma_encodable_seq_all(s.drop_first(), order);
        if forall|i: int| 0 <= i < s.len() ==> #[trigger] encodable_chunk(s[i], order) {
            assert forall|i: int| 0 <= i < s.drop_first().len() implies #[trigger] encodable_chunk(
                s.drop_first()[i],
                order,
            ) by {
                assert(s.drop_first()[i] == s[i + 1]);
            }
            assert(encodable_chunk(s[0], order));
        }
        if encodable_seq(s, order) {
            assert forall|i: int| 0 <= i < s.len() implies #[trigger] encodable_chunk(
                s[i],
                order,
            ) by {
                if i > 0 {
                    assert(s[i] == s.drop_first()[i - 1]);
                }
            }
        }
    }
}

/// Append a framed payload: FourCC, length word, payload, pad byte.
fn push_frame(out: &mut Vec<u8>, id: &[u8; 4], payload: &[u8], order: ByteOrder)
    requires
        payload@.len() <= u32::MAX,
    ensures
        final(out)@ == old(out)@ + frame(id@, payload@, order),
{
    out.push(id[0]);
    out.push(id[1]);
    out.push(id[2]);
    out.push(id[3]);
    assert(out@ =~= old(out)@ + id@);
    push_len(out, order, payload.len() as u32);
    push_slice(out, payload);
    if payload.len() % 2 == 1 {
        out.push(0);
    }
    assert(out@ =~= old(out)@ + frame(id@, payload@, order));
}

/// Encode a run of sibling nodes after `prefix`.
fn encode_run(prefix: &[u8; 4], children: &Vec<RiffChunk>, order: ByteOrder) -> (res: Result<
    Vec<u8>,
>)
    ensures
        res is Ok <==> encodable_seq(view_seq(children@), order),
        res matches Ok(v) ==> v@ == prefix@ + enc_seq(view_seq(children@), order),
    decreases children@, 0int,
{
    let mut inner: Vec<u8> = Vec::new();
    inner.push(prefix[0]);
    inner.push(prefix[1]);
    inner.push(prefix[2]);
    inner.push(prefix[3]);
    assert(inner@ =~= prefix@);
    let mut i: usize = 0;
    assert(children@.take(0) =~= Seq::<RiffChunk>::empty());
    while i < children.len()
        invariant
            i <= children@.len(),
            inner@ == prefix@ + enc_seq(view_seq(children@.take(i as int)), order),
            encodable_seq(view_seq(children@.take(i as int)), order),
        decreases children@.len() - i,
    {
        let ghost pre = children@.take(i as int);
        assert(children@.take(i + 1) =~= pre.push(children@[i as int]));
        proof {
            lemma_view_seq_push(pre, children@[i as int]);
            lemma_enc_seq_push(view_seq(pre), view_chunk(children@[i as int]), order);
        }
        let r = encode_node(&children[i], order);
        match r {
            Ok(e) => {
                push_slice(&mut inner, e.as_slice());
                i += 1;
                assert(inner@ =~= prefix@ + enc_seq(view_seq(children@.take(i as int)), order));
            },
            Err(err) => {
                proof {
                    lemma_view_seq_len(children@);
                    lemma_view_seq_index(children@, i as int);
                    lemma_encodable_seq_all(view_seq(children@), order);
                }
                return Err(err);
            },
        }
    }
    assert(children@.take(children@.len() as int) =~= children@);
    Ok(inner)
}

/// Encode one node (header, payload, pad byte).
fn encode_node(c: &RiffChunk, order: ByteOrder) -> (res: Result<Vec<u8>>)
    ensures
        res is Ok <==> encodable_chunk(view_chunk(*c), order),
        res matches Ok(v) ==> v@ == enc_chunk(view_chunk(*c), order),
    decreases *c, 1int,
{
    match c {
        RiffChunk::Leaf { id, body } => {
            if body.len() > 0xFFFF_FFFFusize {
                return Err(Error::invalid("RIFF: chunk body exceeds 32-bit ckSize range"));
            }
            let mut out: Vec<u8> = Vec::new();
            push_frame(&mut out, id, body.as_slice(), order);
            assert(out@ =~= enc_chunk(view_chunk(*c), order));
            Ok(out)
        },
        RiffChunk::Group { id, form_type, children } => {
            let inner = encode_run(form_type, children, order)?;
            if inner.len() > 0xFFFF_FFFFusize {
                return Err(Error::invalid("RIFF: group ckSize exceeds 32-bit range"));
            }
            let mut out: Vec<u8> = Vec::new();
            push_frame(&mut out, id, inner.as_slice(), order);
            assert(out@ =~= enc_chunk(view_chunk(*c), order));
            Ok(out)
        },
    }
}

/// A node's encoding is 8 header bytes plus its padded payload.
pub proof fn lemma_enc_chunk_len(c: ChunkModel, order: ByteOrder)
    requires
        c.id().len() == 4,
    ensures
        enc_chunk(c, order).len() == 8 + padded(payload_of(c, order).len() as int),
{
    assert(len_bytes(order, payload_of(c, order).len() as u32).len() == 4);
    assert(enc_chunk(c, order) == frame(c.id(), payload_of(c, order), order));
}

/// One more node of a run: its encoding extends the prefix's encoding.
pub proof fn lemma_run_step(s: Seq<RiffChunk>, i: int, order: ByteOrder)
    requires
        0 <= i < s.len(),
    ensures
        enc_seq(view_seq(s.take(i + 1)), order) == enc_seq(view_seq(s.take(i)), order) + enc_chunk(
            view_chunk(s[i]),
            order,
        ),
        view_seq(s.take(i + 1)) == view_seq(s.take(i)).push(view_chunk(s[i])),
        enc_seq(view_seq(s.take(i + 1)), order).len() <= enc_seq(view_seq(s), order).len(),
{
    assert(s.take(i + 1) =~= s.take(i).push(s[i]));
    lemma_view_seq_push(s.take(i), s[i]);
    lemma_enc_seq_push(view_seq(s.take(i)), view_chunk(s[i]), order);
    lemma_enc_prefix_len(s, i + 1, order);
}

/// A well-formed node or run is encodable.
pub proof fn lemma_wf_encodable(s: Seq<ChunkModel>, depth: int, order: ByteOrder)
    requires
        wf_seq(s, depth, order),
    ensures
        encodable_seq(s, order),
    decreases s,
{
    if s.len() > 0 {
        assert(wf_chunk(s[0], depth, order));
        lemma_wf_encodable(s.drop_first(), depth, order);
        match s[0] {
            ChunkModel::Group { children, .. } => {
                lemma_wf_encodable(children, depth + 1, order);
                assert(encodable_chunk(s[0], order));
            },
            ChunkModel::Leaf { .. } => {
                assert(encodable_chunk(s[0], order));
            },
        }
    }
}

impl RiffChunk {
    /// The chunk's FourCC (`ckID`).
    pub fn id(&self) -> (r: [u8; 4])
        ensures
            r@ == self@.id(),
    {
        match self {
            RiffChunk::Leaf { id, .. } => *id,
            RiffChunk::Group { id, .. } => *id,
        }
    }

    /// `true` if this node is a `RIFF` / `LIST` group.
    pub fn is_group(&self) -> (r: bool)
        ensures
            r == (self@ is Group),
    {
        match self {
            RiffChunk::Leaf { .. } => false,
            RiffChunk::Group { .. } => true,
        }
    }

    /// The un-padded `ckSize` this node serialises to: the body length of
    /// a leaf, or 4 plus the padded size of every child of a group.
    pub fn ck_size(&self) -> (r: u64)
        requires
            enc_chunk(self@, ByteOrder::LittleEndian).len() <= u64::MAX,
        ensures
            r == payload_of(self@, ByteOrder::LittleEndian).len(),
        decreases *self, 1int,
    {
        proof {
            lemma_enc_chunk_len(self@, ByteOrder::LittleEndian);
        }
        match self {
            RiffChunk::Leaf { body, .. } => body.len() as u64,
            RiffChunk::Group { children, .. } => 4 + run_size(children),
        }
    }

    /// Total bytes this node occupies on the wire: its 8-byte header, its
    /// payload and any pad byte.
    pub fn padded_outer_size(&self) -> (r: u64)
        requires
            enc_chunk(self@, ByteOrder::LittleEndian).len() <= u64::MAX,
        ensures
            r == enc_chunk(self@, ByteOrder::LittleEndian).len(),
        decreases *self, 2int,
    {
        proof {
            lemma_enc_chunk_len(self@, ByteOrder::LittleEndian);
        }
        let ck = self.ck_size();
        8 + ck + ck % 2
    }
}

/// Encoding distributes over concatenation of runs.
pub proof fn lemma_enc_seq_append(a: Seq<ChunkModel>, b: Seq<ChunkModel>, order: ByteOrder)
    ensures
        enc_seq(a + b, order) == enc_seq(a, order) + enc_seq(b, order),
    decreases a.len(),
{
    if a.len() == 0 {
        assert(a + b =~= b);
        assert(enc_seq(a, order) == Seq::<u8>::empty());
        assert(enc_seq(a + b, order) =~= enc_seq(a, order) + enc_seq(b, order));
    } else {
        assert((a + b).drop_first() =~= a.drop_first() + b);
        lemma_enc_seq_append(a.drop_first(), b, order);
        assert(enc_seq(a + b, order) =~= enc_seq(a, order) + enc_seq(b, order));
    }
}

/// `view_seq` distributes over concatenation.
pub proof fn lemma_view_seq_append(a: Seq<RiffChunk>, b: Seq<RiffChunk>)
    ensures
        view_seq(a + b) == view_seq(a) + view_seq(b),
    decreases a.len(),
{
    if a.len() == 0 {
        assert(a + b =~= b);
        assert(view_seq(a) == Seq::<ChunkModel>::empty());
        assert(view_seq(a + b) =~= view_seq(a) + view_seq(b));
    } else {
        assert((a + b).drop_first() =~= a.drop_first() + b);
        lemma_view_seq_append(a.drop_first(), b);
        assert(view_seq(a + b) =~= view_seq(a) + view_seq(b));
    }
}

/// The encoding of a prefix of a run is no longer than the run's.
pub proof fn lemma_enc_prefix_len(s: Seq<RiffChunk>, k: int, order: ByteOrder)
    requires
        0 <= k <= s.len(),
    ensures
        enc_seq(view_seq(s.take(k)), order).len() <= enc_seq(view_seq(s), order).len(),
{
    assert(s =~= s.take(k) + s.skip(k));
    lemma_view_seq_append(s.take(k), s.skip(k));
    lemma_enc_seq_append(view_seq(s.take(k)), view_seq(s.skip(k)), order);
}

/// Sum of the padded outer sizes of a run of nodes.
fn run_size(children: &Vec<RiffChunk>) -> (r: u64)
    requires
        4 + enc_seq(view_seq(children@), ByteOrder::LittleEndian).len() + 9 <= u64::MAX,
    ensures
        r == enc_seq(view_seq(children@), ByteOrder::LittleEndian).len(),
    decreases children@, 0int,
{
    let ghost order = ByteOrder::LittleEndian;
    let ghost whole = enc_seq(view_seq(children@), order);
    let mut total: u64 = 0;
    let mut i: usize = 0;
    assert(children@.take(0) =~= Seq::<RiffChunk>::empty());
    while i < children.len()
        invariant
            i <= children@.len(),
            order == ByteOrder::LittleEndian,
            4 + whole.len() + 9 <= u64::MAX,
            total == enc_seq(view_seq(children@.take(i as int)), order).len(),
            whole == enc_seq(view_seq(children@), order),
        decreases children@.len() - i,
    {
        proof {
            lemma_run_step(children@, i as int, order);
        }
        let child = &children[i];
        assert(child@ == view_chunk(children@[i as int]));
        let n = child.padded_outer_size();
        total = total + n;
        i += 1;
    }
    assert(children@.take(children@.len() as int) =~= children@);
    total
}

/// An owned, recursively parsed RIFF (or RIFX) file: the outer form
/// type, the byte order of its length fields, and its top-level
/// children.
#[derive(Debug, PartialEq, Eq)]
pub struct RiffTree {
    /// The outer form type (`WAVE`, `AVI `, `WEBP`, …).
    pub form_type: [u8; 4],
    /// Byte order of the length fields (`RIFF` little-endian, `RIFX`
    /// big-endian).
    pub byte_order: ByteOrder,
    /// Top-level children in file order.
    pub children: Vec<RiffChunk>,
}

/// The mathematical value of a [`RiffTree`].
pub struct TreeModel {
    /// The outer form type.
    pub form_type: Seq<u8>,
    /// Byte order of the length fields.
    pub byte_order: ByteOrder,
    /// Top-level children.
    pub children: Seq<ChunkModel>,
}

impl View for RiffTree {
    type V = TreeModel;

    open spec fn view(&self) -> TreeModel {
        TreeModel {
            form_type: self.form_type@,
            byte_order: self.byte_order,
            children: view_seq(self.children@),
        }
    }
}

/// The byte order an outer magic announces.
pub open spec fn order_of_magic(id: Seq<u8>) -> Option<ByteOrder> {
    if id == riff_id() {
        Some(ByteOrder::LittleEndian)
    } else if id == rifx_id() {
        Some(ByteOrder::BigEndian)
    } else {
        None
    }
}

/// The tree a complete file parses to.
///
/// The file starts with the `RIFF` or `RIFX` magic, an outer `ckSize` of
/// at least 4 that fits in the input, and the form type; the children
/// fill the rest of the outer payload. Bytes after the outer chunk are
/// ignored.
pub open spec fn parse_tree(b: Seq<u8>) -> Option<TreeModel> {
    if b.len() < 12 {
        None
    } else {
        match order_of_magic(b.subrange(0, 4)) {
            None => None,
            Some(order) => {
                let ck = read_len(order, b, 4) as int;
                if ck < 4 || 8 + ck > b.len() {
                    None
                } else {
                    match parse_seq(b.subrange(12, 8 + ck), 1, order) {
                        Some(ch) => Some(
                            TreeModel { form_type: b.subrange(8, 12), byte_order: order, children: ch },
                        ),
                        None => None,
                    }
                }
            },
        }
    }
}

/// Parsing the file `b` fails on the nesting limit: its outer prologue
/// is sound and its children fail first on [`MAX_DEPTH`].
pub open spec fn depth_fail_tree(b: Seq<u8>) -> bool {
    &&& b.len() >= 12
    &&& order_of_magic(b.subrange(0, 4)) matches Some(order)
    &&& 4 <= read_len(order, b, 4)
    &&& 8 + read_len(order, b, 4) <= b.len()
    &&& depth_fail_seq(b.subrange(12, 8 + read_len(order, b, 4)), 1, order)
}

/// The outer payload of a tree: the form type then the encoded children.
pub open spec fn tree_payload(t: TreeModel) -> Seq<u8> {
    t.form_type + enc_seq(t.children, t.byte_order)
}

/// The bytes a tree encodes to: magic, outer `ckSize`, payload.
pub open spec fn enc_tree(t: TreeModel) -> Seq<u8> {
    spec_magic(t.byte_order) + len_bytes(t.byte_order, tree_payload(t).len() as u32) + tree_payload(
        t,
    )
}

/// A tree that encodes and parses back to itself.
pub open spec fn wf_tree(t: TreeModel) -> bool {
    &&& t.form_type.len() == 4
    &&& wf_seq(t.children, 1, t.byte_order)
    &&& tree_payload(t).len() <= u32::MAX
}

/// Round trip of a whole file: the encoding of a well-formed tree, even
/// with arbitrary bytes after it, parses back to that tree. So a
/// well-formed file — one that is the encoding of some tree — parses to
/// a tree whose encoding is exactly the file's outer chunk, and that
/// encoding succeeds.
#[verifier::spinoff_prover]
pub proof fn lemma_tree_roundtrip(t: TreeModel, trailing: Seq<u8>)
    requires
        wf_tree(t),
    ensures
        parse_tree(enc_tree(t) + trailing) == Some(t),
        encodable_seq(t.children, t.byte_order),
{
    let order = t.byte_order;
    let b = enc_tree(t) + trailing;
    let p = tree_payload(t);
    let lb = len_bytes(order, p.len() as u32);
    assert(lb.len() == 4);
    assert(b.subrange(0, 4) =~= spec_magic(order));
    assert(order_of_magic(b.subrange(0, 4)) == Some(order)) by {
        assert(riff_id() != rifx_id()) by {
            assert(riff_id()[3] != rifx_id()[3]);
        }
    }
    assert(b.subrange(4, 8) =~= lb);
    lemma_len_roundtrip(order, b, 4, p.len() as u32);
    assert(b.subrange(8, 12) =~= t.form_type);
    assert(b.subrange(12, 8 + p.len() as int) =~= enc_seq(t.children, order));
    lemma_parse_enc_seq(t.children, 1, order);
    lemma_wf_encodable(t.children, 1, order);
}

/// A node the parser produces is well formed as soon as its payloads
/// fit 32-bit `ckSize` fields.
proof fn lemma_parse_node_wf(b: Seq<u8>, depth: int, order: ByteOrder)
    requires
        1 <= depth,
        parse_node(b, depth, order) is Some,
        encodable_chunk(parse_node(b, depth, order)->0, order),
    ensures
        wf_chunk(parse_node(b, depth, order)->0, depth, order),
    decreases b.len(), 0int,
{
    let size = read_len(order, b, 4) as int;
    if is_group_id(b.subrange(0, 4)) {
        lemma_parse_seq_wf(b.subrange(12, 8 + size), depth + 1, order);
    }
}

/// A run the parser produces is well formed as soon as its payloads
/// fit 32-bit `ckSize` fields.
proof fn lemma_parse_seq_wf(b: Seq<u8>, depth: int, order: ByteOrder)
    requires
        1 <= depth,
        parse_seq(b, depth, order) is Some,
        encodable_seq(parse_seq(b, depth, order)->0, order),
    ensures
        wf_seq(parse_seq(b, depth, order)->0, depth, order),
    decreases b.len(), 1int,
{
    let s = parse_seq(b, depth, order)->0;
    if b.len() > 0 {
        let n = parse_node(b, depth, order)->0;
        let rb = suffix(b, node_len(b, order));
        let r = parse_seq(rb, depth, order)->0;
        assert(s == seq![n] + r);
        assert(s[0] == n);
        assert(s.drop_first() =~= r);
        lemma_parse_node_wf(b, depth, order);
        lemma_parse_seq_wf(rb, depth, order);
    }
}

/// Re-encoding a parsed tree and parsing the result gives the same tree
/// back, whenever the re-encoding succeeds: parsing and encoding are
/// idempotent.
#[verifier::spinoff_prover]
pub proof fn lemma_parse_encode_parse(b: Seq<u8>, trailing: Seq<u8>)
    requires
        parse_tree(b) is Some,
        encodable_seq(parse_tree(b)->0.children, parse_tree(b)->0.byte_order),
        tree_payload(parse_tree(b)->0).len() <= u32::MAX,
    ensures
        parse_tree(enc_tree(parse_tree(b)->0) + trailing) == parse_tree(b),
{
    let t = parse_tree(b)->0;
    let order = t.byte_order;
    let ck = read_len(order, b, 4) as int;
    lemma_parse_seq_wf(b.subrange(12, 8 + ck), 1, order);
    lemma_tree_roundtrip(t, trailing);
}

/// Re-encoding a length word read from `s[off..off + 4]` gives those
/// four bytes back.
proof fn lemma_len_bytes_of_read(order: ByteOrder, s: Seq<u8>, off: int)
    requires
        0 <= off,
        off + 4 <= s.len(),
    ensures
        len_bytes(order, read_len(order, s, off)) == s.subrange(off, off + 4),
{
    match order {
        ByteOrder::LittleEndian => lemma_u32_bytes_of_le(s, off),
        ByteOrder::BigEndian => lemma_u32_be_bytes_of_be(s, off),
    }
}

/// The chunk starting at `b[0]` is laid out the way the encoder writes
/// it: its pad byte, if its `ckSize` is odd, is present and zero, and a
/// group's children fill its payload exactly in the same layout.
pub open spec fn canon_node(b: Seq<u8>, order: ByteOrder) -> bool
    decreases b.len(), 0int,
{
    if b.len() < 8 {
        false
    } else {
        let size = read_len(order, b, 4) as int;
        if 8 + padded(size) > b.len() {
            false
        } else if size % 2 == 1 && b[8 + size] != 0 {
            false
        } else if is_group_id(b.subrange(0, 4)) && size >= 4 {
            canon_seq(b.subrange(12, 8 + size), order)
        } else {
            true
        }
    }
}

/// `b` is a run of sibling chunks, each laid out as [`canon_node`]
/// describes, that fills `b` exactly (the last pad byte included).
pub open spec fn canon_seq(b: Seq<u8>, order: ByteOrder) -> bool
    decreases b.len(), 1int,
{
    if b.len() == 0 {
        true
    } else if !canon_node(b, order) {
        false
    } else {
        canon_seq(suffix(b, node_len(b, order)), order)
    }
}

/// A well-formed file: the `RIFF` or `RIFX` magic, an outer `ckSize`
/// that covers exactly the rest of the bytes, and children laid out as
/// the encoder writes them (every group's `ckSize` is 4 plus its
/// children's padded sizes, and every pad byte is present and zero).
pub open spec fn wf_bytes(b: Seq<u8>) -> bool {
    &&& b.len() >= 12
    &&& order_of_magic(b.subrange(0, 4)) matches Some(order)
    &&& 8 + read_len(order, b, 4) == b.len()
    &&& canon_seq(b.subrange(12, b.len() as int), order)
}

/// Encoding the node parsed from a canonically laid-out chunk gives the
/// chunk's bytes back.
proof fn lemma_enc_parse_node(b: Seq<u8>, depth: int, order: ByteOrder)
    requires
        parse_node(b, depth, order) is Some,
        canon_node(b, order),
    ensures
        enc_chunk(parse_node(b, depth, order)->0, order) == b.subrange(0, node_len(b, order)),
        encodable_chunk(parse_node(b, depth, order)->0, order),
    decreases b.len(), 0int,
{
    let size = read_len(order, b, 4) as int;
    let id = b.subrange(0, 4);
    let c = parse_node(b, depth, order)->0;
    lemma_len_bytes_of_read(order, b, 4);
    let p = b.subrange(8, 8 + size);
    if is_group_id(id) {
        let inner = b.subrange(12, 8 + size);
        lemma_enc_parse_seq(inner, depth + 1, order);
        assert(payload_of(c, order) =~= p);
    } else {
        assert(payload_of(c, order) =~= p);
    }
    assert(enc_chunk(c, order) == frame(id, p, order));
    assert(p.len() == size);
    assert(frame(id, p, order) =~= b.subrange(0, node_len(b, order)));
}

/// Encoding the run parsed from canonically laid-out bytes gives those
/// bytes back.
proof fn lemma_enc_parse_seq(b: Seq<u8>, depth: int, order: ByteOrder)
    requires
        parse_seq(b, depth, order) is Some,
        canon_seq(b, order),
    ensures
        enc_seq(parse_seq(b, depth, order)->0, order) == b,
        encodable_seq(parse_seq(b, depth, order)->0, order),
    decreases b.len(), 1int,
{
    let s = parse_seq(b, depth, order)->0;
    if b.len() == 0 {
        assert(s =~= Seq::<ChunkModel>::empty());
        assert(enc_seq(s, order) =~= b);
    } else {
        let n = parse_node(b, depth, order)->0;
        let nl = node_len(b, order);
        let rb = suffix(b, nl);
        let r = parse_seq(rb, depth, order)->0;
        lemma_enc_parse_node(b, depth, order);
        lemma_enc_parse_seq(rb, depth, order);
        assert(s == seq![n] + r);
        assert(s[0] == n);
        assert(s.drop_first() =~= r);
        assert(canon_node(b, order));
        assert(8 <= nl <= b.len());
        assert(b.subrange(0, nl) + rb =~= b);
    }
}

/// Byte-for-byte round trip of a well-formed file: encoding the tree it
/// parses to gives exactly the file back, and that encoding succeeds.
#[verifier::spinoff_prover]
pub proof fn lemma_encode_parse_bytes(b: Seq<u8>)
    requires
        parse_tree(b) is Some,
        wf_bytes(b),
    ensures
        enc_tree(parse_tree(b)->0) == b,
        encodable_seq(parse_tree(b)->0.children, parse_tree(b)->0.byte_order),
        tree_payload(parse_tree(b)->0).len() <= u32::MAX,
{
    let t = parse_tree(b)->0;
    let order = t.byte_order;
    assert(order_of_magic(b.subrange(0, 4)) == Some(order));
    let ck = read_len(order, b, 4) as int;
    let inner = b.subrange(12, 8 + ck);
    assert(inner =~= b.subrange(12, b.len() as int));
    lemma_enc_parse_seq(inner, 1, order);
    lemma_len_bytes_of_read(order, b, 4);
    assert(tree_payload(t) =~= b.subrange(8, b.len() as int));
    assert(spec_magic(order) =~= b.subrange(0, 4)) by {
        assert(riff_id() != rifx_id()) by {
            assert(riff_id()[3] != rifx_id()[3]);
        }
    }
    assert(enc_tree(t) =~= b);
}

impl RiffTree {
    /// Parse a complete in-memory `RIFF` or `RIFX` file into an owned
    /// tree. Bytes after the outer chunk are ignored.
    pub fn parse(bytes: &[u8]) -> (res: Result<RiffTree>)
        ensures
            res is Ok <==> parse_tree(bytes@) is Some,
            res matches Ok(t) ==> parse_tree(bytes@) == Some(t@),
            res matches Err(e) ==> (is_depth_error(e) <==> depth_fail_tree(bytes@)),
    {
        proof {
            reveal_strlit("RIFF: nesting exceeds MAX_DEPTH");
        }
        if bytes.len() < 12 {
            proof {
                reveal_strlit("RIFF: input shorter than the 12-byte outer prologue");
                assert("RIFF: input shorter than the 12-byte outer prologue"@.len()
                    != depth_message().len());
            }
            return Err(Error::invalid("RIFF: input shorter than the 12-byte outer prologue"));
        }
        let id = [bytes[0], bytes[1], bytes[2], bytes[3]];
        assert(id@ =~= bytes@.subrange(0, 4));
        let byte_order = if fourcc_eq(&id, &FOURCC_RIFF) {
            assert(riff_id() =~= FOURCC_RIFF@);
            ByteOrder::LittleEndian
        } else if fourcc_eq(&id, &FOURCC_RIFX) {
            assert(riff_id() =~= FOURCC_RIFF@);
            assert(rifx_id() =~= FOURCC_RIFX@);
            ByteOrder::BigEndian
        } else {
            assert(riff_id() =~= FOURCC_RIFF@);
            assert(rifx_id() =~= FOURCC_RIFX@);
            proof {
                reveal_strlit("RIFF: outer chunk is neither 'RIFF' nor 'RIFX'");
                assert("RIFF: outer chunk is neither 'RIFF' nor 'RIFX'"@.len()
                    != depth_message().len());
            }
            return Err(Error::invalid("RIFF: outer chunk is neither 'RIFF' nor 'RIFX'"));
        };
        let ck_size = read_len_exec(byte_order, bytes, 4);
        if ck_size < 4 {
            proof {
                reveal_strlit("RIFF: outer ckSize < 4 — no room for form type");
                assert("RIFF: outer ckSize < 4 — no room for form type"@.len()
                    != depth_message().len());
            }
            return Err(Error::invalid("RIFF: outer ckSize < 4 — no room for form type"));
        }
        if ck_size as usize > bytes.len() - 8 {
            proof {
                reveal_strlit("RIFF: outer ckSize overruns the input buffer");
                assert("RIFF: outer ckSize overruns the input buffer"@.len()
                    != depth_message().len());
            }
            return Err(Error::invalid("RIFF: outer ckSize overruns the input buffer"));
        }
        let payload_end = 8 + ck_size as usize;
        let form_type = [bytes[8], bytes[9], bytes[10], bytes[11]];
        assert(form_type@ =~= bytes@.subrange(8, 12));
        let inner = &bytes[12..payload_end];
        match parse_children(inner, 1, byte_order) {
            Ok(children) => Ok(RiffTree { form_type, byte_order, children }),
            Err(e) => Err(e),
        }
    }

    /// Serialise the tree back to bytes in its byte order. Fails when a
    /// payload does not fit a 32-bit `ckSize`.
    pub fn encode(&self) -> (res: Result<Vec<u8>>)
        ensures
            res is Ok <==> (encodable_seq(self@.children, self.byte_order) && tree_payload(
                self@,
            ).len() <= u32::MAX),
            res matches Ok(v) ==> v@ == enc_tree(self@),
    {
        let payload = encode_run(&self.form_type, &self.children, self.byte_order)?;
        if payload.len() > 0xFFFF_FFFFusize {
            return Err(Error::invalid("RIFF: outer ckSize exceeds 32-bit range"));
        }
        let mut out: Vec<u8> = Vec::new();
        let magic = self.byte_order.magic();
        out.push(magic[0]);
        out.push(magic[1]);
        out.push(magic[2]);
        out.push(magic[3]);
        push_len(&mut out, self.byte_order, payload.len() as u32);
        push_slice(&mut out, payload.as_slice());
        assert(out@ =~= enc_tree(self@));
        Ok(out)
    }
}

/// The first descendant of `c` (depth-first, pre-order, `c` itself
/// excluded) whose FourCC is `id`.
pub open spec fn find_in(c: ChunkModel, id: Seq<u8>) -> Option<ChunkModel>
    decreases c,
{
    match c {
        ChunkModel::Leaf { .. } => None,
        ChunkModel::Group { children, .. } => find_seq(children, id),
    }
}

/// The first node of the run, or of a node's descendants, in depth-first
/// pre-order, whose FourCC is `id`.
pub open spec fn find_seq(s: Seq<ChunkModel>, id: Seq<u8>) -> Option<ChunkModel>
    decreases s,
{
    if s.len() == 0 {
        None
    } else if s[0].id() == id {
        Some(s[0])
    } else {
        match find_in(s[0], id) {
            Some(x) => Some(x),
            None => find_seq(s.drop_first(), id),
        }
    }
}

/// `true` if `c` is a `LIST` group whose list type is `list_type`.
pub open spec fn is_list_of(c: ChunkModel, list_type: Seq<u8>) -> bool {
    c matches ChunkModel::Group { id, form_type, .. } && id == list_id() && form_type == list_type
}

/// The first node of the run that is a `LIST` of the given list type.
pub open spec fn find_list_seq(s: Seq<ChunkModel>, list_type: Seq<u8>) -> Option<ChunkModel>
    decreases s.len(),
{
    if s.len() == 0 {
        None
    } else if is_list_of(s[0], list_type) {
        Some(s[0])
    } else {
        find_list_seq(s.drop_first(), list_type)
    }
}

/// Every node of `c` (itself included, depth-first pre-order) whose
/// FourCC is `id`; a matching group is also searched.
pub open spec fn collect_in(c: ChunkModel, id: Seq<u8>) -> Seq<ChunkModel>
    decreases c,
{
    (if c.id() == id {
        seq![c]
    } else {
        Seq::empty()
    }) + match c {
        ChunkModel::Leaf { .. } => Seq::empty(),
        ChunkModel::Group { children, .. } => collect_seq(children, id),
    }
}

/// Every node of the run and of its descendants whose FourCC is `id`.
pub open spec fn collect_seq(s: Seq<ChunkModel>, id: Seq<u8>) -> Seq<ChunkModel>
    decreases s,
{
    if s.len() == 0 {
        Seq::empty()
    } else {
        collect_in(s[0], id) + collect_seq(s.drop_first(), id)
    }
}

/// The models of a sequence of node references.
pub open spec fn refs_view(s: Seq<&RiffChunk>) -> Seq<ChunkModel> {
    s.map_values(|r: &RiffChunk| view_chunk(*r))
}

/// Splitting a run after its first `i` nodes.
proof fn lemma_skip_step(s: Seq<RiffChunk>, i: int)
    requires
        0 <= i < s.len(),
    ensures
        view_seq(s.skip(i)).len() > 0,
        view_seq(s.skip(i))[0] == view_chunk(s[i]),
        view_seq(s.skip(i)).drop_first() == view_seq(s.skip(i + 1)),
{
    assert(s.skip(i).drop_first() =~= s.skip(i + 1));
    assert(s.skip(i)[0] == s[i]);
    lemma_view_seq_len(s.skip(i));
}

/// Search a run of nodes (and their descendants) for `id`.
fn find_run<'a>(children: &'a Vec<RiffChunk>, id: &[u8; 4]) -> (r: Option<&'a RiffChunk>)
    ensures
        r matches Some(x) ==> find_seq(view_seq(children@), id@) == Some(x@),
        r is None ==> find_seq(view_seq(children@), id@) is None,
    decreases children@, 0int,
{
    let mut i: usize = 0;
    assert(children@.skip(0) =~= children@);
    while i < children.len()
        invariant
            i <= children@.len(),
            find_seq(view_seq(children@), id@) == find_seq(view_seq(children@.skip(i as int)), id@),
        decreases children@.len() - i,
    {
        proof {
            lemma_skip_step(children@, i as int);
        }
        let child = &children[i];
        if fourcc_eq(&child.id(), id) {
            return Some(child);
        }
        match child.find(id) {
            Some(found) => {
                return Some(found);
            },
            None => {},
        }
        i += 1;
    }
    assert(children@.skip(i as int) =~= Seq::<RiffChunk>::empty());
    None
}

/// Search a run of nodes for a `LIST` of the given list type.
fn find_list_run<'a>(children: &'a Vec<RiffChunk>, list_type: &[u8; 4]) -> (r: Option<
    &'a RiffChunk,
>)
    ensures
        r matches Some(x) ==> find_list_seq(view_seq(children@), list_type@) == Some(x@),
        r is None ==> find_list_seq(view_seq(children@), list_type@) is None,
{
    let mut i: usize = 0;
    assert(children@.skip(0) =~= children@);
    while i < children.len()
        invariant
            i <= children@.len(),
            find_list_seq(view_seq(children@), list_type@) == find_list_seq(
                view_seq(children@.skip(i as int)),
                list_type@,
            ),
        decreases children@.len() - i,
    {
        proof {
            lemma_skip_step(children@, i as int);
        }
        let child = &children[i];
        match child {
            RiffChunk::Group { id, form_type, .. } => {
                if fourcc_eq(id, &FOURCC_LIST) && fourcc_eq(form_type, list_type) {
                    assert(list_id() =~= FOURCC_LIST@);
                    return Some(child);
                }
                assert(list_id() =~= FOURCC_LIST@);
            },
            RiffChunk::Leaf { .. } => {},
        }
        i += 1;
    }
    assert(children@.skip(i as int) =~= Seq::<RiffChunk>::empty());
    None
}

/// Append every node of `children` (and descendants) whose FourCC is `id`.
fn collect_run<'a>(children: &'a Vec<RiffChunk>, id: &[u8; 4], out: &mut Vec<&'a RiffChunk>)
    ensures
        refs_view(final(out)@) == refs_view(old(out)@) + collect_seq(view_seq(children@), id@),
    decreases children@, 0int,
{
    let mut i: usize = 0;
    assert(children@.skip(0) =~= children@);
    let ghost start = refs_view(out@);
    assert(collect_seq(view_seq(children@), id@) == collect_seq(
        view_seq(children@.skip(0)),
        id@,
    ));
    while i < children.len()
        invariant
            i <= children@.len(),
            start + collect_seq(view_seq(children@), id@) == refs_view(out@) + collect_seq(
                view_seq(children@.skip(i as int)),
                id@,
            ),
        decreases children@.len() - i,
    {
        proof {
            lemma_skip_step(children@, i as int);
        }
        let ghost before = refs_view(out@);
        children[i].collect_into(id, out);
        assert(refs_view(out@) + collect_seq(view_seq(children@.skip(i + 1)), id@) =~= before
            + collect_seq(view_seq(children@.skip(i as int)), id@));
        i += 1;
    }
    assert(children@.skip(i as int) =~= Seq::<RiffChunk>::empty());
    assert(refs_view(out@) + Seq::<ChunkModel>::empty() =~= refs_view(out@));
    assert(start + collect_seq(view_seq(children@), id@) == refs_view(out@));
}

impl RiffChunk {
    /// The first descendant (depth-first, pre-order) whose FourCC equals
    /// `id`; the receiver itself is not tested.
    pub fn find(&self, id: &[u8; 4]) -> (r: Option<&RiffChunk>)
        ensures
            r matches Some(x) ==> find_in(self@, id@) == Some(x@),
            r is None ==> find_in(self@, id@) is None,
        decreases *self, 1int,
    {
        match self {
            RiffChunk::Leaf { .. } => None,
            RiffChunk::Group { children, .. } => find_run(children, id),
        }
    }

    /// Append every node of this subtree (itself included, depth-first
    /// pre-order) whose FourCC equals `id`.
    fn collect_into<'a>(&'a self, id: &[u8; 4], out: &mut Vec<&'a RiffChunk>)
        ensures
            refs_view(final(out)@) == refs_view(old(out)@) + collect_in(self@, id@),
        decreases *self, 1int,
    {
        let ghost start = refs_view(out@);
        if fourcc_eq(&self.id(), id) {
            out.push(self);
            assert(refs_view(out@) =~= start + seq![self@]);
        } else {
            assert(refs_view(out@) =~= start + Seq::<ChunkModel>::empty());
        }
        let ghost mid = refs_view(out@);
        match self {
            RiffChunk::Leaf { .. } => {
                assert(refs_view(out@) =~= start + collect_in(self@, id@));
            },
            RiffChunk::Group { children, .. } => {
                collect_run(children, id, out);
                assert(refs_view(out@) =~= start + collect_in(self@, id@));
            },
        }
    }

    /// The first immediate child that is a `LIST` of the given list type.
    pub fn find_list(&self, list_type: &[u8; 4]) -> (r: Option<&RiffChunk>)
        ensures
            r matches Some(x) ==> (self@ matches ChunkModel::Group { children, .. }
                && find_list_seq(children, list_type@) == Some(x@)),
            r is None ==> !(self@ matches ChunkModel::Group { children, .. } && find_list_seq(
                children,
                list_type@,
            ) is Some),
    {
        match self {
            RiffChunk::Leaf { .. } => None,
            RiffChunk::Group { children, .. } => find_list_run(children, list_type),
        }
    }

    /// Mutable access to a group's children for in-place editing
    /// (reorder, insert, remove); `None` for a leaf.
    pub fn children_mut(&mut self) -> (r: Option<&mut Vec<RiffChunk>>)
        ensures
            *old(self) is Leaf ==> (r is None && *final(self) == *old(self)),
            *old(self) matches RiffChunk::Group { id, form_type, children } ==> (r matches Some(v)
                && *v == children && *final(self) == (RiffChunk::Group {
                id,
                form_type,
                children: *final(v),
            })),
    {
        match self {
            RiffChunk::Leaf { .. } => None,
            RiffChunk::Group { children, .. } => Some(children),
        }
    }

    /// The immediate children of a group, or an empty slice for a leaf.
    pub fn children(&self) -> (r: &[RiffChunk])
        ensures
            self@ matches ChunkModel::Group { children, .. } ==> view_seq(r@) == children,
            self@ is Leaf ==> r@.len() == 0,
    {
        match self {
            RiffChunk::Leaf { .. } => &[],
            RiffChunk::Group { children, .. } => children.as_slice(),
        }
    }
}

impl RiffTree {
    /// The first chunk (depth-first, pre-order) anywhere in the tree whose
    /// FourCC equals `id`.
    pub fn find(&self, id: &[u8; 4]) -> (r: Option<&RiffChunk>)
        ensures
            r matches Some(x) ==> find_seq(self@.children, id@) == Some(x@),
            r is None ==> find_seq(self@.children, id@) is None,
            r matches Some(x) ==> first_of(run_nodes(self@.children).filter(has_id(id@))) == Some(
                x@,
            ),
            r is None ==> first_of(run_nodes(self@.children).filter(has_id(id@))) is None,
    {
        proof {
            lemma_find_seq_is_first(self@.children, id@);
        }
        find_run(&self.children, id)
    }

    /// The first top-level `LIST` whose list type equals `list_type`.
    pub fn find_list(&self, list_type: &[u8; 4]) -> (r: Option<&RiffChunk>)
        ensures
            r matches Some(x) ==> find_list_seq(self@.children, list_type@) == Some(x@),
            r is None ==> find_list_seq(self@.children, list_type@) is None,
    {
        find_list_run(&self.children, list_type)
    }

    /// Every chunk anywhere in the tree (depth-first, pre-order) whose
    /// FourCC equals `id`.
    pub fn find_all(&self, id: &[u8; 4]) -> (r: Vec<&RiffChunk>)
        ensures
            refs_view(r@) == collect_seq(self@.children, id@),
            refs_view(r@) == run_nodes(self@.children).filter(has_id(id@)),
    {
        proof {
            lemma_collect_seq_is_filter(self@.children, id@);
        }
        let mut out: Vec<&RiffChunk> = Vec::new();
        collect_run(&self.children, id, &mut out);
        assert(refs_view(Seq::<&RiffChunk>::empty()) =~= Seq::<ChunkModel>::empty());
        assert(Seq::<ChunkModel>::empty() + collect_seq(self@.children, id@) =~= collect_seq(
            self@.children,
            id@,
        ));
        out
    }
}

/// `c` with the node that [`find_in`] selects replaced by `x`.
pub open spec fn replace_found_in(c: ChunkModel, id: Seq<u8>, x: ChunkModel) -> ChunkModel
    decreases c,
{
    match c {
        ChunkModel::Leaf { .. } => c,
        ChunkModel::Group { id: gid, form_type, children } => ChunkModel::Group {
            id: gid,
            form_type,
            children: replace_found_seq(children, id, x),
        },
    }
}

/// The run with the node that [`find_seq`] selects replaced by `x`.
pub open spec fn replace_found_seq(s: Seq<ChunkModel>, id: Seq<u8>, x: ChunkModel) -> Seq<
    ChunkModel,
>
    decreases s,
{
    if s.len() == 0 {
        s
    } else if s[0].id() == id {
        s.update(0, x)
    } else if find_in(s[0], id) is Some {
        s.update(0, replace_found_in(s[0], id, x))
    } else {
        seq![s[0]] + replace_found_seq(s.drop_first(), id, x)
    }
}

/// Within one node: after the found node is replaced by `x` with the
/// same FourCC, the search finds `x`.
pub proof fn lemma_find_replace_in(c: ChunkModel, id: Seq<u8>, x: ChunkModel)
    requires
        find_in(c, id) is Some,
        x.id() == id,
    ensures
        find_in(replace_found_in(c, id, x), id) == Some(x),
    decreases c,
{
    match c {
        ChunkModel::Leaf { .. } => {},
        ChunkModel::Group { children, .. } => {
            lemma_find_replace_seq(children, id, x);
        },
    }
}

/// What is written through [`RiffTree::find_mut`] is what
/// [`RiffTree::find`] gives back afterwards, as long as the written node
/// keeps the FourCC that was searched for.
pub proof fn lemma_find_replace_seq(s: Seq<ChunkModel>, id: Seq<u8>, x: ChunkModel)
    requires
        find_seq(s, id) is Some,
        x.id() == id,
    ensures
        find_seq(replace_found_seq(s, id, x), id) == Some(x),
    decreases s,
{
    let r = replace_found_seq(s, id, x);
    if s[0].id() == id {
        assert(r[0] == x);
    } else if find_in(s[0], id) is Some {
        let y = replace_found_in(s[0], id, x);
        assert(r[0] == y);
        assert(y.id() == s[0].id());
        lemma_find_replace_in(s[0], id, x);
    } else {
        let t = s.drop_first();
        lemma_find_replace_seq(t, id, x);
        assert(r[0] == s[0]);
        assert(r.drop_first() =~= replace_found_seq(t, id, x));
    }
}

/// `view_seq` commutes with replacing one node.
proof fn lemma_view_seq_update(s: Seq<RiffChunk>, i: int, y: RiffChunk)
    requires
        0 <= i < s.len(),
    ensures
        view_seq(s.update(i, y)) == view_seq(s).update(i, view_chunk(y)),
    decreases s.len(),
{
    lemma_view_seq_len(s);
    lemma_view_seq_len(s.update(i, y));
    assert forall|k: int| 0 <= k < s.len() implies view_seq(s.update(i, y))[k] == view_seq(
        s,
    ).update(i, view_chunk(y))[k] by {
        lemma_view_seq_index(s.update(i, y), k);
        lemma_view_seq_index(s, k);
    }
    assert(view_seq(s.update(i, y)) =~= view_seq(s).update(i, view_chunk(y)));
}

/// Skipping a prefix of nodes that neither match nor contain a match.
proof fn lemma_replace_skip(s: Seq<ChunkModel>, i: int, id: Seq<u8>, x: ChunkModel)
    requires
        0 <= i <= s.len(),
        forall|j: int| 0 <= j < i ==> s[j].id() != id && find_in(#[trigger] s[j], id) is None,
    ensures
        replace_found_seq(s, id, x) == s.take(i) + replace_found_seq(s.skip(i), id, x),
    decreases i,
{
    if i == 0 {
        assert(s.take(0) + s.skip(0) =~= s);
        assert(s.take(0) + replace_found_seq(s.skip(0), id, x) =~= replace_found_seq(s, id, x));
    } else {
        let t = s.drop_first();
        assert forall|j: int| 0 <= j < i - 1 implies t[j].id() != id && find_in(
            #[trigger] t[j],
            id,
        ) is None by {
            assert(t[j] == s[j + 1]);
        }
        assert(s[0].id() != id && find_in(s[0], id) is None);
        lemma_replace_skip(t, i - 1, id, x);
        assert(t.skip(i - 1) =~= s.skip(i));
        assert(seq![s[0]] + t.take(i - 1) =~= s.take(i));
    }
}

/// Locate, mutably, the first node of the run (or of its descendants)
/// whose FourCC is `id`.
fn find_mut_run<'a>(children: &'a mut Vec<RiffChunk>, id: &[u8; 4]) -> (r: Option<
    &'a mut RiffChunk,
>)
    ensures
        r matches Some(x) ==> (find_seq(view_seq(old(children)@), id@) == Some(x@)
            && view_seq(final(children)@) == replace_found_seq(
            view_seq(old(children)@),
            id@,
            final(x)@,
        )),
        r is None ==> (find_seq(view_seq(old(children)@), id@) is None
            && final(children)@ == old(children)@),
    decreases old(children)@, 0int,
{
    let ghost v = view_seq(children@);
    let mut i: usize = 0;
    assert(children@.skip(0) =~= children@);
    proof {
        lemma_view_seq_len(children@);
    }
    while i < children.len()
        invariant
            i <= children@.len(),
            children@ == old(children)@,
            v == view_seq(children@),
            v.len() == children@.len(),
            find_seq(v, id@) == find_seq(view_seq(children@.skip(i as int)), id@),
            forall|j: int| 0 <= j < i ==> v[j].id() != id@ && find_in(#[trigger] v[j], id@) is None,
        ensures
            i <= children@.len(),
            children@ == old(children)@,
            v == view_seq(children@),
            v.len() == children@.len(),
            find_seq(v, id@) == find_seq(view_seq(children@.skip(i as int)), id@),
            forall|j: int| 0 <= j < i ==> v[j].id() != id@ && find_in(#[trigger] v[j], id@) is None,
            i == children@.len() || v[i as int].id() == id@ || find_in(v[i as int], id@) is Some,
        decreases children@.len() - i,
    {
        proof {
            lemma_skip_step(children@, i as int);
            lemma_view_seq_index(children@, i as int);
        }
        if fourcc_eq(&children[i].id(), id) {
            break;
        }
        if children[i].find(id).is_some() {
            break;
        }
        i += 1;
    }
    if i == children.len() {
        assert(children@.skip(i as int) =~= Seq::<RiffChunk>::empty());
        return None;
    }
    proof {
        lemma_skip_step(children@, i as int);
        lemma_view_seq_index(children@, i as int);
        lemma_replace_skip(v, i as int, id@, v[i as int]);
    }
    let ghost old_children = children@;
    let child = &mut children[i];
    if fourcc_eq(&child.id(), id) {
        proof {
            lemma_view_seq_update(old_children, i as int, *final(child));
            lemma_replace_skip(v, i as int, id@, final(child)@);
            assert(v.skip(i as int)[0] == v[i as int]);
            assert(replace_found_seq(v.skip(i as int), id@, final(child)@) =~= v.skip(
                i as int,
            ).update(0, final(child)@));
            assert(v.take(i as int) + v.skip(i as int).update(0, final(child)@) =~= v.update(
                i as int,
                final(child)@,
            ));
        }
        Some(child)
    } else {
        proof {
            lemma_view_seq_update(old_children, i as int, *final(child));
        }
        let r = child.find_mut(id);
        proof {
            match r {
                Some(ref x) => {
                    lemma_replace_skip(v, i as int, id@, final(*x)@);
                    assert(v.skip(i as int)[0] == v[i as int]);
                    assert(replace_found_seq(v.skip(i as int), id@, final(*x)@) =~= v.skip(
                        i as int,
                    ).update(0, replace_found_in(v[i as int], id@, final(*x)@)));
                    assert(v.take(i as int) + v.skip(i as int).update(
                        0,
                        replace_found_in(v[i as int], id@, final(*x)@),
                    ) =~= v.update(i as int, replace_found_in(v[i as int], id@, final(*x)@)));
                },
                None => {},
            }
        }
        r
    }
}

impl RiffChunk {
    /// Mutable variant of [`RiffChunk::find`]: the first descendant
    /// (depth-first, pre-order) whose FourCC equals `id`, for in-place
    /// editing. What is written through the reference replaces that node.
    pub fn find_mut(&mut self, id: &[u8; 4]) -> (r: Option<&mut RiffChunk>)
        ensures
            r matches Some(x) ==> (find_in(old(self)@, id@) == Some(x@) && final(self)@
                == replace_found_in(old(self)@, id@, final(x)@)),
            r is None ==> (find_in(old(self)@, id@) is None && final(self)@ == old(self)@),
        decreases *old(self), 1int,
    {
        if !self.is_group() {
            return None;
        }
        match self {
            RiffChunk::Leaf { .. } => None,
            RiffChunk::Group { children, .. } => find_mut_run(children, id),
        }
    }
}

impl RiffTree {
    /// Mutable variant of [`RiffTree::find`], for in-place editing
    /// followed by a byte-exact [`RiffTree::encode`]. What is written
    /// through the reference replaces that node.
    pub fn find_mut(&mut self, id: &[u8; 4]) -> (r: Option<&mut RiffChunk>)
        ensures
            r matches Some(x) ==> (find_seq(old(self)@.children, id@) == Some(x@)
                && final(self)@.children == replace_found_seq(old(self)@.children, id@, final(x)@)
                && final(self).form_type == old(self).form_type
                && final(self).byte_order == old(self).byte_order),
            r is None ==> (find_seq(old(self)@.children, id@) is None
                && final(self)@ == old(self)@),
    {
        find_mut_run(&mut self.children, id)
    }
}

} // verus!
