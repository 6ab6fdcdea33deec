//! What the tree searches return, stated against a plain walk of the
//! tree: [`RiffTree::find_all`](crate::tree::RiffTree::find_all) keeps
//! exactly the nodes with the requested FourCC, in depth-first pre-order,
//! searching below matching groups too, and
//! [`RiffTree::find`](crate::tree::RiffTree::find) returns the first of
//! them.
use vstd::prelude::*;

use crate::tree::{collect_in, collect_seq, find_in, find_seq, ChunkModel};

verus! {

/// Every node of the subtree rooted at `c`, in depth-first pre-order:
/// `c` first, then each child's subtree in turn.
pub open spec fn subtree_nodes(c: ChunkModel) -> Seq<ChunkModel>
    decreases c,
{
    seq![c] + match c {
        ChunkModel::Leaf { .. } => Seq::empty(),
        ChunkModel::Group { children, .. } => run_nodes(children),
    }
}

/// Every node of the subtrees of a run of siblings, in depth-first
/// pre-order.
pub open spec fn run_nodes(s: Seq<ChunkModel>) -> Seq<ChunkModel>
    decreases s,
{
    if s.len() == 0 {
        Seq::empty()
    } else {
        subtree_nodes(s[0]) + run_nodes(s.drop_first())
    }
}

/// The predicate "the node's FourCC is `id`".
pub open spec fn has_id(id: Seq<u8>) -> spec_fn(ChunkModel) -> bool {
    |n: ChunkModel| n.id() == id
}

/// The search of a subtree keeps exactly the subtree's nodes whose FourCC
/// is `id`, in pre-order: a matching group is recorded and its
/// descendants are still searched.
pub proof fn lemma_collect_in_is_filter(c: ChunkModel, id: Seq<u8>)
    ensures
        collect_in(c, id) == subtree_nodes(c).filter(has_id(id)),
    decreases c,
{
    let p = has_id(id);
    let rest = match c {
        ChunkModel::Leaf { .. } => Seq::<ChunkModel>::empty(),
        ChunkModel::Group { children, .. } => run_nodes(children),
    };
    rest.lemma_filter_prepend(c, p);
    match c {
        ChunkModel::Leaf { .. } => {
            reveal(Seq::<ChunkModel>::filter);
            assert(rest.filter(p) =~= Seq::<ChunkModel>::empty());
        },
        ChunkModel::Group { children, .. } => {
            lemma_collect_seq_is_filter(children, id);
        },
    }
    assert(collect_in(c, id) =~= subtree_nodes(c).filter(p));
}

/// The search of a run of siblings keeps exactly the nodes of their
/// subtrees whose FourCC is `id`, in pre-order.
pub proof fn lemma_collect_seq_is_filter(s: Seq<ChunkModel>, id: Seq<u8>)
    ensures
        collect_seq(s, id) == run_nodes(s).filter(has_id(id)),
    decreases s,
{
    let p = has_id(id);
    if s.len() == 0 {
        reveal(Seq::<ChunkModel>::filter);
        assert(run_nodes(s).filter(p) =~= Seq::<ChunkModel>::empty());
    } else {
        lemma_collect_in_is_filter(s[0], id);
        lemma_collect_seq_is_filter(s.drop_first(), id);
        Seq::filter_distributes_over_add(subtree_nodes(s[0]), run_nodes(s.drop_first()), p);
    }
}

/// A matching node that lies below another matching node is still found:
/// when `c` matches `id` and a child subtree contains a node `n` with
/// FourCC `id`, both `c` and `n` are in the search result.
pub proof fn lemma_collect_in_keeps_nested(c: ChunkModel, id: Seq<u8>, n: ChunkModel)
    requires
        c.id() == id,
        n.id() == id,
        c matches ChunkModel::Group { children, .. } && run_nodes(children).contains(n),
    ensures
        collect_in(c, id).contains(c),
        collect_in(c, id).contains(n),
        collect_in(c, id)[0] == c,
{
    lemma_collect_in_is_filter(c, id);
    let p = has_id(id);
    let all = subtree_nodes(c);
    let children = match c {
        ChunkModel::Group { children, .. } => children,
        _ => Seq::empty(),
    };
    let k = choose|k: int| 0 <= k < run_nodes(children).len() && run_nodes(children)[k] == n;
    assert(all[k + 1] == n);
    assert(all[0] == c);
    all.lemma_filter_contains(p, k + 1);
    all.lemma_filter_contains(p, 0);
    run_nodes(children).lemma_filter_prepend(c, p);
}

/// The first element of a sequence of nodes, if any.
pub open spec fn first_of(s: Seq<ChunkModel>) -> Option<ChunkModel> {
    if s.len() > 0 {
        Some(s[0])
    } else {
        None
    }
}

/// The first node of a concatenation.
proof fn lemma_first_of_add(a: Seq<ChunkModel>, b: Seq<ChunkModel>)
    ensures
        first_of(a + b) == (if a.len() > 0 {
            first_of(a)
        } else {
            first_of(b)
        }),
{
    if a.len() == 0 {
        assert(a + b =~= b);
    }
}

proof fn lemma_find_in_collect(c: ChunkModel, id: Seq<u8>)
    ensures
        find_in(c, id) == (match c {
            ChunkModel::Leaf { .. } => None,
            ChunkModel::Group { children, .. } => first_of(collect_seq(children, id)),
        }),
    decreases c,
{
    match c {
        ChunkModel::Leaf { .. } => {},
        ChunkModel::Group { children, .. } => {
            lemma_find_seq_collect(children, id);
        },
    }
}

proof fn lemma_find_seq_collect(s: Seq<ChunkModel>, id: Seq<u8>)
    ensures
        find_seq(s, id) == first_of(collect_seq(s, id)),
    decreases s,
{
    if s.len() > 0 {
        let c = s[0];
        let below = match c {
            ChunkModel::Leaf { .. } => Seq::<ChunkModel>::empty(),
            ChunkModel::Group { children, .. } => collect_seq(children, id),
        };
        lemma_find_in_collect(c, id);
        lemma_find_seq_collect(s.drop_first(), id);
        lemma_first_of_add(collect_in(c, id), collect_seq(s.drop_first(), id));
        if c.id() == id {
            assert(collect_in(c, id) == seq![c] + below);
            assert(collect_in(c, id)[0] == c);
        } else {
            assert(collect_in(c, id) =~= below);
        }
    }
}

/// Searching a run returns the first node, in depth-first pre-order,
/// whose FourCC is `id`: the first of the nodes that the exhaustive
/// search keeps.
pub proof fn lemma_find_seq_is_first(s: Seq<ChunkModel>, id: Seq<u8>)
    ensures
        find_seq(s, id) == first_of(run_nodes(s).filter(has_id(id))),
{
    lemma_find_seq_collect(s, id);
    lemma_collect_seq_is_filter(s, id);
}

/// Searching below a node returns the first strict descendant, in
/// depth-first pre-order, whose FourCC is `id`; a leaf has none.
pub proof fn lemma_find_in_is_first(c: ChunkModel, id: Seq<u8>)
    ensures
        find_in(c, id) == (match c {
            ChunkModel::Leaf { .. } => None,
            ChunkModel::Group { children, .. } => first_of(run_nodes(children).filter(has_id(id))),
        }),
{
    lemma_find_in_collect(c, id);
    match c {
        ChunkModel::Leaf { .. } => {},
        ChunkModel::Group { children, .. } => {
            lemma_collect_seq_is_filter(children, id);
        },
    }
}

} // verus!
