//! The tree's global laws, stated and proved once over the specifications
//! that the executable functions' contracts use.

use vstd::prelude::*;

use crate::color::Color;
use crate::tree::{NodeIndex, Tree};

verus! {

/// Depth consistency: the root has depth 0, and every other node sits
/// exactly one level below its parent.
pub proof fn lemma_depth_consistency(t: Tree, i: int)
    requires
        t.wf(),
        0 <= i < t.len(),
    ensures
        t.parent_of(i) is None ==> t.sdepth(i) == 0,
        t.parent_of(i) is Some ==> t.sdepth(i) == t.sdepth(t.parent_of(i).unwrap() as int) + 1,
{
    assert(t.wf_node(i));
}

/// Alternation, per node: a node's side is fixed by the parity of its
/// depth, White on even depths.
pub proof fn lemma_alternation(t: Tree, i: int)
    requires
        t.wf(),
        0 <= i < t.len(),
    ensures
        t.val(i).color == (if t.sdepth(i) % 2 == 0 {
            Color::White
        } else {
            Color::Black
        }),
    decreases i,
{
    assert(t.wf_node(i));
    match t.parent_of(i) {
        Some(p) => {
            lemma_alternation(t, p as int);
        },
        None => {
        },
    }
}

/// Alternation, per path: along the path from the root to any node the
/// side to move strictly alternates, starting with White at the root.
pub proof fn lemma_path_alternates(t: Tree, i: int)
    requires
        t.wf(),
        0 <= i < t.len(),
    ensures
        t.path_to(i).len() == t.sdepth(i) + 1,
        forall|j: int|
            0 <= j < t.path_to(i).len() ==> t.path_to(i)[j].color == (if j % 2 == 0 {
                Color::White
            } else {
                Color::Black
            }),
    decreases i,
{
    assert(t.wf_node(i));
    lemma_alternation(t, i);
    match t.parent_of(i) {
        Some(p) => {
            lemma_path_alternates(t, p as int);
            assert(forall|j: int|
                0 <= j < t.path_to(p as int).len() ==> t.path_to(i)[j] == t.path_to(p as int)[j]);
        },
        None => {
        },
    }
}

/// Dedup: under one parent no two children share a `(side, token)` key,
/// so insert-or-find with the key of an existing child always lands on
/// that one node and leaves the arena unchanged.
pub proof fn lemma_dedup_unique_child(t: Tree, p: int, j1: int, j2: int)
    requires
        t.wf(),
        0 <= p < t.len(),
        0 <= j1 < t.children_of(p).len(),
        0 <= j2 < t.children_of(p).len(),
        crate::chess_move::move_key(t.val(t.children_of(p)[j1] as int))
            == crate::chess_move::move_key(t.val(t.children_of(p)[j2] as int)),
    ensures
        j1 == j2,
{
    assert(t.wf_node(p));
}

/// A node's key path is one longer than its depth.
proof fn lemma_key_path_len(t: Tree, i: int)
    requires
        t.wf(),
        0 <= i < t.len(),
    ensures
        t.key_path_to(i).len() == t.sdepth(i) + 1,
    decreases i,
{
    assert(t.wf_node(i));
    match t.parent_of(i) {
        Some(p) => {
            lemma_key_path_len(t, p as int);
        },
        None => {
        },
    }
}

/// While the tree is complete (before pruning), distinct nodes carry
/// distinct key paths: a traversed move sequence identifies at most one
/// node, so each node's frequency counter counts the traversals of its
/// own sequence and of no other.
pub proof fn lemma_key_path_injective(t: Tree, i1: int, i2: int)
    requires
        t.wf(),
        t.complete(),
        0 <= i1 < t.len(),
        0 <= i2 < t.len(),
        t.key_path_to(i1) == t.key_path_to(i2),
    ensures
        i1 == i2,
    decreases i1 + i2,
{
    assert(t.wf_node(i1));
    assert(t.wf_node(i2));
    lemma_key_path_len(t, i1);
    lemma_key_path_len(t, i2);
    match (t.parent_of(i1), t.parent_of(i2)) {
        (None, None) => {
        },
        (Some(p1), Some(p2)) => {
            assert(t.key_path_to(p1 as int) =~= t.key_path_to(i1).drop_last());
            assert(t.key_path_to(p2 as int) =~= t.key_path_to(i2).drop_last());
            lemma_key_path_injective(t, p1 as int, p2 as int);
            let p = p1 as int;
            assert(t.wf_node(p));
            assert(t.children_of(p).contains(i1 as NodeIndex));
            assert(t.children_of(p).contains(i2 as NodeIndex));
            let j1 = choose|j: int|
                0 <= j < t.children_of(p).len() && t.children_of(p)[j] == i1 as NodeIndex;
            let j2 = choose|j: int|
                0 <= j < t.children_of(p).len() && t.children_of(p)[j] == i2 as NodeIndex;
            assert(t.key_path_to(i1).last() == t.key_path_to(i2).last());
            if j1 != j2 {
                assert(crate::chess_move::move_key(t.val(t.children_of(p)[j1] as int))
                    != crate::chess_move::move_key(t.val(t.children_of(p)[j2] as int)));
            }
        },
        _ => {
            // One node is the root, the other is not: their key paths have
            // different lengths.
            assert(false);
        },
    }
}

/// A frequency bump leaves every key path unchanged: the dedup keys
/// ignore the counters, so counting traversals never moves a node's
/// identity.
pub proof fn lemma_key_path_ignores_freq(pre: Tree, post: Tree, c: int, i: int)
    requires
        crate::ingest::unchanged_except_freq_at(pre, post, c),
        0 <= i < pre.len(),
    ensures
        post.key_path_to(i) == pre.key_path_to(i),
    decreases i,
{
    assert(crate::chess_move::move_key(post.val(i)) == crate::chess_move::move_key(pre.val(i)));
    assert(post.parent_of(i) == pre.parent_of(i));
    match pre.parent_of(i) {
        Some(p) => {
            if 0 <= p < i {
                lemma_key_path_ignores_freq(pre, post, c, p as int);
            }
        },
        None => {
        },
    }
}

/// The root path of a non-root node extends its parent's root path by the
/// node's own move. Together with the ingestion contract — each applied
/// ply bumps exactly the counter of the node reached from the cursor by
/// that move — this pins a node's frequency to the number of times its
/// exact root path was traversed.
pub proof fn lemma_path_extends(t: Tree, c: int)
    requires
        t.wf(),
        0 <= c < t.len(),
        t.parent_of(c) is Some,
    ensures
        t.path_to(c) == t.path_to(t.parent_of(c).unwrap() as int).push(t.val(c)),
{
    assert(t.wf_node(c));
}

/// Tie-break determinism: at most one position can be the first maximal
/// child of a list.
pub proof fn lemma_first_max_unique(t: Tree, ch: Seq<NodeIndex>, j1: int, j2: int)
    requires
        t.is_first_max(ch, j1),
        t.is_first_max(ch, j2),
    ensures
        j1 == j2,
{
    if j1 < j2 {
        assert(t.freq(ch[j1] as int) < t.freq(ch[j2] as int));
        assert(t.freq(ch[j2] as int) <= t.freq(ch[j1] as int));
    }
    if j2 < j1 {
        assert(t.freq(ch[j2] as int) < t.freq(ch[j1] as int));
        assert(t.freq(ch[j1] as int) <= t.freq(ch[j2] as int));
    }
}

/// Tie-break determinism: when two children share the maximal frequency,
/// pruning keeps the earlier one — the kept position never lies past any
/// maximal position.
pub proof fn lemma_tie_break_keeps_earliest(t: Tree, ch: Seq<NodeIndex>, j: int)
    requires
        ch.len() > 0,
        0 <= j < ch.len(),
        forall|k: int| 0 <= k < ch.len() ==> t.freq(#[trigger] ch[k] as int) <= t.freq(ch[j] as int),
    ensures
        t.first_max_index(ch) <= j,
        t.freq(ch[t.first_max_index(ch)] as int) == t.freq(ch[j] as int),
{
    t.lemma_first_max_index_is_first_max(ch);
}

/// Pruning cardinality: after pruning for `color`, every opponent-side
/// node has at most one child and every `color`-side node has exactly the
/// children it had before.
pub proof fn lemma_prune_cardinality(pre: Tree, post: Tree, color: Color, i: int)
    requires
        post.pruned_from(pre, color),
        0 <= i < pre.len(),
    ensures
        pre.val(i).color != color ==> post.children_of(i).len() <= 1,
        pre.val(i).color == color ==> post.children_of(i) == pre.children_of(i),
{
}

/// The empty tree renders as its defined empty forms: no paths and no PGN
/// sections, empty outline text, and the explicit JSON `null`.
pub proof fn lemma_empty_tree_renders_empty(t: Tree, color: Color, d: int)
    requires
        t.len() == 0,
    ensures
        t.spec_paths(color, d) == Seq::<Seq<crate::chess_move::MoveV>>::empty(),
        crate::paths::spec_pgn_doc(t.spec_paths(color, d), color, d) == Seq::<char>::empty(),
        t.spec_outline() == Seq::<char>::empty(),
        t.spec_json() == "null"@,
        t.spec_json_pretty() == "null"@,
{
}

/// Emission boundary, pointwise: a repertoire-side leaf always satisfies
/// the emission rule, whatever its depth; an internal repertoire-side
/// node at or beyond the depth budget never does.
pub proof fn lemma_emit_boundary(t: Tree, color: Color, d: int, i: int)
    requires
        t.wf(),
        0 <= i < t.len(),
    ensures
        t.val(i).color == color && t.children_of(i).len() == 0 ==> t.emit(color, d, i),
        t.val(i).color == color && t.parent_of(i) is Some && t.children_of(i).len() > 0
            && t.sdepth(i) >= d ==> !t.emit(color, d, i),
{
}

/// Emission boundary, end to end: every emitted path is the root path of
/// a node that satisfies the emission rule; in particular no emitted path
/// ends at an internal repertoire-side node at or beyond the depth
/// budget.
pub proof fn lemma_paths_end_at_boundary(t: Tree, color: Color, d: int, k: int)
    requires
        t.wf(),
        0 <= k < t.spec_paths(color, d).len(),
    ensures
        exists|i: int|
            0 <= i < t.len() && #[trigger] t.emit(color, d, i) && t.spec_paths(color, d)[k]
                == t.path_to(i),
{
    assert(t.len() > 0);
    assert(t.wf_node(0));
    lemma_paths_rec_end_at_emit(t, color, d, 0, Seq::empty(), k);
}

/// Whether node `i` still hangs off the root through children edges.
/// Pruning can orphan whole subtrees without deleting their nodes, and
/// only reachable nodes take part in traversal.
pub open spec fn spec_reachable(t: Tree, i: int) -> bool
    decreases i,
{
    &&& 0 <= i < t.len()
    &&& match t.arena@[i].parent {
        None => true,
        Some(p) => 0 <= p < i && spec_reachable(t, p as int) && t.children_of(p as int).contains(
            i as NodeIndex,
        ),
    }
}

/// `a` lies on the parent chain of `i` (possibly `a == i`).
pub open spec fn spec_on_chain(t: Tree, a: int, i: int) -> bool
    decreases i,
{
    if i == a {
        true
    } else {
        match t.arena@[i].parent {
            Some(p) => 0 <= p < i && spec_on_chain(t, a, p as int),
            None => false,
        }
    }
}

/// The first step down from `a` toward `i` along the parent chain.
pub open spec fn spec_chain_next(t: Tree, a: int, i: int) -> int
    decreases i,
{
    match t.arena@[i].parent {
        Some(p) => if p == a {
            i
        } else if 0 <= p < i {
            spec_chain_next(t, a, p as int)
        } else {
            i
        },
        None => i,
    }
}

/// The root lies on every reachable node's parent chain.
proof fn lemma_reachable_on_chain_from_root(t: Tree, i: int)
    requires
        t.wf(),
        spec_reachable(t, i),
    ensures
        spec_on_chain(t, 0, i),
    decreases i,
{
    assert(t.wf_node(i));
    if i != 0 {
        let p = t.parent_of(i).unwrap();
        lemma_reachable_on_chain_from_root(t, p as int);
    }
}

/// Walking one step from `a` toward a reachable descendant `i` lands on a
/// child of `a` that still has `i` on its chain.
proof fn lemma_chain_next(t: Tree, a: int, i: int)
    requires
        t.wf(),
        spec_reachable(t, i),
        spec_on_chain(t, a, i),
        a != i,
    ensures
        ({
            let c = spec_chain_next(t, a, i);
            &&& a < c < t.len()
            &&& c <= i
            &&& t.parent_of(c) == Some(a as NodeIndex)
            &&& t.children_of(a).contains(c as NodeIndex)
            &&& spec_on_chain(t, c, i)
            &&& spec_reachable(t, c)
        }),
    decreases i,
{
    assert(t.wf_node(i));
    let p = t.parent_of(i).unwrap();
    if p as int != a {
        lemma_chain_next(t, a, p as int);
    }
}

/// Lifts membership from one child's subtree paths into the collected
/// children paths from position `j` on.
proof fn lemma_children_contains(
    t: Tree,
    color: Color,
    d: int,
    a: int,
    j: int,
    jj: int,
    prefix: Seq<crate::chess_move::MoveV>,
    x: Seq<crate::chess_move::MoveV>,
)
    requires
        t.wf(),
        0 <= a < t.len(),
        0 <= j <= jj < t.children_of(a).len(),
        t.spec_paths_rec(color, d, t.children_of(a)[jj] as int, prefix).contains(x),
    ensures
        t.spec_paths_children(color, d, a, j, prefix).contains(x),
    decreases jj - j,
{
    assert(t.wf_node(a));
    let c = t.children_of(a)[j] as int;
    let here = t.spec_paths_rec(color, d, c, prefix);
    let rest = t.spec_paths_children(color, d, a, j + 1, prefix);
    assert(t.spec_paths_children(color, d, a, j, prefix) == here + rest);
    if j == jj {
        let n = choose|n: int| 0 <= n < here.len() && here[n] == x;
        assert((here + rest)[n] == x);
    } else {
        lemma_children_contains(t, color, d, a, j + 1, jj, prefix, x);
        let n = choose|n: int| 0 <= n < rest.len() && rest[n] == x;
        assert((here + rest)[here.len() + n] == x);
    }
}

/// Within the subtree of `a`, the path of every reachable emitting node
/// on `a`'s chain is collected, provided `prefix` is the root path of
/// `a`'s parent.
proof fn lemma_emitted_in_subtree(t: Tree, color: Color, d: int, a: int, i: int)
    requires
        t.wf(),
        0 <= a < t.len(),
        spec_reachable(t, i),
        t.emit(color, d, i),
        spec_on_chain(t, a, i),
    ensures
        t.spec_paths_rec(
            color,
            d,
            a,
            match t.parent_of(a) {
                Some(p) => t.path_to(p as int),
                None => Seq::<crate::chess_move::MoveV>::empty(),
            },
        ).contains(t.path_to(i)),
    decreases i - a,
{
    assert(t.wf_node(a));
    let prefix = match t.parent_of(a) {
        Some(p) => t.path_to(p as int),
        None => Seq::<crate::chess_move::MoveV>::empty(),
    };
    let p2 = prefix.push(t.val(a));
    assert(p2 == t.path_to(a));
    let rec = t.spec_paths_rec(color, d, a, prefix);
    if a == i {
        assert(rec[0] == t.path_to(i));
        assert(rec.contains(t.path_to(i)));
    } else {
        lemma_chain_next(t, a, i);
        let c = spec_chain_next(t, a, i);
        lemma_emitted_in_subtree(t, color, d, c, i);
        assert(t.path_to(a) == p2);
        assert(t.spec_paths_rec(color, d, c, p2).contains(t.path_to(i)));
        t.lemma_len_bound();
        assert(t.children_of(a).contains(c as NodeIndex));
        let jj = choose|jj: int|
            0 <= jj < t.children_of(a).len() && t.children_of(a)[jj] == c as NodeIndex;
        assert(t.children_of(a)[jj] as int == c);
        lemma_children_contains(t, color, d, a, 0, jj, p2, t.path_to(i));
        let ch = t.spec_paths_children(color, d, a, 0, p2);
        let n = choose|n: int| 0 <= n < ch.len() && ch[n] == t.path_to(i);
        let own: Seq<Seq<crate::chess_move::MoveV>> = if t.emit(color, d, a) {
            seq![p2]
        } else {
            Seq::empty()
        };
        assert(rec == own + ch);
        assert(rec[own.len() + n] == t.path_to(i));
        assert(rec.contains(t.path_to(i)));
    }
}

/// Emission boundary, converse: the path of every reachable node that
/// satisfies the emission rule — in particular every reachable
/// repertoire-side leaf, whatever its depth — appears among the emitted
/// paths.
pub proof fn lemma_boundary_nodes_emitted(t: Tree, color: Color, d: int, i: int)
    requires
        t.wf(),
        spec_reachable(t, i),
        t.emit(color, d, i),
    ensures
        t.spec_paths(color, d).contains(t.path_to(i)),
{
    lemma_reachable_on_chain_from_root(t, i);
    assert(t.wf_node(0));
    lemma_emitted_in_subtree(t, color, d, 0, i);
}

/// Helper for [`lemma_paths_end_at_boundary`]: within the subtree of
/// `idx`, every collected path is the root path of an emitting node,
/// provided `prefix` is the root path of `idx`'s parent.
proof fn lemma_paths_rec_end_at_emit(
    t: Tree,
    color: Color,
    d: int,
    idx: int,
    prefix: Seq<crate::chess_move::MoveV>,
    k: int,
)
    requires
        t.wf(),
        0 <= idx < t.len(),
        prefix == (match t.parent_of(idx) {
            Some(p) => t.path_to(p as int),
            None => Seq::<crate::chess_move::MoveV>::empty(),
        }),
        0 <= k < t.spec_paths_rec(color, d, idx, prefix).len(),
    ensures
        exists|i: int|
            0 <= i < t.len() && #[trigger] t.emit(color, d, i) && t.spec_paths_rec(
                color,
                d,
                idx,
                prefix,
            )[k] == t.path_to(i),
    decreases t.len() - idx, 1int, 0int,
{
    assert(t.wf_node(idx));
    let p2 = prefix.push(t.val(idx));
    assert(p2 == t.path_to(idx));
    let own: Seq<Seq<crate::chess_move::MoveV>> = if t.emit(color, d, idx) {
        seq![p2]
    } else {
        Seq::empty()
    };
    if k < own.len() {
        assert(t.emit(color, d, idx) && t.spec_paths_rec(color, d, idx, prefix)[k] == t.path_to(
            idx,
        ));
    } else {
        lemma_paths_children_end_at_emit(t, color, d, idx, 0, p2, k - own.len());
    }
}

/// Helper for [`lemma_paths_end_at_boundary`]: the same, over the
/// children of `idx` from position `j` on, with `prefix` the root path of
/// `idx` itself.
proof fn lemma_paths_children_end_at_emit(
    t: Tree,
    color: Color,
    d: int,
    idx: int,
    j: int,
    prefix: Seq<crate::chess_move::MoveV>,
    k: int,
)
    requires
        t.wf(),
        0 <= idx < t.len(),
        0 <= j,
        prefix == t.path_to(idx),
        0 <= k < t.spec_paths_children(color, d, idx, j, prefix).len(),
    ensures
        exists|i: int|
            0 <= i < t.len() && #[trigger] t.emit(color, d, i) && t.spec_paths_children(
                color,
                d,
                idx,
                j,
                prefix,
            )[k] == t.path_to(i),
    decreases t.len() - idx, 0int, t.children_of(idx).len() - j,
{
    assert(t.wf_node(idx));
    if j < t.children_of(idx).len() {
        let c = t.children_of(idx)[j] as int;
        assert(idx < c < t.len());
        assert(t.parent_of(c) == Some(idx as NodeIndex));
        let here = t.spec_paths_rec(color, d, c, prefix);
        if k < here.len() {
            lemma_paths_rec_end_at_emit(t, color, d, c, prefix, k);
        } else {
            lemma_paths_children_end_at_emit(t, color, d, idx, j + 1, prefix, k - here.len());
        }
    }
}

} // verus!
