//! The arena-based move tree: a flat growable store of nodes addressed by
//! stable integer handles. Nodes are only ever appended, never freed or
//! moved, so handles stay valid for the arena's lifetime. The tree
//! deduplicates converging move sequences, tracks per-node visit frequency,
//! and supports the one-shot pruning pass that collapses opponent branching.

use vstd::prelude::*;

use crate::chess_move::{move_key, Move, MoveV};
use crate::color::Color;

verus! {

/// Stable handle of a node inside the arena: its position, dense and
/// never reused.
pub type NodeIndex = usize;

/// One tree node: its own handle, its move value, the handle of its parent
/// (`None` only for the root), and its children in first-insertion order.
pub struct Node {
    pub idx: NodeIndex,
    pub val: Move,
    pub parent: Option<NodeIndex>,
    pub children: Vec<NodeIndex>,
}

impl Node {
    /// A fresh node with no parent and no children.
    pub fn new(idx: NodeIndex, val: Move) -> (r: Node)
        ensures
            r.idx == idx,
            r.val == val,
            r.parent is None,
            r.children@ == Seq::<NodeIndex>::empty(),
    {
        Node { idx, val, parent: None, children: Vec::new() }
    }
}

/// The move tree: an arena of nodes. Node 0, when it exists, is the root.
pub struct Tree {
    pub arena: Vec<Node>,
}

impl Tree {
    /// Number of nodes ever allocated.
    pub open spec fn len(self) -> nat {
        self.arena@.len()
    }

    /// The move value stored at node `i`.
    pub open spec fn val(self, i: int) -> MoveV
        recommends
            0 <= i < self.len(),
    {
        self.arena@[i].val@
    }

    /// The parent handle of node `i`.
    pub open spec fn parent_of(self, i: int) -> Option<NodeIndex>
        recommends
            0 <= i < self.len(),
    {
        self.arena@[i].parent
    }

    /// The children of node `i`, in first-insertion order.
    pub open spec fn children_of(self, i: int) -> Seq<NodeIndex>
        recommends
            0 <= i < self.len(),
    {
        self.arena@[i].children@
    }

    /// The visit frequency of node `i`.
    pub open spec fn freq(self, i: int) -> u64
        recommends
            0 <= i < self.len(),
    {
        self.val(i).frequency
    }

    /// Structural soundness of one node:
    /// - its stored handle is its arena position;
    /// - a parent comes strictly earlier in the arena (nodes are appended
    ///   after their parents), and the node's side is the opposite of its
    ///   parent's side;
    /// - only node 0 is parentless, and it belongs to White;
    /// - each child handle points past this node and back at it;
    /// - no two children carry the same `(side, token)` key.
    pub open spec fn wf_node(self, i: int) -> bool
        recommends
            0 <= i < self.len(),
    {
        &&& self.arena@[i].idx == i
        &&& match self.arena@[i].parent {
            Some(p) => 0 <= p < i && self.val(i).color == self.val(p as int).color.spec_other(),
            None => i == 0 && self.val(i).color == Color::White,
        }
        &&& forall|j: int|
            0 <= j < self.children_of(i).len() ==> i < #[trigger] self.children_of(i)[j]
                < self.len() && self.parent_of(self.children_of(i)[j] as int) == Some(
                i as NodeIndex,
            )
        &&& forall|j1: int, j2: int|
            0 <= j1 < self.children_of(i).len() && 0 <= j2 < self.children_of(i).len() && j1 != j2
                ==> move_key(self.val(#[trigger] self.children_of(i)[j1] as int)) != move_key(
                self.val(#[trigger] self.children_of(i)[j2] as int),
            )
    }

    /// Structural soundness of the whole tree.
    pub open spec fn wf(self) -> bool {
        forall|i: int| 0 <= i < self.len() ==> #[trigger] self.wf_node(i)
    }

    /// Every non-root node is listed in its parent's children. This holds
    /// throughout ingestion; the pruning pass deliberately gives it up by
    /// dropping edges (nodes are never deallocated).
    pub open spec fn complete(self) -> bool {
        forall|c: int|
            1 <= c < self.len() ==> match #[trigger] self.parent_of(c) {
                Some(p) => self.children_of(p as int).contains(c as NodeIndex),
                None => false,
            }
    }

    /// Depth of node `i`: hops along parent links up to the root; 0 for the
    /// root itself.
    pub open spec fn sdepth(self, i: int) -> nat
        recommends
            0 <= i < self.len(),
        decreases i,
    {
        match self.arena@[i].parent {
            Some(p) => if 0 <= p < i {
                1 + self.sdepth(p as int)
            } else {
                0
            },
            None => 0,
        }
    }

    /// The arena is a real vector, so its length fits a `usize` and node
    /// handles round-trip through casts.
    pub proof fn lemma_len_bound(self)
        ensures
            self.len() <= usize::MAX,
    {
        vstd::std_specs::vec::axiom_spec_len(&self.arena);
    }

    /// The move values along the path from the root to node `i`, the
    /// root's own move first and node `i`'s move last.
    pub open spec fn path_to(self, i: int) -> Seq<MoveV>
        recommends
            0 <= i < self.len(),
        decreases i,
    {
        match self.arena@[i].parent {
            Some(p) => if 0 <= p < i {
                self.path_to(p as int).push(self.val(i))
            } else {
                seq![self.val(i)]
            },
            None => seq![self.val(i)],
        }
    }

    /// The dedup keys along the path from the root to node `i`: the move
    /// sequence that reaches the node, with frequencies abstracted away.
    pub open spec fn key_path_to(self, i: int) -> Seq<(Color, Seq<char>)>
        recommends
            0 <= i < self.len(),
        decreases i,
    {
        match self.arena@[i].parent {
            Some(p) => if 0 <= p < i {
                self.key_path_to(p as int).push(move_key(self.val(i)))
            } else {
                seq![move_key(self.val(i))]
            },
            None => seq![move_key(self.val(i))],
        }
    }

    /// Whether node `p` already has a child with dedup key `k`.
    pub open spec fn spec_has_child(self, p: int, k: (Color, Seq<char>)) -> bool {
        exists|j: int|
            0 <= j < self.children_of(p).len() && move_key(
                self.val(#[trigger] self.children_of(p)[j] as int),
            ) == k
    }

    /// An empty tree.
    pub fn new() -> (r: Tree)
        ensures
            r.len() == 0,
            r.wf(),
            r.complete(),
    {
        Tree { arena: Vec::new() }
    }

    /// The root's handle, or `None` while no game has been ingested.
    pub fn get_root(&self) -> (r: Option<NodeIndex>)
        requires
            self.wf(),
        ensures
            r == (if self.len() == 0 {
                Option::<NodeIndex>::None
            } else {
                Option::<NodeIndex>::Some(0)
            }),
    {
        if self.arena.len() == 0 {
            None
        } else {
            Some(0)
        }
    }

    /// Looks for a child of `parent` holding a move equal to `val` under
    /// the dedup key (side and token; frequency does not take part).
    pub fn get_child(&self, val: &Move, parent: NodeIndex) -> (r: Option<NodeIndex>)
        requires
            self.wf(),
            parent < self.len(),
        ensures
            match r {
                Some(c) => self.children_of(parent as int).contains(c) && c < self.len()
                    && move_key(self.val(c as int)) == move_key(val@),
                None => !self.spec_has_child(parent as int, move_key(val@)),
            },
    {
        let children = &self.arena[parent].children;
        let n = children.len();
        let mut j: usize = 0;
        while j < n
            invariant
                self.wf(),
                parent < self.len(),
                n == self.children_of(parent as int).len(),
                children@ == self.children_of(parent as int),
                j <= n,
                forall|jj: int|
                    0 <= jj < j ==> move_key(
                        self.val(#[trigger] self.children_of(parent as int)[jj] as int),
                    ) != move_key(val@),
            decreases n - j,
        {
            let c = children[j];
            proof {
                assert(self.wf_node(parent as int));
            }
            if self.arena[c].val == *val {
                return Some(c);
            }
            j += 1;
        }
        None
    }

    /// Appends a fresh parentless node holding `val` and returns its handle.
    /// The caller is responsible for linking it to a parent (or for it being
    /// the root of an empty tree).
    fn insert_node(&mut self, val: Move) -> (idx: NodeIndex)
        requires
            old(self).len() < usize::MAX,
        ensures
            idx == old(self).len(),
            final(self).len() == old(self).len() + 1,
            forall|i: int| 0 <= i < old(self).len() ==> final(self).arena@[i] == old(self).arena@[i],
            final(self).arena@[idx as int].idx == idx,
            final(self).arena@[idx as int].val == val,
            final(self).arena@[idx as int].parent is None,
            final(self).children_of(idx as int) == Seq::<NodeIndex>::empty(),
    {
        let idx = self.arena.len();
        self.arena.push(Node::new(idx, val));
        idx
    }

    /// Allocates a new node holding `val`, appends its handle to `parent`'s
    /// children and links it back to `parent`. The caller must have checked
    /// that no equal child exists yet, so the dedup invariant is preserved.
    fn insert_child(&mut self, val: Move, parent: NodeIndex) -> (idx: NodeIndex)
        requires
            old(self).wf(),
            old(self).complete(),
            parent < old(self).len(),
            !old(self).spec_has_child(parent as int, move_key(val@)),
            val@.color == old(self).val(parent as int).color.spec_other(),
            old(self).len() < usize::MAX,
        ensures
            final(self).wf(),
            final(self).complete(),
            idx == old(self).len(),
            final(self).len() == old(self).len() + 1,
            forall|i: int|
                0 <= i < old(self).len() && i != parent ==> final(self).arena@[i] == old(
                    self,
                ).arena@[i],
            final(self).val(parent as int) == old(self).val(parent as int),
            final(self).parent_of(parent as int) == old(self).parent_of(parent as int),
            final(self).children_of(parent as int) == old(self).children_of(parent as int).push(
                idx,
            ),
            final(self).val(idx as int) == val@,
            final(self).parent_of(idx as int) == Some(parent),
            final(self).children_of(idx as int) == Seq::<NodeIndex>::empty(),
    {
        let idx = self.insert_node(val);
        self.arena[parent].children.push(idx);
        self.arena[idx].parent = Some(parent);
        proof {
            let new = *self;
            let prev = *old(self);
            assert forall|i: int| 0 <= i < new.len() implies #[trigger] new.wf_node(i) by {
                if i < prev.len() {
                    assert(prev.wf_node(i));
                    if i == parent {
                        assert forall|j1: int, j2: int|
                            0 <= j1 < new.children_of(i).len() && 0 <= j2 < new.children_of(
                                i,
                            ).len() && j1 != j2 implies move_key(
                            new.val(#[trigger] new.children_of(i)[j1] as int),
                        ) != move_key(new.val(#[trigger] new.children_of(i)[j2] as int)) by {
                            let oldlen = prev.children_of(i).len() as int;
                            if j1 == oldlen || j2 == oldlen {
                                let jo = if j1 == oldlen {
                                    j2
                                } else {
                                    j1
                                };
                                assert(move_key(
                                    prev.val(prev.children_of(parent as int)[jo] as int),
                                ) != move_key(val@));
                            }
                        }
                    }
                }
            }
            assert forall|c: int| 1 <= c < new.len() implies match #[trigger] new.parent_of(c) {
                Some(p) => new.children_of(p as int).contains(c as NodeIndex),
                None => false,
            } by {
                if c < prev.len() {
                    assert(match prev.parent_of(c) {
                        Some(p) => prev.children_of(p as int).contains(c as NodeIndex),
                        None => false,
                    });
                    assert(prev.wf_node(c));
                    if prev.parent_of(c) is Some {
                        let p = prev.parent_of(c).unwrap();
                        if p == parent {
                            let j = choose|j: int|
                                0 <= j < prev.children_of(p as int).len() && prev.children_of(
                                    p as int,
                                )[j] == c as NodeIndex;
                            assert(new.children_of(p as int)[j] == c as NodeIndex);
                        } else {
                            assert(new.children_of(p as int) == prev.children_of(p as int));
                        }
                    }
                } else {
                    assert(new.children_of(parent as int)[prev.children_of(parent as int).len() as int]
                        == idx as NodeIndex);
                }
            }
        }
        idx
    }

    /// Insert-or-find: returns the handle of `parent`'s child equal to
    /// `val` under the dedup key if one exists (leaving the tree untouched),
    /// and otherwise inserts `val` as a new last child of `parent`.
    pub fn get_child_or_insert(&mut self, val: Move, parent: NodeIndex) -> (idx: NodeIndex)
        requires
            old(self).wf(),
            old(self).complete(),
            parent < old(self).len(),
            val@.color == old(self).val(parent as int).color.spec_other(),
            old(self).len() < usize::MAX,
        ensures
            final(self).wf(),
            final(self).complete(),
            idx < final(self).len(),
            final(self).children_of(parent as int).contains(idx),
            final(self).parent_of(idx as int) == Some(parent),
            move_key(final(self).val(idx as int)) == move_key(val@),
            old(self).spec_has_child(parent as int, move_key(val@)) ==> *final(self) == *old(self),
            !old(self).spec_has_child(parent as int, move_key(val@)) ==> {
                &&& idx == old(self).len()
                &&& final(self).len() == old(self).len() + 1
                &&& forall|i: int|
                    0 <= i < old(self).len() && i != parent ==> final(self).arena@[i] == old(
                        self,
                    ).arena@[i]
                &&& final(self).val(parent as int) == old(self).val(parent as int)
                &&& final(self).parent_of(parent as int) == old(self).parent_of(parent as int)
                &&& final(self).children_of(parent as int) == old(self).children_of(
                    parent as int,
                ).push(idx)
                &&& final(self).val(idx as int) == val@
                &&& final(self).children_of(idx as int) == Seq::<NodeIndex>::empty()
            },
    {
        match self.get_child(&val, parent) {
            Some(idx) => {
                proof {
                    let ch = self.children_of(parent as int);
                    let j = choose|j: int| 0 <= j < ch.len() && ch[j] == idx;
                    assert(move_key(self.val(ch[j] as int)) == move_key(val@));
                    assert(self.wf_node(parent as int));
                }
                idx
            },
            None => {
                let idx = self.insert_child(val, parent);
                proof {
                    let ch = self.children_of(parent as int);
                    assert(ch[ch.len() - 1] == idx);
                }
                idx
            },
        }
    }

    /// Returns the root's handle, inserting `val` as the root of an empty
    /// tree. An existing root is returned as it stands: the first game wins
    /// the root's identity, later calls change nothing.
    pub fn get_root_or_insert(&mut self, val: Move) -> (idx: NodeIndex)
        requires
            old(self).wf(),
            old(self).complete(),
            val@.color == Color::White,
            old(self).len() < usize::MAX,
        ensures
            final(self).wf(),
            final(self).complete(),
            idx == 0,
            final(self).len() > 0,
            old(self).len() > 0 ==> *final(self) == *old(self),
            old(self).len() == 0 ==> {
                &&& final(self).len() == 1
                &&& final(self).val(0) == val@
                &&& final(self).parent_of(0) is None
                &&& final(self).children_of(0) == Seq::<NodeIndex>::empty()
            },
    {
        match self.get_root() {
            Some(idx) => idx,
            None => {
                let idx = self.insert_node(val);
                proof {
                    assert(self.wf_node(0));
                }
                idx
            },
        }
    }

    /// Adds one traversal to node `idx`'s frequency, saturating at
    /// `u64::MAX`; returns whether the increment was applied (`false`
    /// reports saturation).
    pub fn inc_frequency(&mut self, idx: NodeIndex) -> (r: bool)
        requires
            idx < old(self).len(),
        ensures
            final(self).len() == old(self).len(),
            forall|i: int|
                0 <= i < old(self).len() && i != idx ==> final(self).arena@[i] == old(
                    self,
                ).arena@[i],
            final(self).arena@[idx as int].idx == old(self).arena@[idx as int].idx,
            final(self).parent_of(idx as int) == old(self).parent_of(idx as int),
            final(self).children_of(idx as int) == old(self).children_of(idx as int),
            final(self).val(idx as int).color == old(self).val(idx as int).color,
            final(self).val(idx as int).san == old(self).val(idx as int).san,
            old(self).freq(idx as int) < u64::MAX ==> final(self).freq(idx as int) == old(
                self,
            ).freq(idx as int) + 1,
            old(self).freq(idx as int) == u64::MAX ==> final(self).freq(idx as int) == u64::MAX,
            r == (old(self).freq(idx as int) < u64::MAX),
            old(self).wf() ==> final(self).wf(),
            old(self).wf() && old(self).complete() ==> final(self).complete(),
    {
        let r = self.arena[idx].val.inc_frequency();
        proof {
            let new = *self;
            let prev = *old(self);
            if prev.wf() {
                assert forall|i: int| 0 <= i < new.len() implies #[trigger] new.wf_node(i) by {
                    assert(prev.wf_node(i));
                }
            }
            if prev.wf() && prev.complete() {
                assert forall|c: int| 1 <= c < new.len() implies match #[trigger] new.parent_of(
                    c,
                ) {
                    Some(p) => new.children_of(p as int).contains(c as NodeIndex),
                    None => false,
                } by {
                    assert(match prev.parent_of(c) {
                        Some(p) => prev.children_of(p as int).contains(c as NodeIndex),
                        None => false,
                    });
                    assert(prev.wf_node(c));
                }
            }
        }
        r
    }

    /// Hop count along parent links from node `idx` up to the root.
    pub fn depth(&self, idx: NodeIndex) -> (r: usize)
        requires
            self.wf(),
            idx < self.len(),
        ensures
            r == self.sdepth(idx as int),
    {
        let mut cur: usize = idx;
        let mut d: usize = 0;
        loop
            invariant
                self.wf(),
                cur < self.len(),
                d + cur <= idx,
                self.sdepth(idx as int) == d + self.sdepth(cur as int),
            decreases cur,
        {
            proof {
                assert(self.wf_node(cur as int));
            }
            match self.arena[cur].parent {
                Some(p) => {
                    d = d + 1;
                    cur = p;
                },
                None => {
                    return d;
                },
            }
        }
    }

    /// Whether `idx` is the root (the unique parentless node).
    pub fn is_root(&self, idx: NodeIndex) -> (r: bool)
        requires
            self.wf(),
            idx < self.len(),
        ensures
            r == (self.parent_of(idx as int) is None),
            r == (idx == 0),
    {
        proof {
            assert(self.wf_node(idx as int));
        }
        self.arena[idx].parent.is_none()
    }

    /// Whether `idx` has no children.
    pub fn is_leaf(&self, idx: NodeIndex) -> (r: bool)
        requires
            self.wf(),
            idx < self.len(),
        ensures
            r == (self.children_of(idx as int).len() == 0),
    {
        self.arena[idx].children.is_empty()
    }

    /// The position, within a children list `ch`, of the first child whose
    /// frequency is maximal: later children win only with a strictly
    /// greater frequency, so ties keep the earliest-inserted child.
    pub open spec fn first_max_index(self, ch: Seq<NodeIndex>) -> int
        recommends
            ch.len() > 0,
        decreases ch.len(),
    {
        if ch.len() <= 1 {
            0
        } else {
            let r = self.first_max_index(ch.drop_last());
            if self.freq(ch.last() as int) > self.freq(ch[r] as int) {
                ch.len() - 1
            } else {
                r
            }
        }
    }

    /// What `first_max_index` picks: a position holding a maximal
    /// frequency, with every strictly earlier position strictly below it.
    pub open spec fn is_first_max(self, ch: Seq<NodeIndex>, j: int) -> bool {
        &&& 0 <= j < ch.len()
        &&& forall|k: int| 0 <= k < ch.len() ==> self.freq(#[trigger] ch[k] as int) <= self.freq(ch[j] as int)
        &&& forall|k: int| 0 <= k < j ==> self.freq(#[trigger] ch[k] as int) < self.freq(ch[j] as int)
    }

    /// `first_max_index` indeed picks the first maximal child.
    pub proof fn lemma_first_max_index_is_first_max(self, ch: Seq<NodeIndex>)
        requires
            ch.len() > 0,
        ensures
            self.is_first_max(ch, self.first_max_index(ch)),
        decreases ch.len(),
    {
        if ch.len() > 1 {
            self.lemma_first_max_index_is_first_max(ch.drop_last());
            let r = self.first_max_index(ch.drop_last());
            assert(forall|k: int| 0 <= k < ch.len() - 1 ==> ch.drop_last()[k] == ch[k]);
        }
    }

    /// What pruning for `color` does to a tree `pre`: node count, values,
    /// parents and handles are untouched; a node on `color`'s side keeps
    /// its children; a node of the opponent keeps exactly its first
    /// maximal-frequency child, or stays childless.
    pub open spec fn pruned_from(self, pre: Tree, color: Color) -> bool {
        &&& self.len() == pre.len()
        &&& forall|i: int|
            0 <= i < pre.len() ==> {
                &&& self.arena@[i].val == pre.arena@[i].val
                &&& self.arena@[i].parent == pre.arena@[i].parent
                &&& self.arena@[i].idx == pre.arena@[i].idx
            }
        &&& forall|i: int|
            0 <= i < pre.len() && pre.val(i).color == color ==> self.children_of(i)
                == pre.children_of(i)
        &&& forall|i: int|
            0 <= i < pre.len() && pre.val(i).color != color ==> {
                let ch = pre.children_of(i);
                if ch.len() == 0 {
                    self.children_of(i).len() == 0
                } else {
                    self.children_of(i) == seq![ch[pre.first_max_index(ch)]]
                }
            }
    }

    /// Collapses opponent branching: every node whose move belongs to the
    /// opponent of `color` keeps at most one child, the first one (in
    /// insertion order) with maximal frequency; nodes on `color`'s side
    /// keep their children untouched. Values, parents and handles are left
    /// alone, so pruning removes edges, never nodes.
    pub fn prune(&mut self, color: Color)
        requires
            old(self).wf(),
        ensures
            final(self).wf(),
            final(self).pruned_from(*old(self), color),
    {
        let ghost prev = *old(self);
        let n = self.arena.len();
        let mut freqs: Vec<u64> = Vec::new();
        let mut k: usize = 0;
        while k < n
            invariant
                *self == prev,
                n == prev.len(),
                k <= n,
                freqs@.len() == k,
                forall|t: int| 0 <= t < k ==> freqs@[t] == prev.freq(t),
            decreases n - k,
        {
            freqs.push(self.arena[k].val.frequency);
            k += 1;
        }
        let mut i: usize = 0;
        while i < n
            invariant
                self.wf(),
                n == prev.len(),
                self.len() == prev.len(),
                i <= n,
                freqs@.len() == n,
                forall|t: int| 0 <= t < n ==> freqs@[t] == prev.freq(t),
                forall|t: int|
                    0 <= t < n ==> {
                        &&& self.arena@[t].val == prev.arena@[t].val
                        &&& self.arena@[t].parent == prev.arena@[t].parent
                        &&& self.arena@[t].idx == prev.arena@[t].idx
                    },
                forall|t: int| i <= t < n ==> self.children_of(t) == prev.children_of(t),
                forall|t: int|
                    0 <= t < i && prev.val(t).color == color ==> self.children_of(t)
                        == prev.children_of(t),
                forall|t: int|
                    0 <= t < i && prev.val(t).color != color ==> {
                        let ch = prev.children_of(t);
                        if ch.len() == 0 {
                            self.children_of(t).len() == 0
                        } else {
                            self.children_of(t) == seq![ch[prev.first_max_index(ch)]]
                        }
                    },
            decreases n - i,
        {
            if self.arena[i].val.color != color {
                let m = self.arena[i].children.len();
                if m > 0 {
                    proof {
                        assert(self.wf_node(i as int));
                    }
                    let ghost ch = prev.children_of(i as int);
                    let mut best: usize = 0;
                    let mut k2: usize = 1;
                    while k2 < m
                        invariant
                            self.wf(),
                            i < n,
                            n == prev.len(),
                            self.len() == prev.len(),
                            ch == self.children_of(i as int),
                            ch == prev.children_of(i as int),
                            self.wf_node(i as int),
                            m == ch.len(),
                            freqs@.len() == n,
                            forall|t: int| 0 <= t < n ==> freqs@[t] == prev.freq(t),
                            forall|t: int| 0 <= t < n ==> self.arena@[t].val == prev.arena@[t].val,
                            1 <= k2 <= m,
                            best < k2,
                            best == prev.first_max_index(ch.take(k2 as int)),
                        decreases m - k2,
                    {
                        let ck = self.arena[i].children[k2];
                        let cb = self.arena[i].children[best];
                        proof {
                            assert(ch.take(k2 as int + 1).drop_last() =~= ch.take(k2 as int));
                            assert(ch.take(k2 as int + 1).last() == ch[k2 as int]);
                            assert(ch.take(k2 as int + 1)[best as int] == ch[best as int]);
                        }
                        if freqs[ck] > freqs[cb] {
                            best = k2;
                        }
                        k2 += 1;
                    }
                    proof {
                        assert(ch.take(m as int) =~= ch);
                    }
                    let keep = self.arena[i].children[best];
                    let mut newc: Vec<NodeIndex> = Vec::new();
                    newc.push(keep);
                    let ghost before = *self;
                    self.arena[i].children = newc;
                    proof {
                        assert(self.children_of(i as int) =~= seq![ch[prev.first_max_index(ch)]]);
                        assert forall|t: int| 0 <= t < self.len() implies #[trigger] self.wf_node(
                            t,
                        ) by {
                            assert(before.wf_node(t));
                            if t != i {
                                assert(self.children_of(t) == before.children_of(t));
                            }
                        }
                    }
                }
            }
            i += 1;
        }
    }

    /// Whether `idx` is neither the root nor a leaf.
    pub fn is_internal(&self, idx: NodeIndex) -> (r: bool)
        requires
            self.wf(),
            idx < self.len(),
        ensures
            r == (self.parent_of(idx as int) is Some && self.children_of(idx as int).len() > 0),
    {
        !self.is_root(idx) && !self.is_leaf(idx)
    }
}

} // verus!
