//! Path enumeration and the numbered-move (PGN-style) renderer.
//!
//! The enumerator walks the tree depth-first in insertion order and emits
//! every root-to-boundary path that belongs to the repertoire side: a path
//! ends at a repertoire-side leaf (always), or at a repertoire-side internal
//! node while its depth is still below the configured budget.

use vstd::prelude::*;

use crate::chess_move::{Move, MoveV};
use crate::color::{spec_dots, Color};
use crate::text::{chars_to_string, push_str_chars, push_u64, spec_dec};
use crate::tree::Tree;

verus! {

impl Tree {
    /// The emission rule: node `i` ends a path iff its move belongs to
    /// `color` and it is a leaf, or an internal node of depth below `d`.
    pub open spec fn emit(self, color: Color, d: int, i: int) -> bool {
        &&& self.val(i).color == color
        &&& (self.children_of(i).len() == 0 || (self.parent_of(i) is Some && self.children_of(
            i,
        ).len() > 0 && self.sdepth(i) < d))
    }

    /// The paths contributed by the subtree rooted at `idx`, each extending
    /// `prefix`: the path ending at `idx` itself when the emission rule
    /// holds, then the contributions of its children in insertion order.
    pub open spec fn spec_paths_rec(self, color: Color, d: int, idx: int, prefix: Seq<MoveV>) -> Seq<
        Seq<MoveV>,
    >
        decreases self.len() - idx, 1int, 0int,
    {
        if 0 <= idx < self.len() {
            let p2 = prefix.push(self.val(idx));
            let own: Seq<Seq<MoveV>> = if self.emit(color, d, idx) {
                seq![p2]
            } else {
                Seq::empty()
            };
            own + self.spec_paths_children(color, d, idx, 0, p2)
        } else {
            Seq::empty()
        }
    }

    /// The paths contributed by the children of `idx` from position `j` on.
    pub open spec fn spec_paths_children(
        self,
        color: Color,
        d: int,
        idx: int,
        j: int,
        prefix: Seq<MoveV>,
    ) -> Seq<Seq<MoveV>>
        decreases self.len() - idx, 0int, self.children_of(idx).len() - j,
    {
        if 0 <= idx < self.len() && 0 <= j < self.children_of(idx).len() {
            let c = self.children_of(idx)[j] as int;
            let here: Seq<Seq<MoveV>> = if idx < c < self.len() {
                self.spec_paths_rec(color, d, c, prefix)
            } else {
                Seq::empty()
            };
            here + self.spec_paths_children(color, d, idx, j + 1, prefix)
        } else {
            Seq::empty()
        }
    }

    /// All emitted paths of the tree, in pre-order, left to right.
    pub open spec fn spec_paths(self, color: Color, d: int) -> Seq<Seq<MoveV>> {
        if self.len() == 0 {
            Seq::empty()
        } else {
            self.spec_paths_rec(color, d, 0, Seq::empty())
        }
    }

    /// Enumerates every root-to-boundary path of the repertoire side under
    /// the depth budget `inode_max_depth`, in pre-order matching the
    /// children's insertion order. An empty tree yields no paths.
    pub fn paths(&self, color: Color, inode_max_depth: usize) -> (r: Vec<Vec<Move>>)
        requires
            self.wf(),
        ensures
            r.deep_view() == self.spec_paths(color, inode_max_depth as int),
    {
        match self.get_root() {
            None => {
                let r: Vec<Vec<Move>> = Vec::new();
                proof {
                    assert(r.deep_view() =~= Seq::<Seq<MoveV>>::empty());
                }
                r
            },
            Some(idx) => {
                let prefix: Vec<Move> = Vec::new();
                let r = self.paths_rec(color, inode_max_depth, idx, &prefix);
                proof {
                    assert(prefix.deep_view() =~= Seq::<MoveV>::empty());
                }
                r
            },
        }
    }

    /// One step of the depth-first descent: collects the paths of the
    /// subtree rooted at `idx`, each extending `prefix`.
    fn paths_rec(&self, color: Color, inode_max_depth: usize, idx: usize, prefix: &Vec<Move>) -> (r:
        Vec<Vec<Move>>)
        requires
            self.wf(),
            idx < self.len(),
        ensures
            r.deep_view() == self.spec_paths_rec(
                color,
                inode_max_depth as int,
                idx as int,
                prefix.deep_view(),
            ),
        decreases self.len() - idx,
    {
        let ghost d = inode_max_depth as int;
        let mut new_prefix: Vec<Move> = prefix.clone();
        proof {
            assert(new_prefix.deep_view() =~= prefix.deep_view());
        }
        new_prefix.push(self.arena[idx].val.clone());
        let ghost p2 = prefix.deep_view().push(self.val(idx as int));
        proof {
            assert(new_prefix.deep_view() =~= p2);
        }
        let mut result: Vec<Vec<Move>> = Vec::new();
        let node_color = self.arena[idx].val.color;
        let emitted = node_color == color && (self.is_leaf(idx) || (self.is_internal(idx)
            && self.depth(idx) < inode_max_depth));
        proof {
            assert(emitted == self.emit(color, d, idx as int));
        }
        if emitted {
            result.push(new_prefix.clone());
        }
        proof {
            if emitted {
                assert(result.deep_view() =~= seq![p2]);
            } else {
                assert(result.deep_view() =~= Seq::<Seq<MoveV>>::empty());
            }
        }
        let ghost own: Seq<Seq<MoveV>> = if self.emit(color, d, idx as int) {
            seq![p2]
        } else {
            Seq::empty()
        };
        let m = self.arena[idx].children.len();
        let mut j: usize = 0;
        while j < m
            invariant
                self.wf(),
                idx < self.len(),
                d == inode_max_depth as int,
                m == self.children_of(idx as int).len(),
                j <= m,
                new_prefix.deep_view() == p2,
                own + self.spec_paths_children(color, d, idx as int, 0, p2) == self.spec_paths_rec(
                    color,
                    d,
                    idx as int,
                    prefix.deep_view(),
                ),
                result.deep_view() + self.spec_paths_children(color, d, idx as int, j as int, p2)
                    == self.spec_paths_rec(color, d, idx as int, prefix.deep_view()),
            decreases m - j,
        {
            proof {
                assert(self.wf_node(idx as int));
            }
            let c = self.arena[idx].children[j];
            let mut sub = self.paths_rec(color, inode_max_depth, c, &new_prefix);
            let ghost before = result.deep_view();
            let ghost sub_view = sub.deep_view();
            result.append(&mut sub);
            proof {
                assert(result.deep_view() =~= before + sub_view);
                assert(self.children_of(idx as int)[j as int] == c);
                assert(idx < c < self.len());
                assert(sub_view == self.spec_paths_rec(color, d, c as int, p2));
                assert(self.spec_paths_children(color, d, idx as int, j as int, p2) == sub_view
                    + self.spec_paths_children(color, d, idx as int, j as int + 1, p2));
                assert(result.deep_view() + self.spec_paths_children(
                    color,
                    d,
                    idx as int,
                    j as int + 1,
                    p2,
                ) =~= (before + sub_view) + self.spec_paths_children(
                    color,
                    d,
                    idx as int,
                    j as int + 1,
                    p2,
                ));
                assert((before + sub_view) + self.spec_paths_children(
                    color,
                    d,
                    idx as int,
                    j as int + 1,
                    p2,
                ) =~= before + (sub_view + self.spec_paths_children(
                    color,
                    d,
                    idx as int,
                    j as int + 1,
                    p2,
                )));
            }
            j += 1;
        }
        proof {
            assert(self.spec_paths_children(color, d, idx as int, m as int, p2)
                =~= Seq::<Seq<MoveV>>::empty());
            assert(result.deep_view() + Seq::<Seq<MoveV>>::empty() =~= result.deep_view());
        }
        result
    }
}

/// The index (within the scanned window) of the last move in `path` that
/// belongs to the opponent of `color`, scanning only the first `w` entries.
pub open spec fn last_opponent_in(path: Seq<MoveV>, color: Color, w: int) -> Option<int>
    decreases w,
{
    if w <= 0 || w > path.len() {
        None
    } else if path[w - 1].color != color {
        Some(w - 1)
    } else {
        last_opponent_in(path, color, w - 1)
    }
}

/// How many leading entries of `path` the title scan may look at: one less
/// than the depth budget, clamped to the path length (a budget of zero
/// scans nothing).
pub open spec fn title_window(path: Seq<MoveV>, d: int) -> int {
    let w = if d >= 1 {
        d - 1
    } else {
        0
    };
    if w <= path.len() {
        w
    } else {
        path.len() as int
    }
}

/// The placeholder title used when no opponent move falls inside the
/// scanned window.
pub open spec fn spec_fallback_title() -> Seq<char> {
    "Variation"@
}

/// The synthesized title of one path: the last opponent move inside the
/// window, rendered as `"{move number}{dots}{token}"`, or the placeholder.
pub open spec fn spec_title(path: Seq<MoveV>, color: Color, d: int) -> Seq<char> {
    match last_opponent_in(path, color, title_window(path, d)) {
        Some(i) => spec_dec(i / 2 + 1) + spec_dots(path[i].color) + path[i].san,
        None => spec_fallback_title(),
    }
}

/// Synthesizes the section title for one emitted path: scans the first
/// `inode_max_depth - 1` entries for the last move of `color`'s opponent
/// and renders it with its move number and dots; without one, the
/// placeholder `"Variation"` is used.
pub fn title_from_path(path: &Vec<Move>, color: Color, inode_max_depth: usize) -> (r: String)
    ensures
        r@ == spec_title(path.deep_view(), color, inode_max_depth as int),
{
    let n = path.len();
    let mut w: usize = if inode_max_depth >= 1 {
        inode_max_depth - 1
    } else {
        0
    };
    if w > n {
        w = n;
    }
    proof {
        assert(w as int == title_window(path.deep_view(), inode_max_depth as int));
    }
    let mut i: usize = w;
    while i > 0
        invariant
            w <= n,
            n == path@.len(),
            i <= w,
            path.deep_view().len() == n,
            w as int == title_window(path.deep_view(), inode_max_depth as int),
            last_opponent_in(path.deep_view(), color, w as int) == last_opponent_in(
                path.deep_view(),
                color,
                i as int,
            ),
        decreases i,
    {
        proof {
            assert(path.deep_view()[i - 1] == path@[i - 1]@);
        }
        if path[i - 1].color != color {
            let mv = &path[i - 1];
            let mut out: Vec<char> = Vec::new();
            push_u64(&mut out, ((i - 1) / 2 + 1) as u64);
            let dots = mv.dots();
            push_str_chars(&mut out, dots.as_str());
            push_str_chars(&mut out, mv.san_plus.as_str());
            proof {
                let pv = path.deep_view();
                assert(last_opponent_in(pv, color, i as int) == Some(i - 1 as int));
                assert(out@ =~= spec_dec((i - 1) as int / 2 + 1) + spec_dots(pv[i - 1].color)
                    + pv[i - 1].san);
                assert(out@ =~= spec_title(pv, color, inode_max_depth as int));
            }
            return chars_to_string(&out);
        }
        proof {
            assert(last_opponent_in(path.deep_view(), color, i as int) == last_opponent_in(
                path.deep_view(),
                color,
                i - 1 as int,
            ));
        }
        i -= 1;
    }
    let mut out: Vec<char> = Vec::new();
    push_str_chars(&mut out, "Variation");
    proof {
        assert(out@ =~= spec_fallback_title());
    }
    chars_to_string(&out)
}

/// The rendered text of move pair `k` (0-based) of a path: the move
/// number, a dot, White's token, and Black's token when the path reaches
/// it.
pub open spec fn spec_group(path: Seq<MoveV>, k: int) -> Seq<char>
    recommends
        0 <= k,
        2 * k < path.len(),
{
    spec_dec(k + 1) + ". "@ + path[2 * k].san + (if 2 * k + 1 < path.len() {
        " "@ + path[2 * k + 1].san
    } else {
        Seq::empty()
    })
}

/// The first `k` move-pair groups of a path, joined by single spaces.
pub open spec fn spec_pgn_upto(path: Seq<MoveV>, k: int) -> Seq<char>
    decreases k,
{
    if k <= 0 {
        Seq::empty()
    } else if k == 1 {
        spec_group(path, 0)
    } else {
        spec_pgn_upto(path, k - 1) + " "@ + spec_group(path, k - 1)
    }
}

/// Number of move-pair groups of a path: two plies per group, with a
/// dangling last ply forming a group of its own.
pub open spec fn spec_group_count(path: Seq<MoveV>) -> int {
    (path.len() as int + 1) / 2
}

/// The numbered-move text of a whole path.
pub open spec fn spec_pgn_line(path: Seq<MoveV>) -> Seq<char> {
    spec_pgn_upto(path, spec_group_count(path))
}

/// Renders a path as numbered-move text: plies grouped in pairs,
/// `"{n}. {white} {black}"`, groups joined by spaces; an odd final ply
/// renders alone after its number.
pub fn pgn_from_path(path: &Vec<Move>) -> (r: String)
    ensures
        r@ == spec_pgn_line(path.deep_view()),
{
    let n = path.len();
    let ghost pv = path.deep_view();
    let groups = n / 2 + n % 2;
    proof {
        assert(groups as int == spec_group_count(pv));
    }
    let mut out: Vec<char> = Vec::new();
    let mut k: usize = 0;
    while k < groups
        invariant
            n == path@.len(),
            pv == path.deep_view(),
            pv.len() == n,
            groups == n / 2 + n % 2,
            groups as int == spec_group_count(pv),
            k <= groups,
            out@ == spec_pgn_upto(pv, k as int),
        decreases groups - k,
    {
        proof {
            assert(2 * k < n);
        }
        if k > 0 {
            push_str_chars(&mut out, " ");
        }
        push_u64(&mut out, (k + 1) as u64);
        push_str_chars(&mut out, ". ");
        proof {
            assert(pv[2 * (k as int)] == path@[2 * (k as int)]@);
        }
        push_str_chars(&mut out, path[2 * k].san_plus.as_str());
        if 2 * k + 1 < n {
            push_str_chars(&mut out, " ");
            proof {
                assert(pv[2 * (k as int) + 1] == path@[2 * (k as int) + 1]@);
            }
            push_str_chars(&mut out, path[2 * k + 1].san_plus.as_str());
        }
        proof {
            assert(out@ =~= spec_pgn_upto(pv, k as int + 1));
        }
        k += 1;
    }
    chars_to_string(&out)
}

/// One PGN section: an `[Event "<title>"]` header line, the numbered-move
/// text, and a closing newline.
pub open spec fn spec_section(path: Seq<MoveV>, color: Color, d: int) -> Seq<char> {
    "[Event \""@ + spec_title(path, color, d) + "\"]\n"@ + spec_pgn_line(path) + "\n"@
}

/// The first `k` sections of the document, joined by blank lines.
pub open spec fn spec_pgn_doc_upto(paths: Seq<Seq<MoveV>>, color: Color, d: int, k: int) -> Seq<
    char,
>
    decreases k,
{
    if k <= 0 {
        Seq::empty()
    } else if k == 1 {
        spec_section(paths[0], color, d)
    } else {
        spec_pgn_doc_upto(paths, color, d, k - 1) + "\n"@ + spec_section(paths[k - 1], color, d)
    }
}

/// The whole PGN document for a set of emitted paths.
pub open spec fn spec_pgn_doc(paths: Seq<Seq<MoveV>>, color: Color, d: int) -> Seq<char> {
    spec_pgn_doc_upto(paths, color, d, paths.len() as int)
}

impl Tree {
    /// Renders every emitted path as a titled PGN section; sections are
    /// separated by blank lines. An empty tree renders as the empty string.
    pub fn pgn(&self, color: Color, inode_max_depth: usize) -> (r: String)
        requires
            self.wf(),
        ensures
            r@ == spec_pgn_doc(
                self.spec_paths(color, inode_max_depth as int),
                color,
                inode_max_depth as int,
            ),
    {
        let ghost d = inode_max_depth as int;
        let all = self.paths(color, inode_max_depth);
        let ghost pv = self.spec_paths(color, d);
        let n = all.len();
        let mut out: Vec<char> = Vec::new();
        let mut k: usize = 0;
        while k < n
            invariant
                n == all@.len(),
                d == inode_max_depth as int,
                pv == all.deep_view(),
                pv == self.spec_paths(color, d),
                pv.len() == n,
                k <= n,
                out@ == spec_pgn_doc_upto(pv, color, d, k as int),
            decreases n - k,
        {
            if k > 0 {
                push_str_chars(&mut out, "\n");
            }
            proof {
                assert(pv[k as int] == all@[k as int].deep_view());
            }
            push_str_chars(&mut out, "[Event \"");
            let title = title_from_path(&all[k], color, inode_max_depth);
            push_str_chars(&mut out, title.as_str());
            push_str_chars(&mut out, "\"]\n");
            let line = pgn_from_path(&all[k]);
            push_str_chars(&mut out, line.as_str());
            push_str_chars(&mut out, "\n");
            proof {
                assert(out@ =~= spec_pgn_doc_upto(pv, color, d, k as int + 1));
            }
            k += 1;
        }
        chars_to_string(&out)
    }
}

} // verus!
