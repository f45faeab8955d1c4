//! The outline renderer: a recursive pre-order dump of the tree, one line
//! per node, with `"+- "` markers and `"|  "` / `"  "` guide indentation
//! that continues the parent's indent. The root line has no indent; the
//! empty tree renders as the empty string.

use vstd::prelude::*;

use crate::chess_move::spec_move_display;
use crate::text::{chars_to_string, push_str_chars};
use crate::tree::Tree;

verus! {

impl Tree {
    /// The outline text of the subtree rooted at `idx`: its own line, then
    /// its children, the last child switching the continuation guide off.
    pub open spec fn spec_outline_rec(self, idx: int, indent: Seq<char>, is_last: bool) -> Seq<
        char,
    >
        decreases self.len() - idx, 1int, 0int,
    {
        if 0 <= idx < self.len() {
            let new_indent = indent + (if is_last {
                "  "@
            } else {
                "|  "@
            });
            indent + "+- "@ + spec_move_display(self.val(idx)) + "\n"@
                + self.spec_outline_children(idx, 0, new_indent)
        } else {
            Seq::empty()
        }
    }

    /// The outline text of the children of `idx` from position `j` on.
    pub open spec fn spec_outline_children(self, idx: int, j: int, indent: Seq<char>) -> Seq<char>
        decreases self.len() - idx, 0int, self.children_of(idx).len() - j,
    {
        if 0 <= idx < self.len() && 0 <= j < self.children_of(idx).len() {
            let c = self.children_of(idx)[j] as int;
            let last = j == self.children_of(idx).len() - 1;
            (if idx < c < self.len() {
                self.spec_outline_rec(c, indent, last)
            } else {
                Seq::empty()
            }) + self.spec_outline_children(idx, j + 1, indent)
        } else {
            Seq::empty()
        }
    }

    /// The whole outline: the root with no indent, or nothing at all.
    pub open spec fn spec_outline(self) -> Seq<char> {
        if self.len() == 0 {
            Seq::empty()
        } else {
            self.spec_outline_rec(0, Seq::empty(), true)
        }
    }

    /// Appends the outline lines of the subtree rooted at `idx` to `out`.
    pub fn fmt_rec(&self, idx: usize, out: &mut Vec<char>, indent: &Vec<char>, is_last: bool)
        requires
            self.wf(),
            idx < self.len(),
        ensures
            final(out)@ == old(out)@ + self.spec_outline_rec(idx as int, indent@, is_last),
        decreases self.len() - idx,
    {
        let ghost entry = out@;
        let mut new_indent: Vec<char> = indent.clone();
        proof {
            assert(new_indent@ =~= indent@);
        }
        if is_last {
            push_str_chars(&mut new_indent, "  ");
        } else {
            push_str_chars(&mut new_indent, "|  ");
        }
        let mut j: usize = 0;
        let ghost ind = indent@;
        let ghost nind = new_indent@;
        out.append(&mut indent.clone());
        push_str_chars(out, "+- ");
        let line = self.arena[idx].val.display();
        push_str_chars(out, line.as_str());
        push_str_chars(out, "\n");
        let ghost base = entry + ind + "+- "@ + spec_move_display(self.val(idx as int)) + "\n"@;
        proof {
            assert(out@ =~= base);
        }
        let m = self.arena[idx].children.len();
        while j < m
            invariant
                self.wf(),
                idx < self.len(),
                m == self.children_of(idx as int).len(),
                j <= m,
                nind == new_indent@,
                out@ + self.spec_outline_children(idx as int, j as int, nind) == base
                    + self.spec_outline_children(idx as int, 0, nind),
            decreases m - j,
        {
            proof {
                assert(self.wf_node(idx as int));
            }
            let c = self.arena[idx].children[j];
            let last = j == m - 1;
            let ghost before = out@;
            self.fmt_rec(c, out, &new_indent, last);
            proof {
                assert(self.children_of(idx as int)[j as int] == c);
                assert(self.spec_outline_children(idx as int, j as int, nind)
                    == self.spec_outline_rec(c as int, nind, last) + self.spec_outline_children(
                    idx as int,
                    j as int + 1,
                    nind,
                ));
                assert(out@ + self.spec_outline_children(idx as int, j as int + 1, nind) =~= before
                    + self.spec_outline_children(idx as int, j as int, nind));
            }
            j += 1;
        }
        proof {
            assert(self.spec_outline_children(idx as int, m as int, nind) =~= Seq::<char>::empty());
            assert(out@ =~= base + self.spec_outline_children(idx as int, 0, nind));
            assert(out@ =~= entry + self.spec_outline_rec(idx as int, ind, is_last));
        }
    }

    /// Renders the whole tree as outline text.
    pub fn outline(&self) -> (r: String)
        requires
            self.wf(),
        ensures
            r@ == self.spec_outline(),
    {
        match self.get_root() {
            None => {
                let out: Vec<char> = Vec::new();
                proof {
                    assert(out@ =~= Seq::<char>::empty());
                }
                chars_to_string(&out)
            },
            Some(idx) => {
                let mut out: Vec<char> = Vec::new();
                let indent: Vec<char> = Vec::new();
                self.fmt_rec(idx, &mut out, &indent, true);
                proof {
                    assert(indent@ =~= Seq::<char>::empty());
                    assert(out@ =~= self.spec_outline());
                }
                chars_to_string(&out)
            },
        }
    }
}

} // verus!
