//! The ingestion state machine: consumes one game at a time as a stream of
//! per-ply move tokens and grows the tree. For each non-skipped move it
//! computes the side to move (alternating from White), finds or inserts the
//! node under the current cursor, increments that node's frequency, and
//! advances the cursor. Skipping decisions (an opening filter mismatch or
//! the ply budget) latch until the next game begins.
//!
//! Reading games out of their container format is not this type's concern:
//! whatever drives it hands over one display-ready token per ply.

use vstd::prelude::*;

use crate::chess_move::{move_key, Move};
use crate::color::Color;
use crate::text::str_eq;
use crate::tree::{NodeIndex, Tree};

verus! {

/// A saturating bump of a visit counter.
pub open spec fn spec_bump(f: u64) -> u64 {
    if f < u64::MAX {
        (f + 1) as u64
    } else {
        u64::MAX
    }
}

/// `post` is `pre` with exactly node `c`'s frequency bumped: everything
/// else, including node `c`'s identity, links and move key, is untouched.
pub open spec fn unchanged_except_freq_at(pre: Tree, post: Tree, c: int) -> bool {
    &&& post.len() == pre.len()
    &&& forall|i: int| 0 <= i < pre.len() && i != c ==> post.arena@[i] == pre.arena@[i]
    &&& post.arena@[c].idx == pre.arena@[c].idx
    &&& post.parent_of(c) == pre.parent_of(c)
    &&& post.children_of(c) == pre.children_of(c)
    &&& post.val(c).color == pre.val(c).color
    &&& post.val(c).san == pre.val(c).san
    &&& post.freq(c) == spec_bump(pre.freq(c))
}

/// `post` is `pre` with a fresh node `c` holding `key` appended as the
/// last child of `p`, already counted once.
pub open spec fn inserted_once(pre: Tree, post: Tree, p: int, key: (Color, Seq<char>), c: int) -> bool {
    &&& c == pre.len()
    &&& post.len() == pre.len() + 1
    &&& forall|i: int| 0 <= i < pre.len() && i != p ==> post.arena@[i] == pre.arena@[i]
    &&& post.val(p) == pre.val(p)
    &&& post.parent_of(p) == pre.parent_of(p)
    &&& post.children_of(p) == pre.children_of(p).push(c as NodeIndex)
    &&& move_key(post.val(c)) == key
    &&& post.freq(c) == 1
    &&& post.parent_of(c) == Some(p as NodeIndex)
    &&& post.children_of(c) == Seq::<NodeIndex>::empty()
}

/// Drives insertion for one game after another. The tree is handed to
/// each call rather than owned, so a single visitor can serve a whole
/// stream of games against one tree.
pub struct GameVisitor {
    /// The side about to move; games start with White.
    pub turn: Color,
    /// How many plies of the current game were applied.
    pub plies: usize,
    /// Latched once the rest of the current game is to be ignored.
    pub skip: bool,
    /// The side the repertoire is built for.
    pub repertoire_color: Color,
    /// The move budget: ingestion cuts each game off after
    /// `2 * max_moves - 1` plies (for a White repertoire) or
    /// `2 * max_moves` plies (for Black).
    pub max_moves: usize,
    /// The opening filter: a game must begin with exactly these canonical
    /// tokens or it is skipped from the first mismatch on.
    pub starting_moves: Vec<String>,
    /// The node reached by the moves applied so far, if any.
    pub cursor: Option<NodeIndex>,
}

impl GameVisitor {
    /// The configuration bounds under which the ply arithmetic cannot
    /// overflow: a positive move budget that `2 * max_moves` keeps inside
    /// `usize`.
    pub open spec fn config_ok(self) -> bool {
        1 <= self.max_moves && 2 * self.max_moves <= usize::MAX
    }

    /// The ply cutoff: one ply less than two per move when the repertoire
    /// side is White (whose last prepared reply needs no answer).
    pub open spec fn spec_max_plies(self) -> int {
        2 * self.max_moves - (if self.repertoire_color is White {
            1int
        } else {
            0int
        })
    }

    /// Whether the next token breaks the opening filter at the current ply.
    pub open spec fn spec_undesired(self, token: Seq<char>) -> bool {
        self.plies < self.starting_moves.len() && self.starting_moves.deep_view()[self.plies as int]
            != token
    }

    /// The visitor's soundness against the tree it grows: the cursor, when
    /// set, names a node whose move was made by the side before `turn`.
    pub open spec fn inv(self, t: Tree) -> bool {
        &&& t.wf()
        &&& t.complete()
        &&& self.config_ok()
        &&& self.plies <= self.spec_max_plies()
        &&& match self.cursor {
            None => self.turn == Color::White,
            Some(c) => c < t.len() && self.turn == t.val(c as int).color.spec_other(),
        }
    }

    /// A visitor ready for the first game.
    pub fn new(starting_moves: Vec<String>, repertoire_color: Color, max_moves: usize) -> (r:
        GameVisitor)
        requires
            1 <= max_moves,
            2 * max_moves <= usize::MAX,
        ensures
            r.turn == Color::White,
            r.plies == 0,
            !r.skip,
            r.cursor is None,
            r.repertoire_color == repertoire_color,
            r.max_moves == max_moves,
            r.starting_moves == starting_moves,
            r.config_ok(),
    {
        GameVisitor {
            turn: Color::White,
            plies: 0,
            skip: false,
            repertoire_color,
            max_moves,
            starting_moves,
            cursor: None,
        }
    }

    /// Rewinds the per-game state; the configuration fields stay.
    fn reset(&mut self)
        ensures
            final(self).turn == Color::White,
            final(self).plies == 0,
            !final(self).skip,
            final(self).cursor is None,
            final(self).repertoire_color == old(self).repertoire_color,
            final(self).max_moves == old(self).max_moves,
            final(self).starting_moves == old(self).starting_moves,
    {
        self.turn = Color::White;
        self.plies = 0;
        self.skip = false;
        self.cursor = None;
    }

    /// Starts the next game: the per-game state is rewound, the tree is
    /// untouched.
    pub fn begin_game(&mut self)
        ensures
            final(self).turn == Color::White,
            final(self).plies == 0,
            !final(self).skip,
            final(self).cursor is None,
            final(self).repertoire_color == old(self).repertoire_color,
            final(self).max_moves == old(self).max_moves,
            final(self).starting_moves == old(self).starting_moves,
    {
        self.reset();
    }

    /// The ply cutoff for the configured repertoire side.
    fn max_plies(&self) -> (r: usize)
        requires
            self.config_ok(),
        ensures
            r as int == self.spec_max_plies(),
    {
        let offset: usize = match self.repertoire_color {
            Color::White => 1,
            Color::Black => 0,
        };
        self.max_moves * 2 - offset
    }

    /// Consumes one ply of the current game. A skipped game stays
    /// untouched; a filter mismatch or the ply cutoff latches the skip;
    /// otherwise the move is found or inserted under the cursor, its node
    /// counted once more, and the cursor, ply count and turn advance.
    /// The return value is `false` exactly when the applied move's
    /// frequency counter was already saturated.
    pub fn san(&mut self, tree: &mut Tree, token: String) -> (r: bool)
        requires
            old(self).inv(*old(tree)),
            old(tree).len() < usize::MAX,
        ensures
            final(self).inv(*final(tree)),
            final(self).repertoire_color == old(self).repertoire_color,
            final(self).max_moves == old(self).max_moves,
            final(self).starting_moves == old(self).starting_moves,
            old(self).skip ==> *final(self) == *old(self) && *final(tree) == *old(tree) && r,
            !old(self).skip && (old(self).spec_undesired(token@) || old(self).plies == old(
                self,
            ).spec_max_plies()) ==> {
                &&& *final(tree) == *old(tree)
                &&& final(self).skip
                &&& final(self).turn == old(self).turn
                &&& final(self).plies == old(self).plies
                &&& final(self).cursor == old(self).cursor
                &&& r
            },
            !old(self).skip && !old(self).spec_undesired(token@) && old(self).plies != old(
                self,
            ).spec_max_plies() ==> {
                &&& !final(self).skip
                &&& final(self).plies == old(self).plies + 1
                &&& final(self).turn == old(self).turn.spec_other()
                &&& final(self).cursor is Some
                &&& {
                    let c = final(self).cursor.unwrap() as int;
                    match old(self).cursor {
                        None => {
                            &&& c == 0
                            &&& if old(tree).len() == 0 {
                                &&& final(tree).len() == 1
                                &&& move_key(final(tree).val(0)) == (Color::White, token@)
                                &&& final(tree).freq(0) == 1
                                &&& final(tree).parent_of(0) is None
                                &&& final(tree).children_of(0) == Seq::<NodeIndex>::empty()
                                &&& r
                            } else {
                                &&& unchanged_except_freq_at(*old(tree), *final(tree), 0)
                                &&& r == (old(tree).freq(0) < u64::MAX)
                            }
                        },
                        Some(p) => {
                            if old(tree).spec_has_child(p as int, (old(self).turn, token@)) {
                                &&& unchanged_except_freq_at(*old(tree), *final(tree), c)
                                &&& old(tree).children_of(p as int).contains(c as NodeIndex)
                                &&& final(tree).parent_of(c) == Some(p)
                                &&& move_key(old(tree).val(c)) == (old(self).turn, token@)
                                &&& r == (old(tree).freq(c) < u64::MAX)
                            } else {
                                &&& inserted_once(
                                    *old(tree),
                                    *final(tree),
                                    p as int,
                                    (old(self).turn, token@),
                                    c,
                                )
                                &&& r
                            }
                        },
                    }
                }
            },
    {
        if self.skip {
            return true;
        }
        let undesired = self.plies < self.starting_moves.len() && !str_eq(
            self.starting_moves[self.plies].as_str(),
            token.as_str(),
        );
        proof {
            assert(self.starting_moves.deep_view().len() == self.starting_moves@.len());
            if self.plies < self.starting_moves.len() {
                assert(self.starting_moves.deep_view()[self.plies as int]
                    == self.starting_moves@[self.plies as int]@);
            }
        }
        let cutoff = self.plies == self.max_plies();
        if undesired || cutoff {
            self.skip = true;
            return true;
        }
        let val = Move::new(self.turn, token);
        let new_cursor = match self.cursor {
            Some(idx) => tree.get_child_or_insert(val, idx),
            None => tree.get_root_or_insert(val),
        };
        let counted = tree.inc_frequency(new_cursor);
        proof {
            let pre = *old(tree);
            if old(self).cursor is None && pre.len() > 0 {
                assert(pre.wf_node(0));
            }
        }
        self.cursor = Some(new_cursor);
        self.plies = self.plies + 1;
        self.turn = self.turn.other();
        counted
    }
}

} // verus!
