//! A single half-move as stored in the repertoire tree: the side that played
//! it, its display-ready SAN token, and how often the ingested games reached
//! it along this exact line.

use vstd::prelude::*;

use crate::color::{spec_dots, Color};

verus! {

/// Mathematical value of a [`Move`]: the same three components with the
/// token abstracted to its character sequence.
pub ghost struct MoveV {
    pub color: Color,
    pub san: Seq<char>,
    pub frequency: u64,
}

/// The outline display form of a move: its token, then its visit count in
/// parentheses.
pub open spec fn spec_move_display(m: MoveV) -> Seq<char> {
    m.san + " ("@ + crate::text::spec_dec(m.frequency as int) + ")"@
}

/// The identity of a move for deduplication: side to move and token.
/// Frequency is deliberately excluded, so that re-inserting an already
/// known move finds the existing node instead of creating a sibling.
pub open spec fn move_key(m: MoveV) -> (Color, Seq<char>) {
    (m.color, m.san)
}

/// One half-move: who played it, its SAN token, and its visit count.
pub struct Move {
    pub color: Color,
    pub san_plus: String,
    pub frequency: u64,
}

impl View for Move {
    type V = MoveV;

    open spec fn view(&self) -> MoveV {
        MoveV { color: self.color, san: self.san_plus@, frequency: self.frequency }
    }
}

impl DeepView for Move {
    type V = MoveV;

    open spec fn deep_view(&self) -> MoveV {
        self.view()
    }
}

impl Move {
    /// A freshly seen move starts with frequency 0; ingestion increments it
    /// separately for every traversal, including the first.
    pub fn new(color: Color, san_plus: String) -> (r: Move)
        ensures
            r@ == (MoveV { color, san: san_plus@, frequency: 0 }),
    {
        Move { color, san_plus, frequency: 0 }
    }

    /// How often the ingested games traversed this exact move along this
    /// exact line.
    pub fn frequency(&self) -> (r: u64)
        ensures
            r == self@.frequency,
    {
        self.frequency
    }

    /// Adds one traversal to the visit count. The count saturates at
    /// `u64::MAX` instead of wrapping; the return value reports whether the
    /// increment was applied (`false` means the counter was already
    /// saturated).
    pub fn inc_frequency(&mut self) -> (r: bool)
        ensures
            old(self)@.frequency < u64::MAX ==> final(self)@.frequency == old(self)@.frequency
                + 1,
            old(self)@.frequency == u64::MAX ==> final(self)@.frequency == u64::MAX,
            r == (old(self)@.frequency < u64::MAX),
            final(self)@.color == old(self)@.color,
            final(self)@.san == old(self)@.san,
    {
        if self.frequency < u64::MAX {
            self.frequency = self.frequency + 1;
            true
        } else {
            false
        }
    }

    /// Renders the move for the outline: the token followed by the visit
    /// count in parentheses.
    pub fn display(&self) -> (r: String)
        ensures
            r@ == spec_move_display(self@),
    {
        let mut out: Vec<char> = Vec::new();
        crate::text::push_str_chars(&mut out, self.san_plus.as_str());
        crate::text::push_str_chars(&mut out, " (");
        crate::text::push_u64(&mut out, self.frequency);
        crate::text::push_str_chars(&mut out, ")");
        proof {
            assert(out@ =~= spec_move_display(self@));
        }
        crate::text::chars_to_string(&out)
    }

    /// The move-number separator that precedes this move's token.
    pub fn dots(&self) -> (r: String)
        ensures
            r@ == spec_dots(self@.color),
    {
        crate::color::dots(self.color)
    }
}

impl Clone for Move {
    fn clone(&self) -> (r: Self)
        ensures
            r == *self,
    {
        Move { color: self.color, san_plus: self.san_plus.clone(), frequency: self.frequency }
    }
}

impl PartialEq for Move {
    /// Equality over `(color, token)` only: frequency never takes part in
    /// deduplication.
    fn eq(&self, other: &Self) -> (r: bool) {
        self.color == other.color && self.san_plus == other.san_plus
    }
}

impl vstd::std_specs::cmp::PartialEqSpecImpl for Move {
    open spec fn obeys_eq_spec() -> bool {
        true
    }

    open spec fn eq_spec(&self, other: &Self) -> bool {
        move_key(self@) == move_key(other@)
    }
}

} // verus!
