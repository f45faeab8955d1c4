//! The two sides of a chess game.

use vstd::prelude::*;
use vstd::string::StringExecFns;

verus! {

/// Side to move: chess alternates strictly between White and Black,
/// starting with White.
#[derive(Clone, Copy, PartialEq, Eq, Structural, Debug)]
pub enum Color {
    White,
    Black,
}

impl Color {
    /// The opposing side.
    pub open spec fn spec_other(self) -> Color {
        match self {
            Color::White => Color::Black,
            Color::Black => Color::White,
        }
    }

    #[verifier::when_used_as_spec(spec_other)]
    pub fn other(self) -> (r: Color)
        ensures
            r == self.spec_other(),
    {
        match self {
            Color::White => Color::Black,
            Color::Black => Color::White,
        }
    }
}

/// The move-number separator used in front of a move token: `"."` when the
/// move was played by White, `"..."` when it was played by Black.
pub open spec fn spec_dots(color: Color) -> Seq<char> {
    match color {
        Color::White => "."@,
        Color::Black => "..."@,
    }
}

/// Renders the move-number separator for `color`.
pub fn dots(color: Color) -> (r: String)
    ensures
        r@ == spec_dots(color),
{
    match color {
        Color::White => String::from_str("."),
        Color::Black => String::from_str("..."),
    }
}

} // verus!
