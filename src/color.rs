use vstd::prelude::*;

verus! {

/// A player.
#[derive(Clone, Copy, Debug, PartialEq, Eq, Hash, Structural)]
pub enum Color {
    /// Black, who plays first.
    Black,
    /// White, who plays second.
    White,
}

impl Color {
    pub open spec fn spec_flip(self) -> Color {
        match self {
            Color::Black => Color::White,
            Color::White => Color::Black,
        }
    }

    /// The other player.
    pub fn flip(self) -> (r: Color)
        ensures
            r == self.spec_flip(),
    {
        match self {
            Color::Black => Color::White,
            Color::White => Color::Black,
        }
    }

    /// Both players, Black first.
    pub fn all() -> (r: [Color; 2])
        ensures
            r@ == seq![Color::Black, Color::White],
    {
        let r = [Color::Black, Color::White];
        assert(r@ =~= seq![Color::Black, Color::White]);
        r
    }
}

} // verus!
