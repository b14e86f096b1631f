use vstd::prelude::*;

use crate::piece::Piece;
use crate::square::Square;

verus! {

/// A move: a piece on the board moves, or a piece in hand is dropped.
#[derive(Clone, Copy, Debug, PartialEq, Eq, Hash, Structural)]
pub enum Move {
    /// The piece on `from` moves to `to`, promoting if `promote` is set.
    Normal { from: Square, to: Square, promote: bool },
    /// `piece` is taken from its owner's hand and put on `to`.
    Drop { piece: Piece, to: Square },
}

impl Move {
    pub open spec fn to_spec(self) -> Square {
        match self {
            Move::Normal { to, .. } => to,
            Move::Drop { to, .. } => to,
        }
    }

    /// The destination square.
    pub fn to(self) -> (r: Square)
        ensures
            r == self.to_spec(),
    {
        match self {
            Move::Normal { to, .. } => to,
            Move::Drop { to, .. } => to,
        }
    }

    /// The origin square of a normal move; `None` for a drop.
    pub fn from(self) -> (r: Option<Square>)
        ensures
            r == (match self {
                Move::Normal { from, .. } => Some(from),
                Move::Drop { .. } => None,
            }),
    {
        match self {
            Move::Normal { from, .. } => Some(from),
            Move::Drop { .. } => None,
        }
    }
}

} // verus!
