use vstd::prelude::*;

use crate::color::Color;
use crate::piece_kind::PieceKind;

verus! {

/// A piece and the player who owns it.
#[derive(Clone, Copy, Debug, PartialEq, Eq, Hash, Structural)]
pub struct Piece {
    pub kind: PieceKind,
    pub color: Color,
}

impl Piece {
    /// Creates a piece of `piece_kind` owned by `color`.
    pub fn new(piece_kind: PieceKind, color: Color) -> (r: Piece)
        ensures
            r.kind == piece_kind,
            r.color == color,
    {
        Piece { kind: piece_kind, color }
    }

    /// The kind and the owner: the inverse of `new`.
    pub fn to_parts(self) -> (r: (PieceKind, Color))
        ensures
            r == (self.kind, self.color),
    {
        (self.kind, self.color)
    }

    /// The kind of this piece.
    pub fn piece_kind(self) -> (r: PieceKind)
        ensures
            r == self.kind,
    {
        self.kind
    }

    /// The owner of this piece.
    pub fn color(self) -> (r: Color)
        ensures
            r == self.color,
    {
        self.color
    }

    /// The promoted piece of the same owner; `None` where the kind cannot promote.
    pub fn promote(self) -> (r: Option<Piece>)
        ensures
            r == (match self.kind.promote_spec() {
                Some(k) => Some(Piece { kind: k, color: self.color }),
                None => None,
            }),
    {
        match self.kind.promote() {
            Some(k) => Some(Piece { kind: k, color: self.color }),
            None => None,
        }
    }

    /// All 28 pieces: the fourteen kinds of Black, then those of White.
    pub fn all() -> (r: Vec<Piece>)
        ensures
            r@.len() == 28,
            forall|i: int|
                0 <= i < 14 ==> #[trigger] r@[i] == (Piece { kind: PieceKind::all_spec()[i], color: Color::Black }),
            forall|i: int|
                14 <= i < 28 ==> #[trigger] r@[i] == (Piece { kind: PieceKind::all_spec()[i - 14], color: Color::White }),
    {
        let kinds = PieceKind::all();
        let colors = Color::all();
        let mut r: Vec<Piece> = Vec::new();
        let mut c: usize = 0;
        while c < 2
            invariant
                0 <= c <= 2,
                colors@ == seq![Color::Black, Color::White],
                kinds@ == PieceKind::all_spec(),
                r@.len() == 14 * c,
                forall|i: int|
                    0 <= i < 14 && i < r@.len() ==> #[trigger] r@[i] == (Piece { kind: PieceKind::all_spec()[i], color: Color::Black }),
                forall|i: int|
                    14 <= i < r@.len() ==> #[trigger] r@[i] == (Piece { kind: PieceKind::all_spec()[i - 14], color: Color::White }),
            decreases 2 - c,
        {
            let mut k: usize = 0;
            while k < 14
                invariant
                    0 <= c < 2,
                    0 <= k <= 14,
                    colors@ == seq![Color::Black, Color::White],
                    kinds@ == PieceKind::all_spec(),
                    r@.len() == 14 * c + k,
                    forall|i: int|
                        0 <= i < 14 && i < r@.len() ==> #[trigger] r@[i] == (Piece { kind: PieceKind::all_spec()[i], color: Color::Black }),
                    forall|i: int|
                        14 <= i < r@.len() ==> #[trigger] r@[i] == (Piece { kind: PieceKind::all_spec()[i - 14], color: Color::White }),
                decreases 14 - k,
            {
                r.push(Piece { kind: kinds[k], color: colors[c] });
                k += 1;
            }
            c += 1;
        }
        r
    }
}

} // verus!
