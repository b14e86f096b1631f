use vstd::prelude::*;

use crate::bitboard::{board_indices, Bitboard};
use crate::color::Color;
use crate::hand::{cap, slot, Hand};
use crate::mv::Move;
use crate::piece::Piece;
use crate::piece_kind::PieceKind;
use crate::square::{file_of, rank_of, Square};

verus! {

/// The index of a player's hand: 0 for Black, 1 for White.
pub open spec fn color_slot(c: Color) -> int {
    match c {
        Color::Black => 0,
        Color::White => 1,
    }
}

/// A position as mathematical values.
pub struct PositionModel {
    /// The piece on each square; the square of index `i` is at `i - 1`.
    pub board: Seq<Option<Piece>>,
    /// Black's and White's counts of held pieces, by slot.
    pub hands: Seq<Seq<u8>>,
    pub side: Color,
    pub ply: u16,
    pub last_move: Option<Move>,
}

impl PositionModel {
    /// The piece on the square of index `i`.
    pub open spec fn at(self, i: int) -> Option<Piece> {
        self.board[i - 1]
    }

    /// The counts of `c`'s hand.
    pub open spec fn hand(self, c: Color) -> Seq<u8> {
        self.hands[color_slot(c)]
    }

    /// How many pieces of `kind` player `c` holds; `None` for a kind that cannot be held.
    pub open spec fn hand_count(self, c: Color, kind: PieceKind) -> Option<int> {
        match slot(kind) {
            Some(i) => Some(self.hand(c)[i] as int),
            None => None,
        }
    }

    pub open spec fn wf(self) -> bool {
        &&& self.board.len() == 81
        &&& self.hands.len() == 2
        &&& forall|c: int| 0 <= c < 2 ==> #[trigger] self.hands[c].len() == 7
        &&& forall|c: int, i: int|
            0 <= c < 2 && 0 <= i < 7 ==> #[trigger] self.hands[c][i] <= cap(i)
    }

    /// The squares holding a piece.
    pub open spec fn occupied(self) -> Set<int> {
        Set::new(|i: int| 1 <= i <= 81 && self.at(i).is_some())
    }

    /// The squares holding a piece of `c`.
    pub open spec fn owned(self, c: Color) -> Set<int> {
        Set::new(|i: int| 1 <= i <= 81 && self.at(i).is_some() && self.at(i).unwrap().color == c)
    }

    /// The bookkeeping that every move does: the turn passes, the ply counter
    /// goes up (it stays at its maximum), and the move is recorded.
    pub open spec fn pass_turn(self, mv: Move) -> PositionModel {
        PositionModel {
            side: self.side.spec_flip(),
            ply: if self.ply < 0xffff {
                (self.ply + 1) as u16
            } else {
                self.ply
            },
            last_move: Some(mv),
            ..self
        }
    }

    /// The position after `mv`, or `None` where the move cannot be played: a normal
    /// move needs a piece of the side to move on `from`, no piece of that side on `to`,
    /// a kind that can promote when `promote` is set, and room in hand for a captured
    /// piece (which goes there unpromoted); a drop needs a piece of the side to move,
    /// held in hand, and a vacant `to`.
    pub open spec fn apply(self, mv: Move) -> Option<PositionModel> {
        let side = self.side;
        match mv {
            Move::Normal { from, to, promote } => {
                let fi = from.idx();
                let ti = to.idx();
                match self.at(fi) {
                    None => None,
                    Some(fp) => {
                        if fp.color != side {
                            None
                        } else if self.at(ti).is_some() && self.at(ti).unwrap().color == side {
                            None
                        } else if promote && fp.kind.promote_spec().is_none() {
                            None
                        } else {
                            let moved = Piece {
                                kind: if promote {
                                    fp.kind.promote_spec().unwrap()
                                } else {
                                    fp.kind
                                },
                                color: side,
                            };
                            let board = self.board.update(fi - 1, None).update(ti - 1, Some(moved));
                            match self.at(ti) {
                                None => Some(PositionModel { board, ..self }.pass_turn(mv)),
                                Some(tp) => {
                                    let k = tp.kind.base();
                                    match slot(k) {
                                        None => None,
                                        Some(s) => {
                                            let h = self.hand(side);
                                            if h[s] >= cap(s) {
                                                None
                                            } else {
                                                let hands = self.hands.update(
                                                    color_slot(side),
                                                    h.update(s, (h[s] + 1) as u8),
                                                );
                                                Some(PositionModel { board, hands, ..self }.pass_turn(mv))
                                            }
                                        },
                                    }
                                },
                            }
                        }
                    },
                }
            },
            Move::Drop { piece, to } => {
                let ti = to.idx();
                if piece.color != side {
                    None
                } else if self.at(ti).is_some() {
                    None
                } else {
                    match slot(piece.kind) {
                        None => None,
                        Some(s) => {
                            let h = self.hand(side);
                            if h[s] == 0 {
                                None
                            } else {
                                let hands = self.hands.update(
                                    color_slot(side),
                                    h.update(s, (h[s] - 1) as u8),
                                );
                                let board = self.board.update(ti - 1, Some(piece));
                                Some(PositionModel { board, hands, ..self }.pass_turn(mv))
                            }
                        },
                    }
                }
            },
        }
    }
}

/// The piece on (`file`, `rank`) in the starting position.
pub open spec fn start_piece(file: int, rank: int) -> Option<Piece> {
    let color = if rank <= 3 {
        Color::White
    } else {
        Color::Black
    };
    let kind = if rank == 3 || rank == 7 {
        Some(PieceKind::Pawn)
    } else if rank == 1 || rank == 9 {
        if file == 1 || file == 9 {
            Some(PieceKind::Lance)
        } else if file == 2 || file == 8 {
            Some(PieceKind::Knight)
        } else if file == 3 || file == 7 {
            Some(PieceKind::Silver)
        } else if file == 4 || file == 6 {
            Some(PieceKind::Gold)
        } else {
            Some(PieceKind::King)
        }
    } else if (rank == 2 && file == 2) || (rank == 8 && file == 8) {
        Some(PieceKind::Bishop)
    } else if (rank == 2 && file == 8) || (rank == 8 && file == 2) {
        Some(PieceKind::Rook)
    } else {
        None
    };
    match kind {
        Some(k) => Some(Piece { kind: k, color }),
        None => None,
    }
}

/// Hand counts of zero for both players.
pub open spec fn empty_hands() -> Seq<Seq<u8>> {
    seq![Seq::new(7, |i: int| 0u8), Seq::new(7, |i: int| 0u8)]
}

/// The empty board, nothing in hand, Black to move, ply 1.
pub open spec fn empty_model() -> PositionModel {
    PositionModel {
        board: Seq::new(81, |k: int| None::<Piece>),
        hands: empty_hands(),
        side: Color::Black,
        ply: 1,
        last_move: None,
    }
}

/// The standard starting position, Black to move, ply 1.
pub open spec fn start_model() -> PositionModel {
    PositionModel {
        board: Seq::new(81, |k: int| start_piece(file_of(k + 1), rank_of(k + 1))),
        ..empty_model()
    }
}

/// A position: the board, both hands, the side to move, the ply number and the
/// last move played.
#[derive(Clone, Copy, Debug, PartialEq, Eq, Hash)]
pub struct PartialPosition {
    board: [Option<Piece>; 81],
    hands: [Hand; 2],
    side: Color,
    ply: u16,
    last_move: Option<Move>,
}

impl View for PartialPosition {
    type V = PositionModel;

    closed spec fn view(&self) -> PositionModel {
        PositionModel {
            board: self.board@,
            hands: Seq::new(2, |c: int| self.hands@[c].counts@),
            side: self.side,
            ply: self.ply,
            last_move: self.last_move,
        }
    }
}

fn start_piece_exec(file: u8, rank: u8) -> (r: Option<Piece>)
    ensures
        r == start_piece(file as int, rank as int),
{
    let color = if rank <= 3 {
        Color::White
    } else {
        Color::Black
    };
    let kind = if rank == 3 || rank == 7 {
        Some(PieceKind::Pawn)
    } else if rank == 1 || rank == 9 {
        if file == 1 || file == 9 {
            Some(PieceKind::Lance)
        } else if file == 2 || file == 8 {
            Some(PieceKind::Knight)
        } else if file == 3 || file == 7 {
            Some(PieceKind::Silver)
        } else if file == 4 || file == 6 {
            Some(PieceKind::Gold)
        } else {
            Some(PieceKind::King)
        }
    } else if (rank == 2 && file == 2) || (rank == 8 && file == 8) {
        Some(PieceKind::Bishop)
    } else if (rank == 2 && file == 8) || (rank == 8 && file == 2) {
        Some(PieceKind::Rook)
    } else {
        None
    };
    match kind {
        Some(k) => Some(Piece { kind: k, color }),
        None => None,
    }
}

fn slot_exec(c: Color) -> (r: usize)
    ensures
        r == color_slot(c),
{
    match c {
        Color::Black => 0,
        Color::White => 1,
    }
}

impl PartialPosition {
    /// The position is well formed: no hand holds more than a full set.
    pub open spec fn wf(&self) -> bool {
        self@.wf()
    }

    /// The empty board, no pieces in hand, Black to move, ply 1.
    pub fn empty() -> (r: PartialPosition)
        ensures
            r.wf(),
            forall|i: int| 1 <= i <= 81 ==> (#[trigger] r@.at(i)).is_none(),
            forall|c: int, i: int| 0 <= c < 2 && 0 <= i < 7 ==> #[trigger] r@.hands[c][i] == 0,
            r@.side == Color::Black,
            r@.ply == 1,
            r@.last_move.is_none(),
            r@ == empty_model(),
    {
        let r = PartialPosition {
            board: [None; 81],
            hands: [Hand::new(), Hand::new()],
            side: Color::Black,
            ply: 1,
            last_move: None,
        };
        assert(r@.hands[0] == r.hands@[0].counts@);
        assert(r@.hands[1] == r.hands@[1].counts@);
        assert(r@.board =~= empty_model().board);
        assert(r@.hands[0] =~= empty_hands()[0]);
        assert(r@.hands[1] =~= empty_hands()[1]);
        assert(r@.hands =~= empty_hands());
        r
    }

    /// The standard starting position: Black to move, nothing in hand, ply 1.
    pub fn startpos() -> (r: PartialPosition)
        ensures
            r.wf(),
            forall|i: int|
                1 <= i <= 81 ==> #[trigger] r@.at(i) == start_piece(file_of(i), rank_of(i)),
            forall|c: int, i: int| 0 <= c < 2 && 0 <= i < 7 ==> #[trigger] r@.hands[c][i] == 0,
            r@.side == Color::Black,
            r@.ply == 1,
            r@.last_move.is_none(),
            r@ == start_model(),
    {
        let mut r = PartialPosition::empty();
        let mut i: u8 = 1;
        while i <= 81
            invariant
                1 <= i <= 82,
                r.wf(),
                forall|j: int|
                    1 <= j < i ==> #[trigger] r@.at(j) == start_piece(file_of(j), rank_of(j)),
                forall|c: int, j: int|
                    0 <= c < 2 && 0 <= j < 7 ==> #[trigger] r@.hands[c][j] == 0,
                r@.hands == empty_hands(),
                r@.side == Color::Black,
                r@.ply == 1,
                r@.last_move.is_none(),
            decreases 82 - i,
        {
            let file = (i + 8) / 9;
            let rank = (i - 1) % 9 + 1;
            assert(file == file_of(i as int) && rank == rank_of(i as int));
            let ghost before = r@;
            r.board[(i - 1) as usize] = start_piece_exec(file, rank);
            assert(forall|j: int| 1 <= j < i ==> #[trigger] r@.at(j) == before.at(j));
            assert(r@.hands =~= before.hands);
            i += 1;
        }
        assert forall|k: int| 0 <= k < 81 implies r@.board[k] == start_model().board[k] by {
            assert(r@.at(k + 1) == start_piece(file_of(k + 1), rank_of(k + 1)));
        }
        assert(r@.board =~= start_model().board);
        r
    }

    /// The piece on `square`.
    pub fn piece_at(&self, square: Square) -> (r: Option<Piece>)
        ensures
            r == self@.at(square.idx()),
    {
        self.board[(square.index() - 1) as usize]
    }

    /// Puts `piece` on `square` (or clears it for `None`).
    pub fn piece_set(&mut self, square: Square, piece: Option<Piece>)
        ensures
            final(self)@ == (PositionModel {
                board: old(self)@.board.update(square.idx() - 1, piece),
                ..old(self)@
            }),
    {
        self.board[(square.index() - 1) as usize] = piece;
        assert(self@.hands =~= old(self)@.hands);
    }

    /// How many of `piece`'s kind its owner holds; `None` for a kind that cannot be held.
    pub fn hand(&self, piece: Piece) -> (r: Option<u8>)
        ensures
            r.is_some() == self@.hand_count(piece.color, piece.kind).is_some(),
            r.is_some() ==> r.unwrap() == self@.hand_count(piece.color, piece.kind).unwrap(),
    {
        self.hands[slot_exec(piece.color)].count(piece.kind)
    }

    /// The hand of `color`.
    pub fn hand_of_a_player(&self, color: Color) -> (r: Hand)
        ensures
            r.counts@ == self@.hand(color),
    {
        self.hands[slot_exec(color)]
    }

    /// Replaces the hand of `color`.
    pub fn hand_set(&mut self, color: Color, hand: Hand)
        requires
            hand.wf(),
        ensures
            old(self).wf() ==> final(self).wf(),
            final(self)@ == (PositionModel {
                hands: old(self)@.hands.update(color_slot(color), hand.counts@),
                ..old(self)@
            }),
    {
        self.hands[slot_exec(color)] = hand;
        assert(self@.hands =~= old(self)@.hands.update(color_slot(color), hand.counts@));
    }

    /// The side to move.
    pub fn side_to_move(&self) -> (r: Color)
        ensures
            r == self@.side,
    {
        self.side
    }

    /// Sets the side to move.
    pub fn side_to_move_set(&mut self, side: Color)
        ensures
            final(self)@ == (PositionModel { side, ..old(self)@ }),
    {
        self.side = side;
        assert(self@.hands =~= old(self)@.hands);
    }

    /// The ply number, counted from 1.
    pub fn ply(&self) -> (r: u16)
        ensures
            r == self@.ply,
    {
        self.ply
    }

    /// Sets the ply number; `None`, with nothing changed, for 0.
    pub fn ply_set(&mut self, ply: u16) -> (r: Option<()>)
        ensures
            r.is_some() == (ply != 0),
            r.is_some() ==> final(self)@ == (PositionModel { ply, ..old(self)@ }),
            r.is_none() ==> *final(self) == *old(self),
    {
        if ply == 0 {
            return None;
        }
        self.ply = ply;
        assert(self@.hands =~= old(self)@.hands);
        Some(())
    }

    /// The last move played, if any.
    pub fn last_move(&self) -> (r: Option<Move>)
        ensures
            r == self@.last_move,
    {
        self.last_move
    }

    /// The squares holding a piece of `color`.
    pub fn player_bitboard(&self, color: Color) -> (r: Bitboard)
        ensures
            r@ == self@.owned(color),
    {
        let all = Square::all();
        let mut r = Bitboard::empty();
        let mut k: usize = 0;
        while k < 81
            invariant
                0 <= k <= 81,
                all@.len() == 81,
                forall|i: int| 0 <= i < 81 ==> #[trigger] all@[i].idx() == i + 1,
                r@ == Set::new(
                    |i: int|
                        1 <= i <= k && self@.at(i).is_some() && self@.at(i).unwrap().color == color,
                ),
            decreases 81 - k,
        {
            let s = all[k];
            let p = self.piece_at(s);
            let old_r = r;
            match p {
                Some(x) => {
                    if x.color == color {
                        r = r.insert(s);
                    }
                },
                None => {},
            }
            assert(r@ =~= Set::new(
                |i: int|
                    1 <= i <= k + 1 && self@.at(i).is_some() && self@.at(i).unwrap().color == color,
            ));
            k += 1;
        }
        assert(r@ =~= self@.owned(color));
        r
    }

    /// The squares holding no piece.
    pub fn vacant_bitboard(&self) -> (r: Bitboard)
        ensures
            r@ == board_indices().difference(self@.occupied()),
    {
        let all = Square::all();
        let mut r = Bitboard::empty();
        let mut k: usize = 0;
        while k < 81
            invariant
                0 <= k <= 81,
                all@.len() == 81,
                forall|i: int| 0 <= i < 81 ==> #[trigger] all@[i].idx() == i + 1,
                r@ == Set::new(|i: int| 1 <= i <= k && self@.at(i).is_none()),
            decreases 81 - k,
        {
            let s = all[k];
            if self.piece_at(s).is_none() {
                r = r.insert(s);
            }
            assert(r@ =~= Set::new(|i: int| 1 <= i <= k + 1 && self@.at(i).is_none()));
            k += 1;
        }
        assert(r@ =~= board_indices().difference(self@.occupied()));
        r
    }

    fn pass_turn(&mut self, mv: Move)
        ensures
            final(self)@ == old(self)@.pass_turn(mv),
    {
        self.side = self.side.flip();
        if self.ply < 0xffff {
            self.ply = self.ply + 1;
        }
        self.last_move = Some(mv);
        assert(self@.hands =~= old(self)@.hands);
    }

    /// Plays `mv`. Where the move cannot be played (see `PositionModel::apply`),
    /// returns `None` and changes nothing.
    pub fn make_move(&mut self, mv: Move) -> (r: Option<()>)
        requires
            old(self).wf(),
        ensures
            r.is_some() == old(self)@.apply(mv).is_some(),
            r.is_some() ==> final(self)@ == old(self)@.apply(mv).unwrap(),
            r.is_none() ==> *final(self) == *old(self),
            final(self).wf(),
    {
        let side = self.side;
        match mv {
            Move::Normal { from, to, promote } => {
                let fp = match self.piece_at(from) {
                    Some(p) => p,
                    None => return None,
                };
                if fp.color != side {
                    return None;
                }
                let tp = self.piece_at(to);
                match tp {
                    Some(t) => {
                        if t.color == side {
                            return None;
                        }
                    },
                    None => {},
                }
                let kind = if promote {
                    match fp.kind.promote() {
                        Some(k) => k,
                        None => return None,
                    }
                } else {
                    fp.kind
                };
                let moved = Piece { kind, color: side };
                let sl = slot_exec(side);
                match tp {
                    Some(t) => {
                        let base = match t.kind.unpromote() {
                            Some(k) => k,
                            None => t.kind,
                        };
                        proof {
                            assert(self.hands@[sl as int].wf());
                        }
                        let h = match self.hands[sl].added(base) {
                            Some(h) => h,
                            None => return None,
                        };
                        self.hands[sl] = h;
                    },
                    None => {},
                }
                self.board[(from.index() - 1) as usize] = None;
                self.board[(to.index() - 1) as usize] = Some(moved);
                self.pass_turn(mv);
                proof {
                    let m = old(self)@.apply(mv).unwrap();
                    assert(self@.board =~= m.board);
                    assert(self@.hands =~= m.hands);
                }
                Some(())
            },
            Move::Drop { piece, to } => {
                if piece.color != side {
                    return None;
                }
                if self.piece_at(to).is_some() {
                    return None;
                }
                let sl = slot_exec(side);
                proof {
                    assert(self.hands@[sl as int].wf());
                }
                let h = match self.hands[sl].removed(piece.kind) {
                    Some(h) => h,
                    None => return None,
                };
                self.hands[sl] = h;
                self.board[(to.index() - 1) as usize] = Some(piece);
                self.pass_turn(mv);
                proof {
                    let m = old(self)@.apply(mv).unwrap();
                    assert(self@.board =~= m.board);
                    assert(self@.hands =~= m.hands);
                }
                Some(())
            },
        }
    }
}

} // verus!
