use vstd::prelude::*;

use crate::bitboard::Bitboard;
use crate::game::Position;
use crate::mv::Move;
use crate::piece::Piece;
use crate::position::PartialPosition;
use crate::prelegality::{
    ALL_CANDIDATES, candidate_exec, candidates, check, is_legal_lite, king_capturable, legal,
    prelegal, will_king_be_captured,
};
use crate::square::{lemma_index_injective, Square};

verus! {

/// Why a move is illegal.
#[derive(Clone, Copy, Debug, PartialEq, Eq, Hash, Structural)]
pub enum IllegalMoveKind {
    /// The move breaks the rules of movement (or of drops), or cannot be played.
    IncorrectMove,
    /// The move leaves the mover's king capturable.
    IgnoredCheck,
}

/// The legal moves of a position, in candidate order.
pub open spec fn legal_moves(m: crate::position::PositionModel) -> Seq<Move> {
    candidates().filter(|mv: Move| legal(m, mv))
}

/// A legality checker that tries every candidate move.
#[derive(Clone, Copy, Debug, PartialEq, Eq, Hash, Structural)]
pub struct LiteLegalityChecker;

/// Decides the legality of moves.
pub trait LegalityChecker {
    /// `Ok` exactly for a legal move; otherwise why it is not.
    fn is_legal_partial(&self, position: &PartialPosition, mv: Move) -> (r: Result<
        (),
        IllegalMoveKind,
    >)
        requires
            position.wf(),
        ensures
            r.is_ok() == legal(position@, mv),
            r == Err::<(), IllegalMoveKind>(IllegalMoveKind::IgnoredCheck) <==> (prelegal(
                position@,
                mv,
            ) && position@.apply(mv).is_some() && king_capturable(position@.apply(mv).unwrap())
                != Some(false)),
    ;

    /// Whether `mv` is legal in `position`.
    fn is_legal_partial_lite(&self, position: &PartialPosition, mv: Move) -> (r: bool)
        requires
            position.wf(),
        ensures
            r == legal(position@, mv),
    ;

    /// All legal moves, in candidate order.
    fn all_legal_moves_partial(&self, position: &PartialPosition) -> (r: Vec<Move>)
        requires
            position.wf(),
        ensures
            r@ == legal_moves(position@),
    ;

    /// The squares that the piece on `from` can legally move to.
    fn normal_from_candidates(&self, position: &PartialPosition, from: Square) -> (r:
        Bitboard)
        requires
            position.wf(),
        ensures
            forall|to: Square|
                #[trigger] r@.contains(to.idx()) <==> (legal(
                    position@,
                    Move::Normal { from, to, promote: true },
                ) || legal(position@, Move::Normal { from, to, promote: false })),
            forall|i: int| r@.contains(i) ==> 1 <= i <= 81,
    ;

    /// The squares from which a `piece` can legally move to `to`.
    fn normal_to_candidates(&self, position: &PartialPosition, to: Square, piece: Piece) -> (r:
        Bitboard)
        requires
            position.wf(),
        ensures
            forall|from: Square|
                #[trigger] r@.contains(from.idx()) <==> (position@.at(from.idx()) == Some(piece)
                    && (legal(position@, Move::Normal { from, to, promote: true }) || legal(
                    position@,
                    Move::Normal { from, to, promote: false },
                ))),
            forall|i: int| r@.contains(i) ==> 1 <= i <= 81,
    ;

    /// The squares on which `piece` can legally be dropped.
    fn drop_candidates(&self, position: &PartialPosition, piece: Piece) -> (r: Bitboard)
        requires
            position.wf(),
        ensures
            forall|to: Square|
                #[trigger] r@.contains(to.idx()) <==> legal(position@, Move::Drop { piece, to }),
            forall|i: int| r@.contains(i) ==> 1 <= i <= 81,
    ;

    /// Plays `mv` on `position` if it is legal; otherwise leaves `position` unchanged.
    fn make_move(&self, position: &mut Position, mv: Move)
        requires
            old(position).inner_spec().wf(),
        ensures
            legal(old(position).inner_spec()@, mv) ==> final(position).inner_spec()@ == old(
                position,
            ).inner_spec()@.apply(mv).unwrap() && final(position).moves_spec() == old(
                position,
            ).moves_spec().push(mv),
            !legal(old(position).inner_spec()@, mv) ==> final(position).inner_spec() == old(
                position,
            ).inner_spec() && final(position).moves_spec() == old(position).moves_spec(),
            final(position).initial_spec() == old(position).initial_spec(),
    {
        if self.is_legal_partial_lite(position.inner(), mv) {
            let _ = position.make_move(mv);
        }
    }
}

impl LegalityChecker for LiteLegalityChecker {
    fn is_legal_partial(&self, position: &PartialPosition, mv: Move) -> (r: Result<
        (),
        IllegalMoveKind,
    >)
    {
        if !check(position, mv) {
            return Err(IllegalMoveKind::IncorrectMove);
        }
        let mut next = *position;
        if next.make_move(mv).is_none() {
            return Err(IllegalMoveKind::IncorrectMove);
        }
        if will_king_be_captured(&next) != Some(false) {
            return Err(IllegalMoveKind::IgnoredCheck);
        }
        Ok(())
    }


    fn is_legal_partial_lite(&self, position: &PartialPosition, mv: Move) -> (r: bool)
    {
        is_legal_lite(position, mv)
    }


    fn all_legal_moves_partial(&self, position: &PartialPosition) -> (r: Vec<Move>)
    {
        let mut r: Vec<Move> = Vec::new();
        let mut k: usize = 0;
        while k < ALL_CANDIDATES
            invariant
                0 <= k <= ALL_CANDIDATES,
                position.wf(),
                r@ == candidates().take(k as int).filter(|mv: Move| legal(position@, mv)),
            decreases ALL_CANDIDATES - k,
        {
            let mv = candidate_exec(k);
            let ok = is_legal_lite(position, mv);
            proof {
                let p = |mv: Move| legal(position@, mv);
                let next = candidates().take(k + 1);
                assert(next.drop_last() =~= candidates().take(k as int));
                assert(next.last() == mv);
                reveal(Seq::filter);
                assert(next.filter(p) == if p(mv) {
                    candidates().take(k as int).filter(p).push(mv)
                } else {
                    candidates().take(k as int).filter(p)
                });
            }
            if ok {
                r.push(mv);
            }
            k += 1;
        }
        assert(candidates().take(ALL_CANDIDATES as int) =~= candidates());
        r
    }


    fn normal_from_candidates(&self, position: &PartialPosition, from: Square) -> (r:
        Bitboard)
    {
        let all = Square::all();
        let mut r = Bitboard::empty();
        let mut k: usize = 0;
        while k < 81
            invariant
                0 <= k <= 81,
                position.wf(),
                all@.len() == 81,
                forall|i: int| 0 <= i < 81 ==> #[trigger] all@[i].idx() == i + 1,
                forall|i: int| r@.contains(i) ==> 1 <= i <= k,
                forall|to: Square|
                    to.idx() <= k ==> (#[trigger] r@.contains(to.idx()) <==> (legal(
                        position@,
                        Move::Normal { from, to, promote: true },
                    ) || legal(position@, Move::Normal { from, to, promote: false }))),
            decreases 81 - k,
        {
            let to = all[k];
            if is_legal_lite(position, Move::Normal { from, to, promote: true })
                || is_legal_lite(position, Move::Normal { from, to, promote: false }) {
                r = r.insert(to);
            }
            proof {
                assert forall|t: Square| t.idx() == k + 1 implies t == to by {
                    lemma_index_injective(t, to);
                }
            }
            k += 1;
        }
        proof {
            assert forall|t: Square| 1 <= #[trigger] t.idx() <= 81 by {
                crate::square::lemma_square_index(t);
            }
        }
        r
    }


    fn normal_to_candidates(&self, position: &PartialPosition, to: Square, piece: Piece) -> (r:
        Bitboard)
    {
        let all = Square::all();
        let mut r = Bitboard::empty();
        let mut k: usize = 0;
        while k < 81
            invariant
                0 <= k <= 81,
                position.wf(),
                all@.len() == 81,
                forall|i: int| 0 <= i < 81 ==> #[trigger] all@[i].idx() == i + 1,
                forall|i: int| r@.contains(i) ==> 1 <= i <= k,
                forall|from: Square|
                    from.idx() <= k ==> (#[trigger] r@.contains(from.idx()) <==> (position@.at(
                        from.idx(),
                    ) == Some(piece) && (legal(position@, Move::Normal { from, to, promote: true })
                        || legal(position@, Move::Normal { from, to, promote: false })))),
            decreases 81 - k,
        {
            let from = all[k];
            let here = match position.piece_at(from) {
                Some(p) => p.kind == piece.kind && p.color == piece.color,
                None => false,
            };
            if here && (is_legal_lite(position, Move::Normal { from, to, promote: true })
                || is_legal_lite(position, Move::Normal { from, to, promote: false })) {
                r = r.insert(from);
            }
            proof {
                assert forall|t: Square| t.idx() == k + 1 implies t == from by {
                    lemma_index_injective(t, from);
                }
            }
            k += 1;
        }
        proof {
            assert forall|t: Square| 1 <= #[trigger] t.idx() <= 81 by {
                crate::square::lemma_square_index(t);
            }
        }
        r
    }


    fn drop_candidates(&self, position: &PartialPosition, piece: Piece) -> (r: Bitboard)
    {
        let all = Square::all();
        let mut r = Bitboard::empty();
        let mut k: usize = 0;
        while k < 81
            invariant
                0 <= k <= 81,
                position.wf(),
                all@.len() == 81,
                forall|i: int| 0 <= i < 81 ==> #[trigger] all@[i].idx() == i + 1,
                forall|i: int| r@.contains(i) ==> 1 <= i <= k,
                forall|to: Square|
                    to.idx() <= k ==> (#[trigger] r@.contains(to.idx()) <==> legal(
                        position@,
                        Move::Drop { piece, to },
                    )),
            decreases 81 - k,
        {
            let to = all[k];
            if is_legal_lite(position, Move::Drop { piece, to }) {
                r = r.insert(to);
            }
            proof {
                assert forall|t: Square| t.idx() == k + 1 implies t == to by {
                    lemma_index_injective(t, to);
                }
            }
            k += 1;
        }
        proof {
            assert forall|t: Square| 1 <= #[trigger] t.idx() <= 81 by {
                crate::square::lemma_square_index(t);
            }
        }
        r
    }
}

} // verus!
