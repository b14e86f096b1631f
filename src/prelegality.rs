use vstd::prelude::*;

use crate::color::Color;
use crate::hand::slot;
use crate::mv::Move;
use crate::normal::{attack_set, check as reaches};
use crate::piece::Piece;
use crate::piece_kind::PieceKind;
use crate::position::{PartialPosition, PositionModel};
use crate::square::{relative, square_of, Square};

verus! {

/// How many normal-move candidates there are: every origin, destination and promotion flag.
pub const NORMAL_CANDIDATES: usize = 13122;

/// How many candidates there are in all: the normal ones, then every piece dropped on
/// every square.
pub const ALL_CANDIDATES: usize = 15390;

/// The `k`-th candidate move. Normal moves come first, by origin, then destination,
/// then promotion (promoting first); drops follow, by piece (Black's fourteen kinds,
/// then White's), then destination.
pub open spec fn candidate(k: int) -> Move {
    if k < NORMAL_CANDIDATES {
        Move::Normal {
            from: square_of(k / 162 + 1),
            to: square_of((k / 2) % 81 + 1),
            promote: k % 2 == 0,
        }
    } else {
        let j = k - NORMAL_CANDIDATES;
        Move::Drop {
            piece: Piece {
                kind: PieceKind::all_spec()[(j / 81) % 14],
                color: if j / 81 < 14 {
                    Color::Black
                } else {
                    Color::White
                },
            },
            to: square_of(j % 81 + 1),
        }
    }
}

/// All candidate moves, in order.
pub open spec fn candidates() -> Seq<Move> {
    Seq::new(ALL_CANDIDATES as nat, |k: int| candidate(k))
}

/// The `k`-th candidate in the order that tries the non-promoting form of a normal
/// move before the promoting one; otherwise as `candidate`.
pub open spec fn plain_first_candidate(k: int) -> Move {
    match candidate(k) {
        Move::Normal { from, to, promote } => Move::Normal { from, to, promote: !promote },
        Move::Drop { piece, to } => Move::Drop { piece, to },
    }
}

/// All candidate moves, non-promoting before promoting for each origin and destination.
pub open spec fn plain_first_candidates() -> Seq<Move> {
    Seq::new(ALL_CANDIDATES as nat, |k: int| plain_first_candidate(k))
}

/// How many pawns both players hold together.
pub open spec fn pawns_in_hand(m: PositionModel) -> nat {
    (m.hands[0][0] + m.hands[1][0]) as nat
}

/// Whether a piece of `kind` could never move again from a square of relative rank `rank`.
pub open spec fn stuck(kind: PieceKind, rank: int) -> bool {
    (rank == 1 && (kind == PieceKind::Pawn || kind == PieceKind::Lance || kind
        == PieceKind::Knight)) || (rank == 2 && kind == PieceKind::Knight)
}

/// The first square, from index `i` on, that holds the king of `c`.
pub open spec fn king_from(m: PositionModel, c: Color, i: int) -> Option<int>
    decreases 82 - i,
{
    if i < 1 || i > 81 {
        None
    } else if m.at(i) == Some(Piece { kind: PieceKind::King, color: c }) {
        Some(i)
    } else {
        king_from(m, c, i + 1)
    }
}

/// Whether the side to move has a piece that reaches the other side's king;
/// `None` where that king is not on the board.
pub open spec fn king_capturable(m: PositionModel) -> Option<bool> {
    match king_from(m, m.side.spec_flip(), 1) {
        None => None,
        Some(k) => Some(
            exists|i: int|
                1 <= i <= 81 && m.at(i).is_some() && m.at(i).unwrap().color == m.side
                    && #[trigger] attack_set(m, m.at(i).unwrap(), i).contains(k),
        ),
    }
}

/// The first phase of legality: the move obeys the rules of movement, ignoring
/// whether it leaves the mover's king capturable.
///
/// A normal move needs a piece of the side to move on `from`, no piece of that side
/// on `to`, a destination from which the piece can still move unless it promotes,
/// promotion only for a kind that can promote with one end in the three farthest
/// ranks, and a destination the piece reaches. A drop needs a piece of the side to
/// move that is held in hand, a vacant destination from which the piece can move,
/// and, for a pawn, that the drop does not mate. The rule against a second unpromoted
/// pawn of the same player on one file is deliberately not part of these rules: a pawn
/// may be dropped on a file that already holds one of its owner's pawns.
pub open spec fn prelegal(m: PositionModel, mv: Move) -> bool
    decreases pawns_in_hand(m), 0nat, 0nat,
{
    if !m.wf() {
        false
    } else {
        let side = m.side;
        match mv {
            Move::Normal { from, to, promote } => {
                match m.at(from.idx()) {
                    None => false,
                    Some(fp) => {
                        &&& fp.color == side
                        &&& !(m.at(to.idx()).is_some() && m.at(to.idx()).unwrap().color == side)
                        &&& (promote || !stuck(fp.kind, relative(to.rank_spec(), side)))
                        &&& (!promote || (fp.kind.promote_spec().is_some() && (relative(
                            from.rank_spec(),
                            side,
                        ) <= 3 || relative(to.rank_spec(), side) <= 3)))
                        &&& attack_set(m, fp, from.idx()).contains(to.idx())
                    },
                }
            },
            Move::Drop { piece, to } => {
                if piece.color != side || slot(piece.kind).is_none() {
                    false
                } else if m.hand(side)[slot(piece.kind).unwrap()] == 0 {
                    false
                } else if m.at(to.idx()).is_some() || stuck(
                    piece.kind,
                    relative(to.rank_spec(), side),
                ) {
                    false
                } else if piece.kind == PieceKind::Pawn {
                    !mate_from(m.apply(mv).unwrap(), 0)
                } else {
                    true
                }
            },
        }
    }
}

/// Both phases of legality: `mv` passes the first phase, can be played, and does
/// not leave the mover's king capturable.
pub open spec fn legal(m: PositionModel, mv: Move) -> bool
    decreases pawns_in_hand(m), 0nat, 1nat,
{
    &&& prelegal(m, mv)
    &&& m.apply(mv).is_some()
    &&& king_capturable(m.apply(mv).unwrap()) == Some(false)
}

/// No candidate from the `k`-th on is legal.
pub open spec fn mate_from(m: PositionModel, k: int) -> bool
    decreases pawns_in_hand(m), 1nat, (ALL_CANDIDATES - k) as nat,
{
    if k < 0 || k >= ALL_CANDIDATES {
        true
    } else {
        !legal(m, candidate(k)) && mate_from(m, k + 1)
    }
}

/// The side to move has no legal move.
pub open spec fn is_mate_spec(m: PositionModel) -> bool {
    mate_from(m, 0)
}

/// The candidate moves that pass the first phase, in the order of
/// `plain_first_candidates`: normal moves by origin, then destination, the
/// non-promoting form first; then drops.
pub open spec fn prelegal_moves(m: PositionModel) -> Seq<Move> {
    plain_first_candidates().filter(|mv: Move| prelegal(m, mv))
}

/// The `k`-th candidate move.
pub fn candidate_exec(k: usize) -> (r: Move)
    requires
        k < ALL_CANDIDATES,
    ensures
        r == candidate(k as int),
{
    if k < NORMAL_CANDIDATES {
        let from = match Square::from_u8((k / 162 + 1) as u8) {
            Some(s) => s,
            None => Square::SQ_1A,
        };
        let to = match Square::from_u8(((k / 2) % 81 + 1) as u8) {
            Some(s) => s,
            None => Square::SQ_1A,
        };
        Move::Normal { from, to, promote: k % 2 == 0 }
    } else {
        let j = k - NORMAL_CANDIDATES;
        let kinds = PieceKind::all();
        let kind = kinds[(j / 81) % 14];
        let color = if j / 81 < 14 {
            Color::Black
        } else {
            Color::White
        };
        let to = match Square::from_u8((j % 81 + 1) as u8) {
            Some(s) => s,
            None => Square::SQ_1A,
        };
        Move::Drop { piece: Piece { kind, color }, to }
    }
}

fn is_stuck(kind: PieceKind, rank: u8) -> (r: bool)
    ensures
        r == stuck(kind, rank as int),
{
    (rank == 1 && (kind == PieceKind::Pawn || kind == PieceKind::Lance || kind
        == PieceKind::Knight)) || (rank == 2 && kind == PieceKind::Knight)
}

/// The first phase of legality (see `prelegal`).
pub fn check(position: &PartialPosition, mv: Move) -> (r: bool)
    requires
        position.wf(),
    ensures
        r == prelegal(position@, mv),
    decreases pawns_in_hand(position@), 0nat, 0nat,
{
    let side = position.side_to_move();
    match mv {
        Move::Normal { from, to, promote } => {
            let from_piece = match position.piece_at(from) {
                Some(x) => x,
                None => return false,
            };
            if from_piece.color != side {
                return false;
            }
            match position.piece_at(to) {
                Some(x) => {
                    if x.color == side {
                        return false;
                    }
                },
                None => {},
            }
            if !promote && is_stuck(from_piece.kind, to.relative_rank(side)) {
                return false;
            }
            if promote {
                if from_piece.kind.promote().is_none() {
                    return false;
                }
                if from.relative_rank(side) > 3 && to.relative_rank(side) > 3 {
                    return false;
                }
            }
            reaches(position, from_piece, from, to)
        },
        Move::Drop { piece, to } => {
            if piece.color != side {
                return false;
            }
            let remaining = match position.hand(piece) {
                Some(x) => x,
                None => return false,
            };
            if remaining == 0 {
                return false;
            }
            if position.piece_at(to).is_some() {
                return false;
            }
            if is_stuck(piece.kind, to.relative_rank(side)) {
                return false;
            }
            if piece.kind == PieceKind::Pawn {
                let mut next = *position;
                let _ = next.make_move(mv);
                return !is_mate(&next);
            }
            true
        },
    }
}

/// The first square holding the king of `color`, if any.
pub fn king_position(position: &PartialPosition, color: Color) -> (r: Option<Square>)
    ensures
        r.is_some() == king_from(position@, color, 1).is_some(),
        r.is_some() ==> r.unwrap().idx() == king_from(position@, color, 1).unwrap(),
{
    let all = Square::all();
    let mut k: usize = 0;
    while k < 81
        invariant
            0 <= k <= 81,
            all@.len() == 81,
            forall|i: int| 0 <= i < 81 ==> #[trigger] all@[i].idx() == i + 1,
            king_from(position@, color, 1) == king_from(position@, color, k + 1),
        decreases 81 - k,
    {
        let s = all[k];
        match position.piece_at(s) {
            Some(p) => {
                if p.kind == PieceKind::King && p.color == color {
                    return Some(s);
                }
            },
            None => {},
        }
        k += 1;
    }
    None
}

/// Whether the side to move has a piece that reaches the other side's king;
/// `None` where that king is not on the board.
pub fn will_king_be_captured(position: &PartialPosition) -> (r: Option<bool>)
    ensures
        r == king_capturable(position@),
{
    let side = position.side_to_move();
    let king = match king_position(position, side.flip()) {
        Some(k) => k,
        None => return None,
    };
    let all = Square::all();
    let mut k: usize = 0;
    while k < 81
        invariant
            0 <= k <= 81,
            all@.len() == 81,
            forall|i: int| 0 <= i < 81 ==> #[trigger] all@[i].idx() == i + 1,
            side == position@.side,
            king.idx() == king_from(position@, side.spec_flip(), 1).unwrap(),
            king_from(position@, side.spec_flip(), 1).is_some(),
            forall|i: int|
                1 <= i <= k ==> !(position@.at(i).is_some() && position@.at(i).unwrap().color
                    == side && #[trigger] attack_set(
                    position@,
                    position@.at(i).unwrap(),
                    i,
                ).contains(king.idx())),
        decreases 81 - k,
    {
        let from = all[k];
        match position.piece_at(from) {
            Some(piece) => {
                if piece.color == side && reaches(position, piece, from, king) {
                    return Some(true);
                }
            },
            None => {},
        }
        k += 1;
    }
    Some(false)
}

/// Both phases of legality (see `legal`).
pub fn is_legal_lite(position: &PartialPosition, mv: Move) -> (r: bool)
    requires
        position.wf(),
    ensures
        r == legal(position@, mv),
    decreases pawns_in_hand(position@), 0nat, 1nat,
{
    if !check(position, mv) {
        return false;
    }
    let mut next = *position;
    if next.make_move(mv).is_none() {
        return false;
    }
    will_king_be_captured(&next) == Some(false)
}

/// Whether the side to move has no legal move at all. The king need not be in check.
pub fn is_mate(position: &PartialPosition) -> (r: bool)
    requires
        position.wf(),
    ensures
        r == is_mate_spec(position@),
    decreases pawns_in_hand(position@), 1nat, ALL_CANDIDATES as nat,
{
    let mut k: usize = 0;
    while k < ALL_CANDIDATES
        invariant
            0 <= k <= ALL_CANDIDATES,
            position.wf(),
            mate_from(position@, 0) == mate_from(position@, k as int),
        decreases ALL_CANDIDATES - k,
    {
        let mv = candidate_exec(k);
        if is_legal_lite(position, mv) {
            return false;
        }
        k += 1;
    }
    true
}

/// The candidate moves that pass the first phase of legality, in the order of
/// `plain_first_candidates` (the non-promoting form of a normal move first).
pub fn all_legal_moves(position: &PartialPosition) -> (r: Vec<Move>)
    requires
        position.wf(),
    ensures
        r@ == prelegal_moves(position@),
{
    let mut r: Vec<Move> = Vec::new();
    let mut k: usize = 0;
    while k < ALL_CANDIDATES
        invariant
            0 <= k <= ALL_CANDIDATES,
            position.wf(),
            r@ == plain_first_candidates().take(k as int).filter(|mv: Move| prelegal(position@, mv)),
        decreases ALL_CANDIDATES - k,
    {
        let mv = match candidate_exec(k) {
            Move::Normal { from, to, promote } => Move::Normal { from, to, promote: !promote },
            Move::Drop { piece, to } => Move::Drop { piece, to },
        };
        let ok = check(position, mv);
        proof {
            let p = |mv: Move| prelegal(position@, mv);
            let next = plain_first_candidates().take(k + 1);
            assert(next.drop_last() =~= plain_first_candidates().take(k as int));
            assert(next.last() == mv);
            reveal(Seq::filter);
            assert(next.filter(p) == if p(mv) {
                plain_first_candidates().take(k as int).filter(p).push(mv)
            } else {
                plain_first_candidates().take(k as int).filter(p)
            });
        }
        if ok {
            r.push(mv);
        }
        k += 1;
    }
    assert(plain_first_candidates().take(ALL_CANDIDATES as int) =~= plain_first_candidates());
    r
}

/// A move after which some piece of the other side reaches the mover's king is
/// never legal.
pub proof fn lemma_exposed_king_illegal(m: PositionModel, mv: Move, attacker: int)
    requires
        m.apply(mv).is_some(),
        king_from(m.apply(mv).unwrap(), m.side, 1).is_some(),
        1 <= attacker <= 81,
        m.apply(mv).unwrap().at(attacker).is_some(),
        m.apply(mv).unwrap().at(attacker).unwrap().color != m.side,
        attack_set(
            m.apply(mv).unwrap(),
            m.apply(mv).unwrap().at(attacker).unwrap(),
            attacker,
        ).contains(king_from(m.apply(mv).unwrap(), m.side, 1).unwrap()),
    ensures
        !legal(m, mv),
{
    let next = m.apply(mv).unwrap();
    assert(next.side == m.side.spec_flip());
    assert(next.side.spec_flip() == m.side);
    assert(next.at(attacker).unwrap().color == next.side);
    assert(king_capturable(next) == Some(true));
}

/// Dropping a piece onto an occupied square is never legal, whatever the hands hold.
pub proof fn lemma_drop_on_occupied_illegal(m: PositionModel, piece: Piece, to: Square)
    requires
        m.at(to.idx()).is_some(),
    ensures
        !prelegal(m, Move::Drop { piece, to }),
        !legal(m, Move::Drop { piece, to }),
{
}

} // verus!
