use shogi_lite::bitboard::Bitboard;
use shogi_lite::color::Color;
use shogi_lite::hand::Hand;
use shogi_lite::legality::{IllegalMoveKind, LegalityChecker, LiteLegalityChecker};
use shogi_lite::mv::Move;
use shogi_lite::normal::{attacking, short_range};
use shogi_lite::piece::Piece;
use shogi_lite::piece_kind::PieceKind;
use shogi_lite::position::PartialPosition;
use shogi_lite::prelegality::{all_legal_moves, check, is_mate, will_king_be_captured};
use shogi_lite::square::Square;

fn sq(file: u8, rank: u8) -> Square {
    Square::new(file, rank).unwrap()
}

fn single(file: u8, rank: u8) -> Bitboard {
    Bitboard::single(sq(file, rank))
}

fn normal(from: Square, to: Square, promote: bool) -> Move {
    Move::Normal { from, to, promote }
}

fn black(kind: PieceKind) -> Option<Piece> {
    Some(Piece::new(kind, Color::Black))
}

fn white(kind: PieceKind) -> Option<Piece> {
    Some(Piece::new(kind, Color::White))
}

#[test]
fn all_legal_moves_partial_works() {
    let position = PartialPosition::startpos();
    let first_moves = LiteLegalityChecker.all_legal_moves_partial(&position);
    assert_eq!(first_moves.len(), 30);
}

#[test]
fn startpos_pawn_pushes() {
    let position = PartialPosition::startpos();
    let one = normal(sq(7, 7), sq(7, 6), false);
    let two = normal(sq(7, 7), sq(7, 5), false);
    assert!(LiteLegalityChecker.is_legal_partial_lite(&position, one));
    assert!(!LiteLegalityChecker.is_legal_partial_lite(&position, two));
    assert_eq!(LiteLegalityChecker.is_legal_partial(&position, one), Ok(()));
    assert_eq!(
        LiteLegalityChecker.is_legal_partial(&position, two),
        Err(IllegalMoveKind::IncorrectMove)
    );
}

#[test]
fn startpos_first_phase_moves() {
    let position = PartialPosition::startpos();
    assert_eq!(all_legal_moves(&position).len(), 30);
    assert_eq!(will_king_be_captured(&position), Some(false));
    assert!(!is_mate(&position));
}

// White king in the corner, hemmed in by its own knights; a Black gold guards 1b.
fn corner_position() -> PartialPosition {
    let mut p = PartialPosition::empty();
    p.piece_set(sq(1, 1), white(PieceKind::King));
    p.piece_set(sq(2, 1), white(PieceKind::Knight));
    p.piece_set(sq(2, 2), white(PieceKind::Knight));
    p.piece_set(sq(2, 3), black(PieceKind::Gold));
    p.piece_set(sq(5, 9), black(PieceKind::King));
    p
}

#[test]
fn pawn_drop_mate_is_rejected() {
    let mut p = corner_position();
    let mut hand = Hand::new();
    hand = hand.added(PieceKind::Pawn).unwrap();
    hand = hand.added(PieceKind::Gold).unwrap();
    p.hand_set(Color::Black, hand);
    let pawn_drop = Move::Drop { piece: Piece::new(PieceKind::Pawn, Color::Black), to: sq(1, 2) };
    assert!(!check(&p, pawn_drop));
    assert!(!LiteLegalityChecker.is_legal_partial_lite(&p, pawn_drop));
    let mut next = p;
    next.make_move(pawn_drop).unwrap();
    assert!(is_mate(&next));

    // The same mate delivered by a gold drop is legal.
    let gold_drop = Move::Drop { piece: Piece::new(PieceKind::Gold, Color::Black), to: sq(1, 2) };
    assert!(LiteLegalityChecker.is_legal_partial_lite(&p, gold_drop));

    // A pawn drop elsewhere is legal.
    let quiet_drop = Move::Drop { piece: Piece::new(PieceKind::Pawn, Color::Black), to: sq(5, 5) };
    assert!(LiteLegalityChecker.is_legal_partial_lite(&p, quiet_drop));
}

#[test]
fn pawn_push_mate_is_accepted() {
    let mut p = corner_position();
    p.piece_set(sq(1, 3), black(PieceKind::Pawn));
    let push = normal(sq(1, 3), sq(1, 2), false);
    assert!(LiteLegalityChecker.is_legal_partial_lite(&p, push));
    let mut next = p;
    next.make_move(push).unwrap();
    assert!(is_mate(&next));
}

#[test]
fn exposing_own_king_is_rejected() {
    let mut p = PartialPosition::empty();
    p.piece_set(sq(5, 9), black(PieceKind::King));
    p.piece_set(sq(5, 8), black(PieceKind::Gold));
    p.piece_set(sq(5, 1), white(PieceKind::Rook));
    p.piece_set(sq(1, 1), white(PieceKind::King));
    let sideways = normal(sq(5, 8), sq(4, 8), false);
    assert!(check(&p, sideways));
    assert!(!LiteLegalityChecker.is_legal_partial_lite(&p, sideways));
    assert_eq!(
        LiteLegalityChecker.is_legal_partial(&p, sideways),
        Err(IllegalMoveKind::IgnoredCheck)
    );
    let forward = normal(sq(5, 8), sq(5, 7), false);
    assert!(LiteLegalityChecker.is_legal_partial_lite(&p, forward));
}

#[test]
fn drop_on_occupied_square_is_illegal() {
    let mut p = PartialPosition::startpos();
    let mut hand = Hand::new();
    for kind in [
        PieceKind::Pawn,
        PieceKind::Lance,
        PieceKind::Knight,
        PieceKind::Silver,
        PieceKind::Gold,
        PieceKind::Bishop,
        PieceKind::Rook,
    ] {
        hand = hand.added(kind).unwrap();
    }
    p.hand_set(Color::Black, hand);
    for kind in [PieceKind::Gold, PieceKind::Silver, PieceKind::Rook] {
        let piece = Piece::new(kind, Color::Black);
        for to in Square::all() {
            let mv = Move::Drop { piece, to };
            if p.piece_at(to).is_some() {
                assert!(!LiteLegalityChecker.is_legal_partial_lite(&p, mv));
            }
        }
        let drops = LiteLegalityChecker.drop_candidates(&p, piece);
        assert_eq!(drops.and(p.vacant_bitboard().not()), Bitboard::empty());
        assert!(drops.contains(sq(5, 5)));
    }
}

#[test]
fn candidate_views_match_move_list() {
    let position = PartialPosition::startpos();
    let from = LiteLegalityChecker.normal_from_candidates(&position, sq(7, 7));
    assert_eq!(from, single(7, 6));
    let gold = Piece::new(PieceKind::Gold, Color::Black);
    let to = LiteLegalityChecker.normal_to_candidates(&position, sq(5, 8), gold);
    assert_eq!(to, single(4, 9).or(single(6, 9)));
    let drops = LiteLegalityChecker.drop_candidates(&position, gold);
    assert!(drops.is_empty());
}

#[test]
fn make_move_captures_and_demotes() {
    let mut p = PartialPosition::empty();
    p.piece_set(sq(5, 5), black(PieceKind::Rook));
    p.piece_set(sq(5, 3), white(PieceKind::ProSilver));
    assert_eq!(p.make_move(normal(sq(5, 5), sq(5, 3), true)), Some(()));
    assert_eq!(p.piece_at(sq(5, 3)), black(PieceKind::ProRook));
    assert_eq!(p.piece_at(sq(5, 5)), None);
    assert_eq!(p.hand(Piece::new(PieceKind::Silver, Color::Black)), Some(1));
    assert_eq!(p.side_to_move(), Color::White);
    assert_eq!(p.ply(), 2);
    assert_eq!(p.last_move(), Some(normal(sq(5, 5), sq(5, 3), true)));
    // White has nothing on 5c any more and nothing in hand.
    let before = p;
    assert_eq!(p.make_move(normal(sq(5, 3), sq(5, 4), false)), None);
    assert_eq!(p, before);
    let drop = Move::Drop { piece: Piece::new(PieceKind::Pawn, Color::White), to: sq(1, 1) };
    assert_eq!(p.make_move(drop), None);
    assert_eq!(p, before);
}

#[test]
fn pawn_moves_are_correct() {
    let position = PartialPosition::startpos();
    let pawn = Piece::new(PieceKind::Pawn, Color::Black);
    let attacking = attacking(&position, pawn, sq(7, 7));
    assert_eq!(attacking, single(7, 6));
    for color in Color::all() {
        for square in Square::all() {
            let result = short_range(PieceKind::Pawn, color, square);
            if square.relative_rank(color) == 1 {
                assert_eq!(result.count(), 0);
                continue;
            }
            assert_eq!(result.count(), 1);
        }
    }
    for square in Square::all() {
        let result_black = short_range(PieceKind::Pawn, Color::Black, square);
        let result_white = short_range(PieceKind::Pawn, Color::White, square.flip());
        assert_eq!(result_white.flip(), result_black);
    }
}

#[test]
fn knight_moves_are_correct() {
    let mut position = PartialPosition::startpos();
    let moves = [normal(sq(7, 7), sq(7, 6), false), normal(sq(3, 3), sq(3, 4), false)];
    for mv in moves {
        position.make_move(mv).unwrap();
    }
    let knight = Piece::new(PieceKind::Knight, Color::Black);
    let attacking = attacking(&position, knight, sq(8, 9));
    assert_eq!(attacking, single(7, 7));
}

#[test]
fn silver_moves_are_correct() {
    let position = PartialPosition::startpos();
    let silver = Piece::new(PieceKind::Silver, Color::Black);
    let attacking = attacking(&position, silver, sq(3, 9));
    assert_eq!(attacking, single(3, 8).or(single(4, 8)));

    let expected = single(7, 2).or(single(9, 2));
    assert_eq!(short_range(PieceKind::Silver, Color::Black, sq(8, 1)), expected);
    let expected = single(7, 2).or(single(8, 2)).or(single(9, 2));
    assert_eq!(short_range(PieceKind::Silver, Color::White, sq(8, 1)), expected);

    for color in Color::all() {
        for square in Square::all() {
            assert!(short_range(PieceKind::Silver, color, square).count() <= 5);
        }
    }
    for square in Square::all() {
        let result_black = short_range(PieceKind::Silver, Color::Black, square);
        let result_white = short_range(PieceKind::Silver, Color::White, square.flip());
        assert_eq!(result_white.flip(), result_black);
    }
}

#[test]
fn gold_moves_are_correct() {
    let position = PartialPosition::startpos();
    let gold = Piece::new(PieceKind::Gold, Color::Black);
    let attacking = attacking(&position, gold, sq(4, 9));
    assert_eq!(attacking, single(3, 8).or(single(4, 8)).or(single(5, 8)));

    let expected = single(7, 1).or(single(8, 2)).or(single(9, 1));
    assert_eq!(short_range(PieceKind::Gold, Color::Black, sq(8, 1)), expected);
    let expected = single(7, 1).or(single(7, 2)).or(single(8, 2)).or(single(9, 1)).or(single(9, 2));
    assert_eq!(short_range(PieceKind::Gold, Color::White, sq(8, 1)), expected);

    for color in Color::all() {
        for square in Square::all() {
            assert!(short_range(PieceKind::Gold, color, square).count() <= 6);
        }
    }
    for square in Square::all() {
        let result_black = short_range(PieceKind::Gold, Color::Black, square);
        let result_white = short_range(PieceKind::Gold, Color::White, square.flip());
        assert_eq!(result_white.flip(), result_black);
    }
}

#[test]
fn king_moves_are_correct() {
    let position = PartialPosition::startpos();
    let king = Piece::new(PieceKind::King, Color::Black);
    let attacking = attacking(&position, king, sq(5, 9));
    assert_eq!(attacking, single(4, 8).or(single(5, 8)).or(single(6, 8)));
}

#[test]
fn bishop_moves_are_correct() {
    let mut position = PartialPosition::startpos();
    let moves = [normal(sq(7, 7), sq(7, 6), false), normal(sq(3, 3), sq(3, 4), false)];
    for mv in moves {
        position.make_move(mv).unwrap();
    }
    let bishop = Piece::new(PieceKind::Bishop, Color::Black);
    let attacking = attacking(&position, bishop, sq(8, 8));
    let expected = single(2, 2)
        .or(single(3, 3))
        .or(single(4, 4))
        .or(single(5, 5))
        .or(single(6, 6))
        .or(single(7, 7));
    assert_eq!(attacking, expected);
}

#[test]
fn rook_moves_are_correct() {
    let position = PartialPosition::startpos();
    let rook = Piece::new(PieceKind::Rook, Color::Black);
    let attacking = attacking(&position, rook, sq(2, 8));
    let expected = single(1, 8)
        .or(single(3, 8))
        .or(single(4, 8))
        .or(single(5, 8))
        .or(single(6, 8))
        .or(single(7, 8));
    assert_eq!(attacking, expected);
}

#[test]
fn attack_symmetry_on_sample_boards() {
    let mut position = PartialPosition::startpos();
    position.make_move(normal(sq(7, 7), sq(7, 6), false)).unwrap();
    let occupied = position.vacant_bitboard().not();
    for kind in PieceKind::all() {
        for square in Square::all() {
            let b = short_range(kind, Color::Black, square)
                .or(shogi_lite::normal::slide_range(kind, Color::Black, square, occupied));
            let w = short_range(kind, Color::White, square.flip()).or(
                shogi_lite::normal::slide_range(kind, Color::White, square.flip(), occupied.flip()),
            );
            assert_eq!(b.flip(), w);
        }
    }
}

#[test]
fn first_phase_moves_list_non_promoting_first() {
    let mut p = PartialPosition::empty();
    p.piece_set(sq(2, 8), black(PieceKind::Rook));
    let moves = all_legal_moves(&p);
    let plain = normal(sq(2, 8), sq(2, 3), false);
    let promoting = normal(sq(2, 8), sq(2, 3), true);
    let at = moves.iter().position(|&m| m == plain).unwrap();
    assert_eq!(moves[at + 1], promoting);
    // Outside the promotion zone only the non-promoting form is listed.
    let at = moves.iter().position(|&m| m == normal(sq(2, 8), sq(2, 5), false)).unwrap();
    assert_eq!(moves[at + 1], normal(sq(2, 8), sq(2, 6), false));
    assert_eq!(moves.len(), 16 + 3);
}
