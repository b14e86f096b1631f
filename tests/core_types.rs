use core::mem::size_of;

use shogi_lite::bitboard::Bitboard;
use shogi_lite::color::Color;
use shogi_lite::piece::Piece;
use shogi_lite::piece_kind::{OptionPieceKind, PieceKind};
use shogi_lite::square::Square;

#[test]
fn color_flip_works() {
    let colors = Color::all();
    assert_eq!(colors[0].flip(), colors[1]);
    assert_eq!(colors[1].flip(), colors[0]);
}

#[test]
fn discriminant_elision_works() {
    assert_eq!(size_of::<Option<Color>>(), size_of::<Color>());
    assert_eq!(size_of::<Option<Square>>(), size_of::<Square>());
    assert_eq!(size_of::<Option<PieceKind>>(), size_of::<PieceKind>());
    assert_eq!(size_of::<Option<Piece>>(), size_of::<Piece>());
}

#[test]
fn to_parts_works() {
    let piece_kinds = PieceKind::all();
    let colors = Color::all();
    for &piece_kind in &piece_kinds {
        for &color in &colors {
            let piece = Piece::new(piece_kind, color);
            let (piece_kind0, color0) = piece.to_parts();
            assert_eq!(piece_kind0, piece_kind);
            assert_eq!(color0, color);
        }
    }
}

#[test]
fn new_works() {
    for file in 0..256 {
        for rank in 0..256 {
            let file = file as u8;
            let rank = rank as u8;
            let result = Square::new(file, rank);
            assert_eq!(
                result.is_some(),
                (1..=9).contains(&file) && (1..=9).contains(&rank),
            );
            if let Some(sq) = result {
                assert_eq!(sq.file(), file);
                assert_eq!(sq.rank(), rank);
                assert_eq!(sq.relative_file(Color::Black), file);
                assert_eq!(sq.relative_rank(Color::Black), rank);
                assert_eq!(sq.relative_file(Color::White), 10 - file);
                assert_eq!(sq.relative_rank(Color::White), 10 - rank);
            }
        }
    }
}

#[test]
fn square_flip_works() {
    for file in 1..=9 {
        for rank in 1..=9 {
            let sq = Square::new(file, rank).unwrap();
            assert_eq!(sq.flip(), Square::new(10 - file, 10 - rank).unwrap());
        }
    }
}

#[test]
fn square_index_examples() {
    let sq = Square::new(3, 4).unwrap();
    assert_eq!(sq.file(), 3);
    assert_eq!(sq.rank(), 4);
    assert_eq!(sq.index(), 22);
    assert_eq!(Square::new(1, 1).unwrap().flip(), Square::new(9, 9).unwrap());
    assert_eq!(Square::new(3, 4).unwrap().flip(), Square::new(7, 6).unwrap());
    assert_eq!(Square::from_u8(0), None);
    assert_eq!(Square::from_u8(82), None);
    assert_eq!(Square::from_u8(81), Some(Square::SQ_9I));
    assert_eq!(Square::all().len(), 81);
}

#[test]
fn square_round_trip_and_rejection() {
    for file in 1..=9u8 {
        for rank in 1..=9u8 {
            let sq = Square::new(file, rank).unwrap();
            assert_eq!((sq.file(), sq.rank()), (file, rank));
        }
    }
    assert_eq!(Square::new(0, 5), None);
    assert_eq!(Square::new(10, 5), None);
    assert_eq!(Square::new(5, 0), None);
    assert_eq!(Square::new(5, 10), None);
}

#[test]
fn promotion_pairs() {
    for kind in PieceKind::all() {
        if let Some(p) = kind.promote() {
            assert_eq!(p.unpromote(), Some(kind));
            assert_eq!(p.promote(), None);
        }
    }
    assert_eq!(PieceKind::King.promote(), None);
    assert_eq!(PieceKind::Gold.promote(), None);
    assert_eq!(PieceKind::Pawn.promote(), Some(PieceKind::ProPawn));
    assert_eq!(PieceKind::ProRook.unpromote(), Some(PieceKind::Rook));
    assert_eq!(PieceKind::from_u8(0), None);
    assert_eq!(PieceKind::from_u8(15), None);
    assert_eq!(PieceKind::from_u8(13), Some(PieceKind::ProBishop));
    assert_eq!(OptionPieceKind::from(None).0, 0);
    assert_eq!(OptionPieceKind::from(Some(PieceKind::Rook)).0, 7);
}

fn single(file: u8, rank: u8) -> Bitboard {
    Bitboard::single(Square::new(file, rank).unwrap())
}

#[test]
fn bitboard_algebra() {
    let a = single(1, 1).or(single(5, 5)).or(single(9, 9));
    let b = single(5, 5).or(single(2, 3));
    assert_eq!(a.or(b).and(b.not()), a.and(b.not()));
    assert_eq!(a.or(b).and_not(b), a.and_not(b));
    assert_eq!(a.and_not(b), single(1, 1).or(single(9, 9)));
    assert_eq!(single(4, 7).count(), 1);
    assert_eq!(Bitboard::empty().count(), 0);
    assert_eq!(Bitboard::empty().not().count(), 81);
    assert_eq!(a.count(), 3);
    assert!(Bitboard::empty().is_empty());
    assert!(!a.is_empty());
    assert!(a.contains(Square::new(5, 5).unwrap()));
    assert!(!a.contains(Square::new(2, 3).unwrap()));
    assert_eq!(a.xor(b), single(1, 1).or(single(9, 9)).or(single(2, 3)));
}

#[test]
fn bitboard_iteration_and_flip() {
    let a = single(9, 9).or(single(1, 2)).or(single(3, 4));
    let squares = a.squares();
    assert_eq!(
        squares,
        vec![
            Square::new(1, 2).unwrap(),
            Square::new(3, 4).unwrap(),
            Square::new(9, 9).unwrap()
        ]
    );
    assert_eq!(a.squares(), squares);
    assert_eq!(a.flip(), single(1, 1).or(single(9, 8)).or(single(7, 6)));
    let mut b = a;
    assert_eq!(b.pop(), Some(Square::new(1, 2).unwrap()));
    assert_eq!(b.pop(), Some(Square::new(3, 4).unwrap()));
    assert_eq!(b.pop(), Some(Square::new(9, 9).unwrap()));
    assert_eq!(b.pop(), None);
}
