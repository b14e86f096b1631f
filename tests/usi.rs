use shogi_lite::color::Color;
use shogi_lite::game::Position;
use shogi_lite::mv::Move;
use shogi_lite::piece::Piece;
use shogi_lite::piece_kind::PieceKind;
use shogi_lite::position::PartialPosition;
use shogi_lite::square::Square;
use shogi_lite::usi::{hands_at, Error};

#[test]
fn negative() {
    let result = Move::from_usi("P*9j");
    assert!(matches!(result, Err(Error::InvalidInput { from: 2, to: 4, .. }),));

    let result = Move::from_usi("P+3d");
    assert!(matches!(result, Err(Error::InvalidInput { from: 0, to: 2, .. }),));
}

#[test]
fn from_usi_slice_exhaustive() {
    for file in 0..=255 {
        for rank in 0..=255 {
            let _ = Square::parse_usi_slice(&[file, rank]);
        }
    }
}

#[test]
fn from_usi_positive() {
    for square in Square::all() {
        let file = b'0' + square.file();
        let rank = b'a' + square.rank() - 1;
        assert_eq!(
            Square::from_usi(&String::from_utf8(vec![file, rank]).unwrap()).ok(),
            Some(square),
        );
    }
}

#[test]
fn positive() {
    let tests: [(&[u8], _); 28] = [
        (b"P", Piece::new(PieceKind::Pawn, Color::Black)),
        (b"L", Piece::new(PieceKind::Lance, Color::Black)),
        (b"N", Piece::new(PieceKind::Knight, Color::Black)),
        (b"S", Piece::new(PieceKind::Silver, Color::Black)),
        (b"G", Piece::new(PieceKind::Gold, Color::Black)),
        (b"B", Piece::new(PieceKind::Bishop, Color::Black)),
        (b"R", Piece::new(PieceKind::Rook, Color::Black)),
        (b"K", Piece::new(PieceKind::King, Color::Black)),
        (b"+P", Piece::new(PieceKind::ProPawn, Color::Black)),
        (b"+L", Piece::new(PieceKind::ProLance, Color::Black)),
        (b"+N", Piece::new(PieceKind::ProKnight, Color::Black)),
        (b"+S", Piece::new(PieceKind::ProSilver, Color::Black)),
        (b"+B", Piece::new(PieceKind::ProBishop, Color::Black)),
        (b"+R", Piece::new(PieceKind::ProRook, Color::Black)),
        (b"p", Piece::new(PieceKind::Pawn, Color::White)),
        (b"l", Piece::new(PieceKind::Lance, Color::White)),
        (b"n", Piece::new(PieceKind::Knight, Color::White)),
        (b"s", Piece::new(PieceKind::Silver, Color::White)),
        (b"g", Piece::new(PieceKind::Gold, Color::White)),
        (b"b", Piece::new(PieceKind::Bishop, Color::White)),
        (b"r", Piece::new(PieceKind::Rook, Color::White)),
        (b"k", Piece::new(PieceKind::King, Color::White)),
        (b"+p", Piece::new(PieceKind::ProPawn, Color::White)),
        (b"+l", Piece::new(PieceKind::ProLance, Color::White)),
        (b"+n", Piece::new(PieceKind::ProKnight, Color::White)),
        (b"+s", Piece::new(PieceKind::ProSilver, Color::White)),
        (b"+b", Piece::new(PieceKind::ProBishop, Color::White)),
        (b"+r", Piece::new(PieceKind::ProRook, Color::White)),
    ];
    for (slice, piece) in tests {
        assert_eq!(Piece::parse_usi_slice(slice).unwrap(), (slice.len(), piece));
    }
}

#[test]
fn piece_rejections() {
    assert!(Piece::from_usi("Q").is_err());
    assert!(Piece::from_usi("+K").is_err());
    assert!(Piece::from_usi("+").is_err());
    assert!(Piece::from_usi("").is_err());
    assert_eq!(Piece::from_usi("+B").ok(), Some(Piece::new(PieceKind::ProBishop, Color::Black)));
    assert_eq!(Piece::from_usi("l").ok(), Some(Piece::new(PieceKind::Lance, Color::White)));
}

#[test]
fn color_and_square_examples() {
    assert_eq!(Color::from_usi("b").ok(), Some(Color::Black));
    assert_eq!(Color::from_usi("w").ok(), Some(Color::White));
    assert!(Color::from_usi("B").is_err());
    assert_eq!(Square::from_usi("7g").ok(), Square::new(7, 7));
    assert!(Square::from_usi("9j").is_err());
    assert!(Square::from_usi("0g").is_err());
    assert!(matches!(Square::from_usi("7g7"), Err(Error::Extra { from: 2 })));
}

#[test]
fn move_examples() {
    assert_eq!(
        Move::from_usi("7g7f").ok(),
        Some(Move::Normal { from: Square::new(7, 7).unwrap(), to: Square::new(7, 6).unwrap(), promote: false })
    );
    assert_eq!(
        Move::from_usi("8h2b+").ok(),
        Some(Move::Normal { from: Square::new(8, 8).unwrap(), to: Square::new(2, 2).unwrap(), promote: true })
    );
    assert_eq!(
        Move::from_usi("P*3d").ok(),
        Some(Move::Drop { piece: Piece::new(PieceKind::Pawn, Color::Black), to: Square::new(3, 4).unwrap() })
    );
    assert!(Move::from_usi("p*3d").is_err());
}

#[test]
fn hand_examples() {
    let (n, hands) = hands_at(b"RG4P2b2s3p", 0).unwrap();
    assert_eq!(n, 10);
    assert_eq!(hands[0].count(PieceKind::Rook), Some(1));
    assert_eq!(hands[0].count(PieceKind::Gold), Some(1));
    assert_eq!(hands[0].count(PieceKind::Silver), Some(0));
    assert_eq!(hands[0].count(PieceKind::Pawn), Some(4));
    assert_eq!(hands[1].count(PieceKind::Bishop), Some(2));
    assert_eq!(hands[1].count(PieceKind::Silver), Some(2));
    assert_eq!(hands[1].count(PieceKind::Pawn), Some(3));
    assert_eq!(hands[0].count(PieceKind::King), None);

    let (_, hands) = hands_at(b"18p", 0).unwrap();
    assert_eq!(hands[1].count(PieceKind::Pawn), Some(18));

    let (_, hands) = hands_at(b"PNSP", 0).unwrap();
    assert_eq!(hands[0].count(PieceKind::Silver), Some(1));
    assert_eq!(hands[0].count(PieceKind::Knight), Some(1));
    assert_eq!(hands[0].count(PieceKind::Pawn), Some(2));

    let (n, hands) = hands_at(b"-", 0).unwrap();
    assert_eq!(n, 1);
    assert_eq!(hands[0].count(PieceKind::Silver), Some(0));
    assert!(hands_at(b"", 0).is_err());
}

#[test]
fn position_examples() {
    let position = PartialPosition::from_usi(
        "sfen lnsgkgsnl/1r5b1/ppppppppp/9/9/9/PPPPPPPPP/1B5R1/LNSGKGSNL b - 101",
    )
    .unwrap();
    assert_eq!(position.ply(), 101);

    let position = PartialPosition::from_usi(
        "sfen  lnsgkgsnl/1r5b1/ppppppppp/9/9/9/PPPPPPPPP/1B5R1/LNSGKGSNL b -",
    )
    .unwrap();
    assert_eq!(position.ply(), 1);
    assert_eq!(position, PartialPosition::startpos());

    let position = PartialPosition::from_usi("startpos").unwrap();
    assert_eq!(position, PartialPosition::startpos());
    assert!(PartialPosition::from_usi("sfen 9/9/9 b - 1").is_err());
}

#[test]
fn game_examples() {
    let position = Position::from_usi(
        "sfen lnsgkgsnl/1r5b1/ppppppppp/9/9/9/PPPPPPPPP/1B5R1/LNSGKGSNL b - 101 moves 7g7f",
    )
    .unwrap();
    assert_eq!(position.ply(), 101 + 1);

    let position = Position::from_usi(
        "sfen lnsgkgsnl/1r5b1/ppppppppp/9/9/9/PPPPPPPPP/1B5R1/LNSGKGSNL b -  moves  7g7f",
    )
    .unwrap();
    assert_eq!(position.ply(), 1 + 1);
    assert_eq!(position.initial_position(), &PartialPosition::startpos());

    let position = Position::from_usi("startpos moves 7g7f 3c3d 8h2b+ 3a2b").unwrap();
    assert_eq!(position.initial_position(), &PartialPosition::startpos());
    assert_eq!(position.moves().len(), 4);
    assert_eq!(position.side_to_move(), Color::Black);
}
