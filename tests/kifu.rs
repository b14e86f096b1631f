use shogi_lite::color::Color;
use shogi_lite::game::Position;
use shogi_lite::kifu::{display_single_move, display_single_move_kansuji};
use shogi_lite::mv::Move;
use shogi_lite::piece::Piece;
use shogi_lite::piece_kind::PieceKind;
use shogi_lite::position::PartialPosition;
use shogi_lite::square::Square;

#[test]
fn lib_normal_works_0() {
    let pos = PartialPosition::from_usi("sfen 4k4/9/9/8P/9/9/9/4G4/4K4 b G 1").unwrap();
    let mv = Move::Normal {
        from: Square::SQ_5H,
        to: Square::SQ_4H,
        promote: false,
    };
    let result = display_single_move(&pos, mv);
    assert_eq!(result, Some("▲４８金".to_string()));

    let mv = Move::Normal {
        from: Square::SQ_1D,
        to: Square::SQ_1C,
        promote: false,
    };
    let result = display_single_move(&pos, mv);
    assert_eq!(result, Some("▲１３歩不成".to_string()));

    let mv = Move::Normal {
        from: Square::SQ_1D,
        to: Square::SQ_1C,
        promote: true,
    };
    let result = display_single_move(&pos, mv);
    assert_eq!(result, Some("▲１３歩成".to_string()));
}

#[test]
fn lib_normal_works_1() {
    let pos = Position::from_usi("sfen 4k4/9/9/9/9/9/4g4/9/4KG3 w - 2 moves 5g5h").unwrap();
    let mv = Move::Normal {
        from: Square::SQ_4I,
        to: Square::SQ_5H,
        promote: false,
    };
    let result = display_single_move(pos.inner(), mv);
    assert_eq!(result, Some("▲同金".to_string()));

    let pos = Position::from_usi("sfen 4k4/9/9/9/9/9/3gG4/9/4KG3 w - 2 moves 6g5h").unwrap();
    let mv = Move::Normal {
        from: Square::SQ_4I,
        to: Square::SQ_5H,
        promote: false,
    };
    let result = display_single_move(pos.inner(), mv);
    assert_eq!(result, Some("▲同金上".to_string()));
    let mv = Move::Normal {
        from: Square::SQ_5G,
        to: Square::SQ_5H,
        promote: false,
    };
    let result = display_single_move(pos.inner(), mv);
    assert_eq!(result, Some("▲同金引".to_string()));

    let pos = Position::from_usi("sfen 4k4/9/9/9/9/9/9/9/4KG3 w g 2 moves G*5h").unwrap();
    let mv = Move::Normal {
        from: Square::SQ_4I,
        to: Square::SQ_5H,
        promote: false,
    };
    let result = display_single_move(pos.inner(), mv);
    assert_eq!(result, Some("▲同金".to_string()));
}

#[test]
fn lib_normal_works_2() {
    // Examples found in https://www.shogi.or.jp/faq/kihuhyouki.html.
    let pos = PartialPosition::from_usi("sfen 4k4/2G6/G8/9/9/9/9/9/4K4 b - 1").unwrap(); // A
    let mv = Move::Normal {
        from: Square::SQ_7B,
        to: Square::SQ_8B,
        promote: false,
    };
    let result = display_single_move(&pos, mv);
    assert_eq!(result, Some("▲８２金寄".to_string()));
    let mv = Move::Normal {
        from: Square::SQ_9C,
        to: Square::SQ_8B,
        promote: false,
    };
    let result = display_single_move(&pos, mv);
    assert_eq!(result, Some("▲８２金上".to_string()));

    let pos = PartialPosition::from_usi("sfen 4k1G2/9/5G3/9/9/9/9/9/4K4 b - 1").unwrap(); // B
    let mv = Move::Normal {
        from: Square::SQ_4C,
        to: Square::SQ_3B,
        promote: false,
    };
    let result = display_single_move(&pos, mv);
    assert_eq!(result, Some("▲３２金上".to_string()));
    let mv = Move::Normal {
        from: Square::SQ_3A,
        to: Square::SQ_3B,
        promote: false,
    };
    let result = display_single_move(&pos, mv);
    assert_eq!(result, Some("▲３２金引".to_string()));

    let pos = PartialPosition::from_usi("sfen 4k4/9/9/9/5G3/4G4/2S4S1/9/1S2KS3 b - 1").unwrap(); // C, D, E
    let mv = Move::Normal {
        from: Square::SQ_5F,
        to: Square::SQ_5E,
        promote: false,
    };
    let result = display_single_move(&pos, mv);
    assert_eq!(result, Some("▲５５金上".to_string()));
    let mv = Move::Normal {
        from: Square::SQ_4E,
        to: Square::SQ_5E,
        promote: false,
    };
    let result = display_single_move(&pos, mv);
    assert_eq!(result, Some("▲５５金寄".to_string()));
    let mv = Move::Normal {
        from: Square::SQ_8I,
        to: Square::SQ_8H,
        promote: false,
    };
    let result = display_single_move(&pos, mv);
    assert_eq!(result, Some("▲８８銀上".to_string()));
    let mv = Move::Normal {
        from: Square::SQ_7G,
        to: Square::SQ_8H,
        promote: false,
    };
    let result = display_single_move(&pos, mv);
    assert_eq!(result, Some("▲８８銀引".to_string()));
    let mv = Move::Normal {
        from: Square::SQ_4I,
        to: Square::SQ_3H,
        promote: false,
    };
    let result = display_single_move(&pos, mv);
    assert_eq!(result, Some("▲３８銀上".to_string()));
    let mv = Move::Normal {
        from: Square::SQ_2G,
        to: Square::SQ_3H,
        promote: false,
    };
    let result = display_single_move(&pos, mv);
    assert_eq!(result, Some("▲３８銀引".to_string()));
}

#[test]
fn lib_normal_works_3() {
    // Examples found in https://www.shogi.or.jp/faq/kihuhyouki.html.
    let pos = PartialPosition::from_usi("sfen 4k4/G1G3G1G/9/9/3S1S3/9/9/9/4K4 b - 1").unwrap(); // A, B, C
    let mv = Move::Normal {
        from: Square::SQ_9B,
        to: Square::SQ_8A,
        promote: false,
    };
    let result = display_single_move(&pos, mv);
    assert_eq!(result, Some("▲８１金左".to_string()));
    let mv = Move::Normal {
        from: Square::SQ_7B,
        to: Square::SQ_8A,
        promote: false,
    };
    let result = display_single_move(&pos, mv);
    assert_eq!(result, Some("▲８１金右".to_string()));
    let mv = Move::Normal {
        from: Square::SQ_3B,
        to: Square::SQ_2B,
        promote: false,
    };
    let result = display_single_move(&pos, mv);
    assert_eq!(result, Some("▲２２金左".to_string()));
    let mv = Move::Normal {
        from: Square::SQ_1B,
        to: Square::SQ_2B,
        promote: false,
    };
    let result = display_single_move(&pos, mv);
    assert_eq!(result, Some("▲２２金右".to_string()));
    let mv = Move::Normal {
        from: Square::SQ_6E,
        to: Square::SQ_5F,
        promote: false,
    };
    let result = display_single_move(&pos, mv);
    assert_eq!(result, Some("▲５６銀左".to_string()));
    let mv = Move::Normal {
        from: Square::SQ_4E,
        to: Square::SQ_5F,
        promote: false,
    };
    let result = display_single_move(&pos, mv);
    assert_eq!(result, Some("▲５６銀右".to_string()));

    let pos = PartialPosition::from_usi("sfen 4k4/9/9/9/9/9/9/9/1GG1K1SS1 b - 1").unwrap(); // D, E
    let mv = Move::Normal {
        from: Square::SQ_8I,
        to: Square::SQ_7H,
        promote: false,
    };
    let result = display_single_move(&pos, mv);
    assert_eq!(result, Some("▲７８金左".to_string()));
    let mv = Move::Normal {
        from: Square::SQ_7I,
        to: Square::SQ_7H,
        promote: false,
    };
    let result = display_single_move(&pos, mv);
    assert_eq!(result, Some("▲７８金直".to_string()));
    let mv = Move::Normal {
        from: Square::SQ_3I,
        to: Square::SQ_3H,
        promote: false,
    };
    let result = display_single_move(&pos, mv);
    assert_eq!(result, Some("▲３８銀直".to_string()));
    let mv = Move::Normal {
        from: Square::SQ_2I,
        to: Square::SQ_3H,
        promote: false,
    };
    let result = display_single_move(&pos, mv);
    assert_eq!(result, Some("▲３８銀右".to_string()));
}

#[test]
fn lib_normal_works_4() {
    // Examples found in https://www.shogi.or.jp/faq/kihuhyouki.html.
    let pos =
        PartialPosition::from_usi("sfen 4k4/9/3GGG3/9/9/9/1+P4S1S/+P8/+P+P+P1K1SS1 b - 1")
            .unwrap(); // A, B, C
    let mv = Move::Normal {
        from: Square::SQ_6C,
        to: Square::SQ_5B,
        promote: false,
    };
    let result = display_single_move(&pos, mv);
    assert_eq!(result, Some("▲５２金左".to_string()));
    let mv = Move::Normal {
        from: Square::SQ_5C,
        to: Square::SQ_5B,
        promote: false,
    };
    let result = display_single_move(&pos, mv);
    assert_eq!(result, Some("▲５２金直".to_string()));
    let mv = Move::Normal {
        from: Square::SQ_4C,
        to: Square::SQ_5B,
        promote: false,
    };
    let result = display_single_move(&pos, mv);
    assert_eq!(result, Some("▲５２金右".to_string()));
    let mv = Move::Normal {
        from: Square::SQ_7I,
        to: Square::SQ_8H,
        promote: false,
    };
    let result = display_single_move(&pos, mv);
    assert_eq!(result, Some("▲８８と右".to_string()));
    let mv = Move::Normal {
        from: Square::SQ_8I,
        to: Square::SQ_8H,
        promote: false,
    };
    let result = display_single_move(&pos, mv);
    assert_eq!(result, Some("▲８８と直".to_string()));
    let mv = Move::Normal {
        from: Square::SQ_9I,
        to: Square::SQ_8H,
        promote: false,
    };
    let result = display_single_move(&pos, mv);
    assert_eq!(result, Some("▲８８と左上".to_string()));
    let mv = Move::Normal {
        from: Square::SQ_9H,
        to: Square::SQ_8H,
        promote: false,
    };
    let result = display_single_move(&pos, mv);
    assert_eq!(result, Some("▲８８と寄".to_string()));
    let mv = Move::Normal {
        from: Square::SQ_8G,
        to: Square::SQ_8H,
        promote: false,
    };
    let result = display_single_move(&pos, mv);
    assert_eq!(result, Some("▲８８と引".to_string()));
    let mv = Move::Normal {
        from: Square::SQ_2I,
        to: Square::SQ_2H,
        promote: false,
    };
    let result = display_single_move(&pos, mv);
    assert_eq!(result, Some("▲２８銀直".to_string()));
    let mv = Move::Normal {
        from: Square::SQ_1G,
        to: Square::SQ_2H,
        promote: false,
    };
    let result = display_single_move(&pos, mv);
    assert_eq!(result, Some("▲２８銀右".to_string()));
    let mv = Move::Normal {
        from: Square::SQ_3I,
        to: Square::SQ_2H,
        promote: false,
    };
    let result = display_single_move(&pos, mv);
    assert_eq!(result, Some("▲２８銀左上".to_string()));
    let mv = Move::Normal {
        from: Square::SQ_3G,
        to: Square::SQ_2H,
        promote: false,
    };
    let result = display_single_move(&pos, mv);
    assert_eq!(result, Some("▲２８銀左引".to_string()));
}

#[test]
fn lib_normal_works_5() {
    // Examples found in https://www.shogi.or.jp/faq/kihuhyouki.html.
    let pos = PartialPosition::from_usi("sfen +R8/9/9/1+R7/9/9/9/9/4K1k2 b - 1").unwrap();
    let mv = Move::Normal {
        from: Square::SQ_9A,
        to: Square::SQ_8B,
        promote: false,
    };
    let result = display_single_move(&pos, mv);
    assert_eq!(result, Some("▲８２竜引".to_string()));
    let mv = Move::Normal {
        from: Square::SQ_8D,
        to: Square::SQ_8B,
        promote: false,
    };
    let result = display_single_move(&pos, mv);
    assert_eq!(result, Some("▲８２竜上".to_string()));
    let pos = PartialPosition::from_usi("sfen 9/4+R4/7+R1/9/9/9/9/9/2k1K4 b - 1").unwrap();
    let mv = Move::Normal {
        from: Square::SQ_2C,
        to: Square::SQ_4C,
        promote: false,
    };
    let result = display_single_move(&pos, mv);
    assert_eq!(result, Some("▲４３竜寄".to_string()));
    let mv = Move::Normal {
        from: Square::SQ_5B,
        to: Square::SQ_4C,
        promote: false,
    };
    let result = display_single_move(&pos, mv);
    assert_eq!(result, Some("▲４３竜引".to_string()));
    let pos = PartialPosition::from_usi("sfen 9/9/9/9/4+R3+R/9/9/9/2k1K4 b - 1").unwrap();
    let mv = Move::Normal {
        from: Square::SQ_5E,
        to: Square::SQ_3E,
        promote: false,
    };
    let result = display_single_move(&pos, mv);
    assert_eq!(result, Some("▲３５竜左".to_string()));
    let mv = Move::Normal {
        from: Square::SQ_1E,
        to: Square::SQ_3E,
        promote: false,
    };
    let result = display_single_move(&pos, mv);
    assert_eq!(result, Some("▲３５竜右".to_string()));
    let pos = PartialPosition::from_usi("sfen 9/9/9/9/9/9/9/9/+R+R2K1k2 b - 1").unwrap();
    let mv = Move::Normal {
        from: Square::SQ_9I,
        to: Square::SQ_8H,
        promote: false,
    };
    let result = display_single_move(&pos, mv);
    assert_eq!(result, Some("▲８８竜左".to_string()));
    let mv = Move::Normal {
        from: Square::SQ_8I,
        to: Square::SQ_8H,
        promote: false,
    };
    let result = display_single_move(&pos, mv);
    assert_eq!(result, Some("▲８８竜右".to_string()));
    let pos = PartialPosition::from_usi("sfen 9/9/9/9/9/9/9/7+R1/2k1K3+R b - 1").unwrap();
    let mv = Move::Normal {
        from: Square::SQ_2H,
        to: Square::SQ_1G,
        promote: false,
    };
    let result = display_single_move(&pos, mv);
    assert_eq!(result, Some("▲１７竜左".to_string()));
    let mv = Move::Normal {
        from: Square::SQ_1I,
        to: Square::SQ_1G,
        promote: false,
    };
    let result = display_single_move(&pos, mv);
    assert_eq!(result, Some("▲１７竜右".to_string()));
}

#[test]
fn lib_normal_works_6() {
    // Examples found in https://www.shogi.or.jp/faq/kihuhyouki.html.
    let pos = PartialPosition::from_usi("sfen +B+B7/9/9/9/9/9/9/9/4K1k2 b - 1").unwrap();
    let mv = Move::Normal {
        from: Square::SQ_9A,
        to: Square::SQ_8B,
        promote: false,
    };
    let result = display_single_move(&pos, mv);
    assert_eq!(result, Some("▲８２馬左".to_string()));
    let mv = Move::Normal {
        from: Square::SQ_8A,
        to: Square::SQ_8B,
        promote: false,
    };
    let result = display_single_move(&pos, mv);
    assert_eq!(result, Some("▲８２馬右".to_string()));
    let pos = PartialPosition::from_usi("sfen 9/9/3+B5/9/+B8/9/9/9/4K1k2 b - 1").unwrap();
    let mv = Move::Normal {
        from: Square::SQ_9E,
        to: Square::SQ_8E,
        promote: false,
    };
    let result = display_single_move(&pos, mv);
    assert_eq!(result, Some("▲８５馬寄".to_string()));
    let mv = Move::Normal {
        from: Square::SQ_6C,
        to: Square::SQ_8E,
        promote: false,
    };
    let result = display_single_move(&pos, mv);
    assert_eq!(result, Some("▲８５馬引".to_string()));
    let pos = PartialPosition::from_usi("sfen 8+B/9/9/6+B2/9/9/9/9/4K1k2 b - 1").unwrap();
    let mv = Move::Normal {
        from: Square::SQ_1A,
        to: Square::SQ_1B,
        promote: false,
    };
    let result = display_single_move(&pos, mv);
    assert_eq!(result, Some("▲１２馬引".to_string()));
    let mv = Move::Normal {
        from: Square::SQ_3D,
        to: Square::SQ_1B,
        promote: false,
    };
    let result = display_single_move(&pos, mv);
    assert_eq!(result, Some("▲１２馬上".to_string()));
    let pos = PartialPosition::from_usi("sfen 9/9/9/9/9/9/9/9/+B3+BK1k1 b - 1").unwrap();
    let mv = Move::Normal {
        from: Square::SQ_9I,
        to: Square::SQ_7G,
        promote: false,
    };
    let result = display_single_move(&pos, mv);
    assert_eq!(result, Some("▲７７馬左".to_string()));
    let mv = Move::Normal {
        from: Square::SQ_5I,
        to: Square::SQ_7G,
        promote: false,
    };
    let result = display_single_move(&pos, mv);
    assert_eq!(result, Some("▲７７馬右".to_string()));
    let pos = PartialPosition::from_usi("sfen 9/9/9/9/9/9/5+B3/8+B/2k1K4 b - 1").unwrap();
    let mv = Move::Normal {
        from: Square::SQ_4G,
        to: Square::SQ_2I,
        promote: false,
    };
    let result = display_single_move(&pos, mv);
    assert_eq!(result, Some("▲２９馬左".to_string()));
    let mv = Move::Normal {
        from: Square::SQ_1H,
        to: Square::SQ_2I,
        promote: false,
    };
    let result = display_single_move(&pos, mv);
    assert_eq!(result, Some("▲２９馬右".to_string()));
}

#[test]
fn lib_drop_works_0() {
    let pos = PartialPosition::from_usi("sfen 4k4/9/9/9/9/9/9/4G4/4K4 b G 1").unwrap();
    let mv = Move::Drop {
        to: Square::SQ_4H,
        piece: Piece::new(PieceKind::Gold, Color::Black),
    };
    let result = display_single_move(&pos, mv);
    assert_eq!(result, Some("▲４８金打".to_string()));
}

#[test]
fn lib_drop_works_1() {
    let pos = PartialPosition::from_usi("sfen 4k4/9/9/9/9/9/9/9/4K4 b G 1").unwrap();
    let mv = Move::Drop {
        to: Square::SQ_4H,
        piece: Piece::new(PieceKind::Gold, Color::Black),
    };
    let result = display_single_move(&pos, mv);
    assert_eq!(result, Some("▲４８金".to_string()));
}

#[test]
fn kansuji_works() {
    let pos = PartialPosition::from_usi("sfen 4k4/9/9/8P/9/9/9/4G4/4K4 b G 1").unwrap();
    let mv = Move::Normal {
        from: Square::SQ_5H,
        to: Square::SQ_4H,
        promote: false,
    };
    assert_eq!(display_single_move_kansuji(&pos, mv), Some("▲４八金".to_string()));
    let mv = Move::Drop {
        to: Square::SQ_4H,
        piece: Piece::new(PieceKind::Gold, Color::Black),
    };
    assert_eq!(display_single_move_kansuji(&pos, mv), Some("▲４八金打".to_string()));
}

#[test]
fn empty_origin_is_not_described() {
    let pos = PartialPosition::startpos();
    let mv = Move::Normal {
        from: Square::SQ_5E,
        to: Square::SQ_5D,
        promote: false,
    };
    assert_eq!(display_single_move(&pos, mv), None);
}

#[test]
fn white_moves_use_white_mark() {
    let pos = PartialPosition::from_usi("sfen 4k4/9/9/9/9/9/9/9/4K4 w - 1").unwrap();
    let mv = Move::Normal {
        from: Square::SQ_5A,
        to: Square::SQ_5B,
        promote: false,
    };
    assert_eq!(display_single_move(&pos, mv), Some("△５２玉".to_string()));
}
