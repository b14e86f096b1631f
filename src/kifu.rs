use vstd::prelude::*;

use crate::color::Color;
use crate::disambiguation::{run, words};
use crate::legality::{LegalityChecker, LiteLegalityChecker};
use crate::mv::Move;
use crate::piece::Piece;
use crate::piece_kind::PieceKind;
use crate::position::{PartialPosition, PositionModel};
use crate::prelegality::legal;
use crate::square::{lemma_index_square, relative, square_of, Square};

verus! {

/// The name of a kind in kifu notation.
pub open spec fn kanji(kind: PieceKind) -> &'static str {
    match kind {
        PieceKind::King => "玉",
        PieceKind::Rook => "飛",
        PieceKind::Bishop => "角",
        PieceKind::Gold => "金",
        PieceKind::Silver => "銀",
        PieceKind::Knight => "桂",
        PieceKind::Lance => "香",
        PieceKind::Pawn => "歩",
        PieceKind::ProRook => "竜",
        PieceKind::ProBishop => "馬",
        PieceKind::ProSilver => "成銀",
        PieceKind::ProKnight => "成桂",
        PieceKind::ProLance => "成香",
        PieceKind::ProPawn => "と",
    }
}

/// The mark of the player to move: `▲` for Black, `△` for White.
pub open spec fn side_mark(c: Color) -> &'static str {
    match c {
        Color::Black => "▲",
        Color::White => "△",
    }
}

/// A full-width digit, for `n` in `1..=9`.
pub open spec fn wide_digit(n: int) -> &'static str {
    if n == 1 {
        "１"
    } else if n == 2 {
        "２"
    } else if n == 3 {
        "３"
    } else if n == 4 {
        "４"
    } else if n == 5 {
        "５"
    } else if n == 6 {
        "６"
    } else if n == 7 {
        "７"
    } else if n == 8 {
        "８"
    } else {
        "９"
    }
}

/// A numeral in kanji, for `n` in `1..=9`.
pub open spec fn kanji_digit(n: int) -> &'static str {
    if n == 1 {
        "一"
    } else if n == 2 {
        "二"
    } else if n == 3 {
        "三"
    } else if n == 4 {
        "四"
    } else if n == 5 {
        "五"
    } else if n == 6 {
        "六"
    } else if n == 7 {
        "七"
    } else if n == 8 {
        "八"
    } else {
        "九"
    }
}

/// Whether a normal move to `to` lands where the last move landed (`同`).
pub open spec fn same_square(m: PositionModel, mv: Move) -> bool {
    match mv {
        Move::Normal { to, .. } => match m.last_move {
            Some(last) => last.to_spec() == to,
            None => false,
        },
        Move::Drop { .. } => false,
    }
}

/// The squares from which a piece `p` can legally move to `to`.
pub open spec fn movers(m: PositionModel, to: Square, p: Piece) -> Set<int> {
    Set::new(
        |i: int|
            1 <= i <= 81 && m.at(i) == Some(p) && (legal(
                m,
                Move::Normal { from: square_of(i), to, promote: true },
            ) || legal(m, Move::Normal { from: square_of(i), to, promote: false })),
    )
}

/// The mark of the side to move, then `同` for a move that lands where the last move
/// did, or else the destination's file as a full-width digit and its rank as a
/// full-width digit or (with `kansuji`) a kanji numeral.
pub open spec fn header(m: PositionModel, mv: Move, kansuji: bool) -> Seq<char> {
    if same_square(m, mv) {
        side_mark(m.side)@ + "同"@
    } else {
        let to = mv.to_spec();
        side_mark(m.side)@ + wide_digit(to.file_spec())@ + (if kansuji {
            kanji_digit(to.rank_spec())
        } else {
            wide_digit(to.rank_spec())
        })@
    }
}

/// `成` for a promotion, `不成` for a move that could promote but does not.
pub open spec fn promotion_word(
    m: PositionModel,
    kind: PieceKind,
    from: Square,
    to: Square,
    promote: bool,
) -> Seq<char> {
    if promote {
        "成"@
    } else if kind.promote_spec().is_some() && (relative(from.rank_spec(), m.side) <= 3
        || relative(to.rank_spec(), m.side) <= 3) {
        "不成"@
    } else {
        Seq::empty()
    }
}

/// What follows the header: the name of the piece, then for a normal move the words
/// that single it out among the pieces of its kind and owner that can also move there
/// and its promotion word, and for a drop `打` where such a piece on the board could
/// also move there. `None` where `from` is empty or nothing singles the piece out.
pub open spec fn body(m: PositionModel, mv: Move) -> Option<Seq<char>> {
    match mv {
        Move::Normal { from, to, promote } => match m.at(from.idx()) {
            None => None,
            Some(p) => match words(m, from.idx(), to.idx(), movers(m, to, p)) {
                None => None,
                Some(w) => Some(kanji(p.kind)@ + w + promotion_word(m, p.kind, from, to, promote)),
            },
        },
        Move::Drop { piece, to } => Some(
            kanji(piece.kind)@ + if movers(m, to, Piece { kind: piece.kind, color: m.side })
                != Set::<int>::empty() {
                "打"@
            } else {
                Seq::<char>::empty()
            },
        ),
    }
}

/// The kifu notation of `mv` in `m`; `None` where the move cannot be described.
pub open spec fn notation(m: PositionModel, mv: Move, kansuji: bool) -> Option<Seq<char>> {
    match body(m, mv) {
        None => None,
        Some(b) => Some(header(m, mv, kansuji) + b),
    }
}

proof fn lemma_movers(position: &PartialPosition, to: Square, p: Piece, b: crate::bitboard::Bitboard)
    requires
        forall|from: Square|
            #[trigger] b@.contains(from.idx()) <==> (position@.at(from.idx()) == Some(p) && (legal(
                position@,
                Move::Normal { from, to, promote: true },
            ) || legal(position@, Move::Normal { from, to, promote: false }))),
        forall|i: int| b@.contains(i) ==> 1 <= i <= 81,
    ensures
        b@ == movers(position@, to, p),
{
    assert forall|i: int| #[trigger] b@.contains(i) == movers(position@, to, p).contains(i) by {
        if 1 <= i <= 81 {
            lemma_index_square(i);
            assert(b@.contains(square_of(i).idx()) == b@.contains(i));
        }
    }
    assert(b@ =~= movers(position@, to, p));
}

/// The name of `piece_kind` in kifu notation.
pub fn piece_kind_to_kanji(piece_kind: PieceKind) -> (r: &'static str)
    ensures
        r == kanji(piece_kind),
{
    match piece_kind {
        PieceKind::King => "玉",
        PieceKind::Rook => "飛",
        PieceKind::Bishop => "角",
        PieceKind::Gold => "金",
        PieceKind::Silver => "銀",
        PieceKind::Knight => "桂",
        PieceKind::Lance => "香",
        PieceKind::Pawn => "歩",
        PieceKind::ProRook => "竜",
        PieceKind::ProBishop => "馬",
        PieceKind::ProSilver => "成銀",
        PieceKind::ProKnight => "成桂",
        PieceKind::ProLance => "成香",
        PieceKind::ProPawn => "と",
    }
}

/// Whether `piece_kind` can promote.
pub fn is_promotable_piece(piece_kind: PieceKind) -> (r: bool)
    ensures
        r == piece_kind.promote_spec().is_some(),
{
    piece_kind.promote().is_some()
}

fn wide_digit_exec(n: u8) -> (r: &'static str)
    ensures
        r == wide_digit(n as int),
{
    if n == 1 {
        "１"
    } else if n == 2 {
        "２"
    } else if n == 3 {
        "３"
    } else if n == 4 {
        "４"
    } else if n == 5 {
        "５"
    } else if n == 6 {
        "６"
    } else if n == 7 {
        "７"
    } else if n == 8 {
        "８"
    } else {
        "９"
    }
}

fn kanji_digit_exec(n: u8) -> (r: &'static str)
    ensures
        r == kanji_digit(n as int),
{
    if n == 1 {
        "一"
    } else if n == 2 {
        "二"
    } else if n == 3 {
        "三"
    } else if n == 4 {
        "四"
    } else if n == 5 {
        "五"
    } else if n == 6 {
        "六"
    } else if n == 7 {
        "七"
    } else if n == 8 {
        "八"
    } else {
        "九"
    }
}

/// Writes the mark of the side to move, and `同` where the move lands where the last
/// move did; otherwise returns the destination, whose coordinates come next.
fn write_side_and_find_to(position: &PartialPosition, mv: Move, out: &mut String) -> (r: Option<
    Square,
>)
    ensures
        r.is_none() == same_square(position@, mv),
        r.is_some() ==> r.unwrap() == mv.to_spec(),
        same_square(position@, mv) ==> final(out)@ == old(out)@ + side_mark(position@.side)@
            + "同"@,
        !same_square(position@, mv) ==> final(out)@ == old(out)@ + side_mark(position@.side)@,
{
    let mark = match position.side_to_move() {
        Color::Black => "▲",
        Color::White => "△",
    };
    let to = match mv {
        Move::Normal { to, .. } => {
            match position.last_move() {
                Some(last) => {
                    if last.to() == to {
                        out.append(mark);
                        out.append("同");
                        return None;
                    }
                },
                None => {},
            }
            to
        },
        Move::Drop { to, .. } => to,
    };
    out.append(mark);
    Some(to)
}

/// Writes the piece's name and what tells the move apart: the words that single out
/// the moving piece among those that could also move there, then `成` or `不成` where
/// it could promote; for a drop, `打` where a piece on the board could also move there.
/// `None` where `from` is empty or nothing singles the piece out.
fn disambiguate(position: &PartialPosition, mv: Move, out: &mut String) -> (r: Option<()>)
    requires
        position.wf(),
    ensures
        r.is_some() == body(position@, mv).is_some(),
        r.is_some() ==> final(out)@ == old(out)@ + body(position@, mv).unwrap(),
{
    match mv {
        Move::Normal { from, to, promote } => {
            let p = match position.piece_at(from) {
                Some(p) => p,
                None => return None,
            };
            out.append(piece_kind_to_kanji(p.kind));
            let candidates = LiteLegalityChecker.normal_to_candidates(position, to, p);
            proof {
                lemma_movers(position, to, p, candidates);
            }
            let words = match run(position, from, to, candidates) {
                Some(w) => w,
                None => return None,
            };
            out.append(words.as_str());
            let side = position.side_to_move();
            let could_promote = is_promotable_piece(p.kind) && (from.relative_rank(side) <= 3
                || to.relative_rank(side) <= 3);
            if promote {
                out.append("成");
            } else if could_promote {
                out.append("不成");
            }
        },
        Move::Drop { to, piece } => {
            let side = position.side_to_move();
            out.append(piece_kind_to_kanji(piece.kind));
            let p = Piece { kind: piece.kind, color: side };
            let movers = LiteLegalityChecker.normal_to_candidates(position, to, p);
            proof {
                lemma_movers(position, to, p, movers);
            }
            if !movers.is_empty() {
                out.append("打");
            }
        },
    }
    Some(())
}

/// The kifu notation of `mv` in `position`, with the rank as a full-width digit
/// (`▲７六歩` is written `▲７６歩`); `None` where the move cannot be described.
pub fn display_single_move(position: &PartialPosition, mv: Move) -> (r: Option<String>)
    requires
        position.wf(),
    ensures
        r.is_some() == notation(position@, mv, false).is_some(),
        r.is_some() ==> r.unwrap()@ == notation(position@, mv, false).unwrap(),
{
    let mut out = String::new();
    match write_side_and_find_to(position, mv, &mut out) {
        Some(to) => {
            out.append(wide_digit_exec(to.file()));
            out.append(wide_digit_exec(to.rank()));
        },
        None => {},
    }
    match disambiguate(position, mv, &mut out) {
        Some(()) => Some(out),
        None => None,
    }
}

/// The kifu notation of `mv` in `position`, with the rank as a kanji numeral
/// (`▲７六歩`); `None` where the move cannot be described.
pub fn display_single_move_kansuji(position: &PartialPosition, mv: Move) -> (r: Option<String>)
    requires
        position.wf(),
    ensures
        r.is_some() == notation(position@, mv, true).is_some(),
        r.is_some() ==> r.unwrap()@ == notation(position@, mv, true).unwrap(),
{
    let mut out = String::new();
    match write_side_and_find_to(position, mv, &mut out) {
        Some(to) => {
            out.append(wide_digit_exec(to.file()));
            out.append(kanji_digit_exec(to.rank()));
        },
        None => {},
    }
    match disambiguate(position, mv, &mut out) {
        Some(()) => Some(out),
        None => None,
    }
}

} // verus!
