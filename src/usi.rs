use vstd::prelude::*;

use crate::color::Color;
use crate::game::Position;
use crate::hand::{cap, slot, Hand};
use crate::mv::Move;
use crate::piece::Piece;
use crate::piece_kind::PieceKind;
use crate::position::{color_slot, empty_model, start_model, PartialPosition, PositionModel};
use crate::square::{file_of, index_of, rank_of, square_of, Square};
use vstd::string::StringSliceAdditionalSpecFns;

verus! {

/// An error that can occur while parsing.
#[derive(Clone, Copy, Debug, PartialEq, Eq)]
pub enum Error {
    /// The bytes `from..to` of the input could not be parsed.
    InvalidInput { from: usize, to: usize, description: &'static str },
    /// The input was parsed, but the bytes from `from` on were left unread.
    Extra { from: usize },
    /// The input was parsed, but the position it describes is invalid.
    InvalidPosition,
}

/// Whether `e` is an `InvalidInput` error covering the bytes `from..to`.
pub open spec fn invalid_at(e: Error, from: int, to: int) -> bool {
    match e {
        Error::InvalidInput { from: f, to: t, .. } => f == from && t == to,
        _ => false,
    }
}

/// The square written as the bytes `file` (`1` to `9`) and `rank` (`a` to `i`).
pub open spec fn square_bytes(file: u8, rank: u8) -> Option<int> {
    if 0x31 <= file <= 0x39 && 0x61 <= rank <= 0x69 {
        Some(index_of(file - 0x30, rank - 0x60))
    } else {
        None
    }
}

/// The kind written as the upper-case letter `c` (`PLNSGBRK`).
pub open spec fn kind_letter(c: u8) -> Option<PieceKind> {
    if c == 0x50 {
        Some(PieceKind::Pawn)
    } else if c == 0x4c {
        Some(PieceKind::Lance)
    } else if c == 0x4e {
        Some(PieceKind::Knight)
    } else if c == 0x53 {
        Some(PieceKind::Silver)
    } else if c == 0x47 {
        Some(PieceKind::Gold)
    } else if c == 0x42 {
        Some(PieceKind::Bishop)
    } else if c == 0x52 {
        Some(PieceKind::Rook)
    } else if c == 0x4b {
        Some(PieceKind::King)
    } else {
        None
    }
}

/// The piece written as the letter `c`: upper case for Black, lower case for White.
pub open spec fn piece_letter(c: u8) -> Option<Piece> {
    match kind_letter(c) {
        Some(k) => Some(Piece { kind: k, color: Color::Black }),
        None => if c >= 0x20 {
            match kind_letter((c - 0x20) as u8) {
                Some(k) => if 0x61 <= c <= 0x7a {
                    Some(Piece { kind: k, color: Color::White })
                } else {
                    None
                },
                None => None,
            }
        } else {
            None
        },
    }
}

proof fn lemma_len(s: &[u8])
    ensures
        s@.len() <= usize::MAX,
{
    broadcast use vstd::slice::axiom_spec_len;

    assert(s.len() == s@.len());
}

/// The byte at `i`, if there is one.
fn byte_at(s: &[u8], i: usize) -> (r: Option<u8>)
    ensures
        s@.len() <= usize::MAX,
        r == (if i < s@.len() {
            Some(s@[i as int])
        } else {
            None
        }),
{
    if i < s.len() {
        Some(s[i])
    } else {
        None
    }
}

fn kind_of_letter(c: u8) -> (r: Option<PieceKind>)
    ensures
        r == kind_letter(c),
{
    if c == 0x50 {
        Some(PieceKind::Pawn)
    } else if c == 0x4c {
        Some(PieceKind::Lance)
    } else if c == 0x4e {
        Some(PieceKind::Knight)
    } else if c == 0x53 {
        Some(PieceKind::Silver)
    } else if c == 0x47 {
        Some(PieceKind::Gold)
    } else if c == 0x42 {
        Some(PieceKind::Bishop)
    } else if c == 0x52 {
        Some(PieceKind::Rook)
    } else if c == 0x4b {
        Some(PieceKind::King)
    } else {
        None
    }
}

/// The piece written as the letter `c`: upper case for Black, lower case for White.
pub fn byte_to_piece(c: u8) -> (r: Option<Piece>)
    ensures
        r == piece_letter(c),
{
    match kind_of_letter(c) {
        Some(k) => Some(Piece { kind: k, color: Color::Black }),
        None => if c >= 0x20 {
            match kind_of_letter(c - 0x20) {
                Some(k) => if 0x61 <= c && c <= 0x7a {
                    Some(Piece { kind: k, color: Color::White })
                } else {
                    None
                },
                None => None,
            }
        } else {
            None
        },
    }
}

/// Reads a color (`b` or `w`) at `at`; returns the position after it.
pub fn color_at(s: &[u8], at: usize) -> (r: Result<(usize, Color), Error>)
    requires
        at <= s@.len(),
    ensures
        r is Ok <==> (at < s@.len() && (s@[at as int] == 0x62 || s@[at as int] == 0x77)),
        r is Ok ==> r->Ok_0.0 == at + 1 && r->Ok_0.1 == (if s@[at as int] == 0x62 {
            Color::Black
        } else {
            Color::White
        }),
{
    match byte_at(s, at) {
        Some(first) => {
            if first == 0x62 {
                return Ok((at + 1, Color::Black));
            }
            if first == 0x77 {
                return Ok((at + 1, Color::White));
            }
            Err(
                Error::InvalidInput {
                    from: at,
                    to: at + 1,
                    description: "A `Color` (`b` or `w`) expected, but invalid byte found",
                },
            )
        },
        None => Err(
            Error::InvalidInput { from: at, to: at, description: "A `Color` expected, but nothing found" },
        ),
    }
}

/// The square written at `i`; where it ends, or the span of the error.
pub open spec fn square_token(s: Seq<u8>, i: int) -> Result<(int, Square), (int, int)> {
    if i + 2 > s.len() {
        Err((i, s.len() as int))
    } else {
        match square_bytes(s[i], s[i + 1]) {
            None => Err((i, i + 2)),
            Some(k) => Ok((i + 2, square_of(k))),
        }
    }
}

/// The move written at `i`: two squares and an optional `+`, or a piece letter, `*`
/// and a square for a drop (only upper-case letters); where it ends, or the span of
/// the error.
pub open spec fn move_token(s: Seq<u8>, i: int) -> Result<(int, Move), (int, int)> {
    if s.len() - i < 4 {
        Err((i, s.len() as int))
    } else if s[i + 1] == 0x2a {
        match piece_letter(s[i]) {
            None => Err((i, i + 1)),
            Some(p) => if p.color == Color::White {
                Err((i, i + 1))
            } else {
                match square_token(s, i + 2) {
                    Err(e) => Err(e),
                    Ok((n, to)) => Ok((n, Move::Drop { piece: p, to })),
                }
            },
        }
    } else {
        match square_token(s, i) {
            Err(e) => Err(e),
            Ok((n1, from)) => match square_token(s, n1) {
                Err(e) => Err(e),
                Ok((n2, to)) => if n2 < s.len() && s[n2] == 0x2b {
                    Ok((n2 + 1, Move::Normal { from, to, promote: true }))
                } else {
                    Ok((n2, Move::Normal { from, to, promote: false }))
                },
            },
        }
    }
}

/// Whether `r`, the result of reading all of a string, is the token result `t`: the
/// token must end where the string does, else the error is `Extra` at its end.
pub open spec fn whole<T>(r: Result<T, Error>, t: Result<(int, T), (int, int)>, len: int) -> bool {
    match t {
        Ok((n, v)) => if n == len {
            r == Ok::<T, Error>(v)
        } else {
            r == Err::<T, Error>(Error::Extra { from: n as usize })
        },
        Err((f, e)) => r is Err && invalid_at(r->Err_0, f, e),
    }
}

/// Reads a square (a digit `1`-`9` for the file, a letter `a`-`i` for the rank) at `at`.
pub fn square_at(s: &[u8], at: usize) -> (r: Result<(usize, Square), Error>)
    requires
        at <= s@.len(),
    ensures
        same_token(r, square_token(s@, at as int)),
        r is Ok <==> (at + 2 <= s@.len() && square_bytes(s@[at as int], s@[at + 1]).is_some()),
        r is Ok ==> r->Ok_0.0 == at + 2 && r->Ok_0.1.idx() == square_bytes(
            s@[at as int],
            s@[at + 1],
        ).unwrap(),
{
    if s.len() - at < 2 {
        return Err(
            Error::InvalidInput {
                from: at,
                to: s.len(),
                description: "A `Square` must have 2 letters in its representation",
            },
        );
    }
    let file = s[at];
    let rank = s[at + 1];
    if !(0x31 <= file && file <= 0x39) {
        return Err(
            Error::InvalidInput {
                from: at,
                to: at + 2,
                description: "`Square`: the first letter must be among 1, 2, ..., 9",
            },
        );
    }
    if !(0x61 <= rank && rank <= 0x69) {
        return Err(
            Error::InvalidInput {
                from: at,
                to: at + 2,
                description: "`Square`: the second letter must be among a, b, ..., i",
            },
        );
    }
    match Square::new(file - 0x30, rank - 0x61 + 1) {
        Some(sq) => Ok((at + 2, sq)),
        None => Err(Error::InvalidInput { from: at, to: at + 2, description: "invalid square" }),
    }
}

/// The piece written at `i`: a letter, or `+` and the letter of a kind that can
/// promote; where it ends, or the span of the error.
pub open spec fn piece_token(s: Seq<u8>, i: int) -> Result<(int, Piece), (int, int)> {
    if i < 0 || i >= s.len() {
        Err((i, i))
    } else if s[i] == 0x2b {
        if i + 1 >= s.len() {
            Err((i, i + 1))
        } else {
            match piece_letter(s[i + 1]) {
                None => Err((i, i + 2)),
                Some(p) => match p.kind.promote_spec() {
                    None => Err((i, i + 2)),
                    Some(k) => Ok((i + 2, Piece { kind: k, color: p.color })),
                },
            }
        }
    } else {
        match piece_letter(s[i]) {
            None => Err((i, i + 1)),
            Some(p) => Ok((i + 1, p)),
        }
    }
}

/// Whether the parse result `r` is the token result `t`, an error standing for its span.
pub open spec fn same_token<T>(r: Result<(usize, T), Error>, t: Result<(int, T), (int, int)>) -> bool {
    match t {
        Ok((n, v)) => r is Ok && r->Ok_0.0 == n && r->Ok_0.1 == v,
        Err((f, e)) => r is Err && invalid_at(r->Err_0, f, e),
    }
}

/// Reads a piece at `at`: a letter, or `+` and the letter of a kind that can promote.
pub fn piece_at(s: &[u8], at: usize) -> (r: Result<(usize, Piece), Error>)
    requires
        at <= s@.len(),
    ensures
        same_token(r, piece_token(s@, at as int)),
        r is Ok ==> at < r->Ok_0.0 <= s@.len(),
{
    let first = match byte_at(s, at) {
        Some(b) => b,
        None => {
            return Err(
                Error::InvalidInput { from: at, to: at, description: "A `Piece` expected, but nothing found" },
            );
        },
    };
    if first == 0x2b {
        assert(at < s@.len());
        let piece_byte = match byte_at(s, at + 1) {
            Some(b) => b,
            None => {
                return Err(
                    Error::InvalidInput {
                        from: at,
                        to: at + 1,
                        description: "A promoted `Piece` expected, but nothing found",
                    },
                );
            },
        };
        return match byte_to_piece(piece_byte) {
            Some(piece) => match piece.promote() {
                Some(p) => Ok((at + 2, p)),
                None => Err(Error::InvalidInput { from: at, to: at + 2, description: "Cannot promote" }),
            },
            None => Err(
                Error::InvalidInput {
                    from: at,
                    to: at + 2,
                    description: "Unrecognized piece type (promoted)",
                },
            ),
        };
    }
    match byte_to_piece(first) {
        Some(piece) => Ok((at + 1, piece)),
        None => Err(Error::InvalidInput { from: at, to: at + 1, description: "Unrecognized piece type" }),
    }
}

/// Reads a move at `at`: `7g7f`, `8h2b+` or `P*3d`. A drop is read as Black's.
pub fn move_at(s: &[u8], at: usize) -> (r: Result<(usize, Move), Error>)
    requires
        at <= s@.len(),
    ensures
        same_token(r, move_token(s@, at as int)),
        r is Ok ==> at + 4 <= r->Ok_0.0 <= s@.len() && r->Ok_0.0 <= at + 5,
        r is Ok && s@[at + 1] == 0x2a ==> (r->Ok_0.1 matches Move::Drop { piece, to } && piece_letter(
            s@[at as int],
        ) == Some(piece) && piece.color == Color::Black && to.idx() == square_bytes(
            s@[at + 2],
            s@[at + 3],
        ).unwrap()),
        r is Ok && s@[at + 1] != 0x2a ==> (r->Ok_0.1 matches Move::Normal { from, to, promote }
            && from.idx() == square_bytes(s@[at as int], s@[at + 1]).unwrap() && to.idx()
            == square_bytes(s@[at + 2], s@[at + 3]).unwrap() && promote == (r->Ok_0.0 == at + 5)),
{
    if s.len() - at < 4 {
        return Err(
            Error::InvalidInput {
                from: at,
                to: s.len(),
                description: "A `Move` expected, but less than 4 bytes found",
            },
        );
    }
    if s[at + 1] == 0x2a {
        let piece = match byte_to_piece(s[at]) {
            Some(p) => p,
            None => {
                return Err(
                    Error::InvalidInput { from: at, to: at + 1, description: "Unrecognized piece type" },
                );
            },
        };
        if piece.color == Color::White {
            return Err(
                Error::InvalidInput {
                    from: at,
                    to: at + 1,
                    description: "piece must be an uppercase letter",
                },
            );
        }
        let (next, square) = match square_at(s, at + 2) {
            Ok(x) => x,
            Err(e) => return Err(e),
        };
        return Ok((next, Move::Drop { piece, to: square }));
    }
    let (next, from) = match square_at(s, at) {
        Ok(x) => x,
        Err(e) => return Err(e),
    };
    let (next, to) = match square_at(s, next) {
        Ok(x) => x,
        Err(e) => return Err(e),
    };
    if byte_at(s, next) == Some(0x2b) {
        return Ok((next + 1, Move::Normal { from, to, promote: true }));
    }
    Ok((next, Move::Normal { from, to, promote: false }))
}

/// Whether the bytes of `word` stand in `s` from `at` on.
fn has_word(s: &[u8], at: usize, word: &[u8]) -> (r: bool)
    requires
        at <= s@.len(),
    ensures
        r == (at + word@.len() <= s@.len() && s@.subrange(at as int, at + word@.len()) == word@),
{
    proof {
        lemma_len(s);
    }
    if s.len() - at < word.len() {
        return false;
    }
    let mut k: usize = 0;
    while k < word.len()
        invariant
            0 <= k <= word@.len(),
            at + word@.len() <= s@.len(),
            s@.len() <= usize::MAX,
            forall|j: int| 0 <= j < k ==> s@[at + j] == word@[j],
        decreases word@.len() - k,
    {
        if s[at + k] != word[k] {
            assert(s@.subrange(at as int, at + word@.len())[k as int] != word@[k as int]);
            return false;
        }
        k += 1;
    }
    assert(s@.subrange(at as int, at + word@.len()) =~= word@);
    true
}

/// Whether `b` is an ASCII digit.
pub open spec fn is_digit(b: u8) -> bool {
    0x30 <= b <= 0x39
}

/// The count written at `i` and how many bytes it takes: one or two digits, or none
/// for a count of one.
pub open spec fn count_at(s: Seq<u8>, i: int) -> (int, int) {
    if is_digit(s[i]) {
        if i + 1 < s.len() && is_digit(s[i + 1]) {
            (10 * (s[i] - 0x30) + (s[i + 1] - 0x30), 2)
        } else {
            ((s[i] - 0x30) as int, 1)
        }
    } else {
        (1, 0)
    }
}

/// Counts with `n` more pieces in `slot`, as many as a full set holds.
pub open spec fn add_capped(h: Seq<u8>, slot: int, n: int) -> Seq<u8> {
    h.update(
        slot,
        (if h[slot] + n > cap(slot) {
            cap(slot)
        } else {
            h[slot] + n
        }) as u8,
    )
}

/// Empty hands for both players.
pub open spec fn no_hands() -> Seq<Seq<u8>> {
    seq![Seq::new(7, |i: int| 0u8), Seq::new(7, |i: int| 0u8)]
}

/// Both players' hand counts of `h`.
pub open spec fn hands_view(h: [Hand; 2]) -> Seq<Seq<u8>> {
    seq![h@[0].counts@, h@[1].counts@]
}

/// Reads hand entries from `i` on, adding to `hands`: each entry is an optional count
/// and a piece letter (a king is read and ignored). Reading stops before a byte that is
/// no piece letter, giving where it stopped and the hands; a count that runs to the end
/// gives the span of the error.
pub open spec fn hand_entries(s: Seq<u8>, i: int, hands: Seq<Seq<u8>>) -> Result<
    (int, Seq<Seq<u8>>),
    (int, int),
>
    decreases s.len() - i,
{
    if i < 0 || i >= s.len() {
        Ok((i, hands))
    } else {
        let n = count_at(s, i).0;
        let w = count_at(s, i).1;
        if i + w >= s.len() {
            Err((i, i + w))
        } else {
            match piece_letter(s[i + w]) {
                None => Ok((i, hands)),
                Some(p) => {
                    let c = color_slot(p.color);
                    let next = match slot(p.kind) {
                        Some(sl) => hands.update(c, add_capped(hands[c], sl, n)),
                        None => hands,
                    };
                    hand_entries(s, i + w + 1, next)
                },
            }
        }
    }
}

/// Reads the pieces in hand at `at`: `-` for none, or letters each preceded by an
/// optional count of one or two digits, upper case for Black and lower case for
/// White, in any order. Counts beyond a full set are cut to it.
pub fn hands_at(s: &[u8], at: usize) -> (r: Result<(usize, [Hand; 2]), Error>)
    requires
        at <= s@.len(),
    ensures
        r is Ok ==> at < r->Ok_0.0 <= s@.len() && r->Ok_0.1@[0].wf() && r->Ok_0.1@[1].wf(),
        at == s@.len() ==> r is Err && invalid_at(r->Err_0, at as int, at as int),
        at < s@.len() && s@[at as int] == 0x2d ==> r is Ok && r->Ok_0.0 == at + 1 && hands_view(
            r->Ok_0.1,
        ) == no_hands(),
        at < s@.len() && s@[at as int] != 0x2d ==> match hand_entries(s@, at as int, no_hands()) {
            Err((f, t)) => r is Err && invalid_at(r->Err_0, f, t),
            Ok((end, h)) => if end == at {
                r is Err && invalid_at(r->Err_0, at as int, at + 1)
            } else {
                r is Ok && r->Ok_0.0 == end && hands_view(r->Ok_0.1) == h
            },
        },
{
    proof {
        lemma_len(s);
    }
    let empty = [Hand::new(), Hand::new()];
    assert(hands_view(empty) =~= no_hands()) by {
        assert(empty@[0].counts@ =~= Seq::new(7, |i: int| 0u8));
        assert(empty@[1].counts@ =~= Seq::new(7, |i: int| 0u8));
    }
    match byte_at(s, at) {
        Some(first) => {
            if first == 0x2d {
                return Ok((at + 1, empty));
            }
        },
        None => {
            return Err(
                Error::InvalidInput {
                    from: at,
                    to: at,
                    description: "A `[Hand; 2]` expected, but nothing found",
                },
            );
        },
    }
    let mut index = at;
    let mut hands = empty;
    while index < s.len()
        invariant
            at <= index <= s@.len(),
            s@.len() <= usize::MAX,
            hands@[0].wf(),
            hands@[1].wf(),
            hands@[0].counts@.len() == 7,
            hands@[1].counts@.len() == 7,
            hand_entries(s@, at as int, no_hands()) == hand_entries(
                s@,
                index as int,
                hands_view(hands),
            ),
        ensures
            hand_entries(s@, index as int, hands_view(hands)) == Ok::<
                (int, Seq<Seq<u8>>),
                (int, int),
            >((index as int, hands_view(hands))),
        decreases s@.len() - index,
    {
        let current = s[index];
        let mut count: u8 = 1;
        let mut count_len: usize = 0;
        if 0x30 <= current && current <= 0x39 {
            let mut this = current - 0x30;
            if index + 1 < s.len() && 0x30 <= s[index + 1] && s[index + 1] <= 0x39 {
                this = 10 * this + (s[index + 1] - 0x30);
                count_len = 2;
            } else {
                count_len = 1;
            }
            count = this;
        }
        assert(count == count_at(s@, index as int).0 && count_len == count_at(s@, index as int).1);
        if index + count_len >= s.len() {
            return Err(
                Error::InvalidInput {
                    from: index,
                    to: index + count_len,
                    description: "A `Piece` was expected, but not found",
                },
            );
        }
        let piece = match byte_to_piece(s[index + count_len]) {
            Some(p) => p,
            None => break ,
        };
        let c: usize = match piece.color {
            Color::Black => 0,
            Color::White => 1,
        };
        let ghost before = hands_view(hands);
        let ghost base = hands@[c as int].counts@;
        let mut i: u8 = 0;
        while i < count
            invariant
                hands@[0].wf(),
                hands@[1].wf(),
                c < 2,
                c == color_slot(piece.color),
                0 <= i <= count,
                hands@[1 - c as int].counts@ == before[1 - c as int],
                slot(piece.kind).is_some() ==> hands@[c as int].counts@ == add_capped(
                    base,
                    slot(piece.kind).unwrap(),
                    i as int,
                ),
                slot(piece.kind).is_none() ==> hands@[c as int].counts@ == base,
                base == before[c as int],
                base.len() == 7,
                before.len() == 2,
            ensures
                slot(piece.kind).is_some() ==> hands@[c as int].counts@ == add_capped(
                    base,
                    slot(piece.kind).unwrap(),
                    count as int,
                ),
                slot(piece.kind).is_none() ==> hands@[c as int].counts@ == base,
                hands@[1 - c as int].counts@ == before[1 - c as int],
                hands@[0].wf(),
                hands@[1].wf(),
            decreases count - i,
        {
            match hands[c].added(piece.kind) {
                Some(h) => hands[c] = h,
                None => {
                    proof {
                        if slot(piece.kind).is_some() {
                            assert(add_capped(base, slot(piece.kind).unwrap(), i as int) =~= add_capped(
                                base,
                                slot(piece.kind).unwrap(),
                                count as int,
                            ));
                        }
                    }
                    break ;
                },
            }
            i += 1;
        }
        proof {
            let sl = slot(piece.kind);
            if sl.is_some() {
                assert(hands_view(hands) =~= before.update(
                    c as int,
                    add_capped(before[c as int], sl.unwrap(), count as int),
                ));
            } else {
                assert(hands_view(hands) =~= before);
            }
        }
        index += count_len + 1;
    }
    if index == at {
        return Err(
            Error::InvalidInput {
                from: at,
                to: at + 1,
                description: "A `[Hand; 2]` expected, but no pieces were found",
            },
        );
    }
    Ok((index, hands))
}

/// Nine empty squares.
pub open spec fn empty_row() -> Seq<Option<Piece>> {
    Seq::new(9, |j: int| None::<Piece>)
}

/// Reads the squares of one rank from `i` on, `seen` squares having been counted and
/// `row` holding the pieces placed so far: a digit `1`-`9` counts that many empty
/// squares, a piece takes the next square. Reading stops at a `/`, a space or the end,
/// or once more than 90 squares were counted; it gives where it stopped, the squares
/// counted and the pieces, or the span of a piece that could not be read.
pub open spec fn row_entries(s: Seq<u8>, i: int, seen: int, row: Seq<Option<Piece>>) -> Result<
    (int, int, Seq<Option<Piece>>),
    (int, int),
>
    decreases s.len() - i,
{
    if i < 0 || i >= s.len() || !(seen <= 90 && s[i] != 0x2f && s[i] != 0x20) {
        Ok((i, seen, row))
    } else if 0x31 <= s[i] <= 0x39 {
        row_entries(s, i + 1, seen + s[i] - 0x30, row)
    } else {
        match piece_token(s, i) {
            Err(e) => Err(e),
            Ok((n, p)) => if n <= i {
                Err((i, i))
            } else {
                row_entries(
                    s,
                    n,
                    seen + 1,
                    if seen < 9 {
                        row.update(seen, Some(p))
                    } else {
                        row
                    },
                )
            },
        }
    }
}

/// One rank read at `i`: where it ends and its nine squares from file 9 to file 1, or
/// the span of the error (nine squares are needed).
pub open spec fn row_at(s: Seq<u8>, i: int) -> Result<(int, Seq<Option<Piece>>), (int, int)> {
    match row_entries(s, i, 0, empty_row()) {
        Err(e) => Err(e),
        Ok((end, seen, row)) => if seen != 9 {
            Err((i, end))
        } else {
            Ok((end, row))
        },
    }
}

/// Reads one rank of a board description at `at`: piece letters, and digits that
/// count empty squares, nine squares in all, up to a `/`, a space or the end.
/// The pieces are listed from file 9 down to file 1.
pub fn parse_row(s: &[u8], at: usize) -> (r: Result<(usize, [Option<Piece>; 9]), Error>)
    requires
        at <= s@.len(),
    ensures
        match row_at(s@, at as int) {
            Ok((end, row)) => r is Ok && r->Ok_0.0 == end && r->Ok_0.1@ == row,
            Err((f, t)) => r is Err && invalid_at(r->Err_0, f, t),
        },
        r is Ok ==> at <= r->Ok_0.0 <= s@.len(),
{
    proof {
        lemma_len(s);
    }
    let mut i = at;
    let mut seen: u8 = 0;
    let mut result: [Option<Piece>; 9] = [None; 9];
    assert(result@ =~= empty_row());
    while i < s.len()
        invariant
            at <= i <= s@.len(),
            s@.len() <= usize::MAX,
            seen <= 99,
            result@.len() == 9,
            row_entries(s@, at as int, 0, empty_row()) == row_entries(
                s@,
                i as int,
                seen as int,
                result@,
            ),
        ensures
            at <= i <= s@.len(),
            row_entries(s@, at as int, 0, empty_row()) == Ok::<
                (int, int, Seq<Option<Piece>>),
                (int, int),
            >((i as int, seen as int, result@)),
        decreases s@.len() - i,
    {
        let first = s[i];
        if !(seen <= 90 && first != 0x2f && first != 0x20) {
            break ;
        }
        if 0x31 <= first && first <= 0x39 {
            seen += first - 0x30;
            i += 1;
            continue ;
        }
        let (next, piece) = match piece_at(s, i) {
            Ok(x) => x,
            Err(e) => return Err(e),
        };
        if seen < 9 {
            result[seen as usize] = Some(piece);
        }
        seen += 1;
        i = next;
    }
    if seen != 9 {
        return Err(
            Error::InvalidInput { from: at, to: i, description: "exactly 9 squares are expected" },
        );
    }
    Ok((i, result))
}

/// Skips one or more spaces at `at`.
fn parse_many_whitespaces(s: &[u8], at: usize) -> (r: Result<usize, Error>)
    requires
        at <= s@.len(),
    ensures
        r is Ok <==> (at < s@.len() && s@[at as int] == 0x20),
        r is Ok ==> at < r->Ok_0 <= s@.len() && (r->Ok_0 == s@.len() || s@[r->Ok_0 as int]
            != 0x20),
        r is Ok ==> forall|j: int| at <= j < r->Ok_0 ==> s@[j] == 0x20,
{
    if byte_at(s, at) != Some(0x20u8) {
        return Err(
            Error::InvalidInput {
                from: at,
                to: if at < s.len() {
                    at + 1
                } else {
                    at
                },
                description: "` ` (whitespace) was expected",
            },
        );
    }
    let mut i = at + 1;
    while i < s.len() && s[i] == 0x20
        invariant
            at < i <= s@.len(),
            forall|j: int| at <= j < i ==> s@[j] == 0x20,
        decreases s@.len() - i,
    {
        i += 1;
    }
    Ok(i)
}

/// The first index from `i` on that holds no space.
pub open spec fn skip_spaces(s: Seq<u8>, i: int) -> int
    decreases s.len() - i,
{
    if 0 <= i < s.len() && s[i] == 0x20 {
        skip_spaces(s, i + 1)
    } else {
        i
    }
}

/// `board` with rank `rank + 1` replaced by `row`, whose squares run from file 9 to file 1.
pub open spec fn place_row(board: Seq<Option<Piece>>, rank: int, row: Seq<Option<Piece>>) -> Seq<
    Option<Piece>,
> {
    Seq::new(
        81,
        |k: int|
            if rank_of(k + 1) == rank + 1 {
                row[9 - file_of(k + 1)]
            } else {
                board[k]
            },
    )
}

/// The ranks from `rank + 1` to 9 read at `i`, separated by `/`, placed on `board`:
/// where they end and the board, or `None`.
pub open spec fn board_rows(s: Seq<u8>, i: int, rank: int, board: Seq<Option<Piece>>) -> Option<
    (int, Seq<Option<Piece>>),
>
    decreases 9 - rank,
{
    if rank < 0 || rank >= 9 {
        None
    } else {
        match row_at(s, i) {
            Err(_) => None,
            Ok((end, row)) => {
                let next = place_row(board, rank, row);
                if rank == 8 {
                    Some((end, next))
                } else if 0 <= end < s.len() && s[end] == 0x2f {
                    board_rows(s, end + 1, rank + 1, next)
                } else {
                    None
                }
            },
        }
    }
}

/// The hands read at `i` (see `hands_at`): where they end and the counts, or `None`.
pub open spec fn hands_token(s: Seq<u8>, i: int) -> Option<(int, Seq<Seq<u8>>)> {
    if i < 0 || i >= s.len() {
        None
    } else if s[i] == 0x2d {
        Some((i + 1, no_hands()))
    } else {
        match hand_entries(s, i, no_hands()) {
            Err(_) => None,
            Ok((end, h)) => if end == i {
                None
            } else {
                Some((end, h))
            },
        }
    }
}

/// The digits from `i` on, read into `acc` as a decimal number that stops growing at
/// 65535: where they end and the number.
pub open spec fn digits_value(s: Seq<u8>, i: int, acc: int) -> (int, int)
    decreases s.len() - i,
{
    if 0 <= i < s.len() && is_digit(s[i]) {
        let v = acc * 10 + (s[i] - 0x30);
        digits_value(
            s,
            i + 1,
            if v > 0xffff {
                0xffff
            } else {
                v
            },
        )
    } else {
        (i, acc)
    }
}

/// The bytes of `startpos`.
pub open spec fn startpos_word() -> Seq<u8> {
    seq![0x73u8, 0x74, 0x61, 0x72, 0x74, 0x70, 0x6f, 0x73]
}

/// The bytes of `sfen`.
pub open spec fn sfen_word() -> Seq<u8> {
    seq![0x73u8, 0x66, 0x65, 0x6e]
}

/// Whether the bytes of `word` stand in `s` from `at` on.
pub open spec fn word_at(s: Seq<u8>, at: int, word: Seq<u8>) -> bool {
    at + word.len() <= s.len() && s.subrange(at, at + word.len()) == word
}

/// The position written at `at`, and where it ends: `startpos`, or `sfen`, one or more
/// spaces, the nine ranks from 1 to 9 separated by `/`, a space, `b` or `w` for the
/// side to move, a space, the hands, and optionally a space and a move count that
/// becomes the ply number (a count of zero leaves it at 1). `None` for anything else.
pub open spec fn sfen(s: Seq<u8>, at: int) -> Option<(int, PositionModel)> {
    let len = s.len();
    if word_at(s, at, startpos_word()) {
        Some((at + 8, start_model()))
    } else if !word_at(s, at, sfen_word()) || !(at + 4 < len && s[at + 4] == 0x20) {
        None
    } else {
        match board_rows(s, skip_spaces(s, at + 4), 0, empty_model().board) {
            None => None,
            Some((j, board)) => if !(j + 2 < len && s[j] == 0x20 && (s[j + 1] == 0x62 || s[j + 1]
                == 0x77) && s[j + 2] == 0x20) {
                None
            } else {
                let side = if s[j + 1] == 0x62 {
                    Color::Black
                } else {
                    Color::White
                };
                match hands_token(s, j + 3) {
                    None => None,
                    Some((k, hands)) => {
                        let base = PositionModel { board, hands, side, ..empty_model() };
                        if !(k < len && s[k] == 0x20) {
                            Some((k, base))
                        } else {
                            let e = digits_value(s, k + 1, 0).0;
                            let c = digits_value(s, k + 1, 0).1;
                            Some(
                                (
                                    e,
                                    if c == 0 {
                                        base
                                    } else {
                                        PositionModel { ply: c as u16, ..base }
                                    },
                                ),
                            )
                        }
                    },
                }
            },
        }
    }
}

/// Reads a position at `at` (see `sfen`).
pub fn position_at(s: &[u8], at: usize) -> (r: Result<(usize, PartialPosition), Error>)
    requires
        at <= s@.len(),
    ensures
        r is Ok == sfen(s@, at as int).is_some(),
        r is Ok ==> r->Ok_0.0 == sfen(s@, at as int).unwrap().0 && r->Ok_0.1@ == sfen(
            s@,
            at as int,
        ).unwrap().1,
        r is Ok ==> at < r->Ok_0.0 <= s@.len() && r->Ok_0.1.wf(),
{
    proof {
        lemma_len(s);
    }
    let startpos: [u8; 8] = [0x73, 0x74, 0x61, 0x72, 0x74, 0x70, 0x6f, 0x73];
    assert(startpos@ =~= startpos_word());
    if has_word(s, at, &startpos) {
        let p = PartialPosition::startpos();
        return Ok((at + 8, p));
    }
    let sfen_bytes: [u8; 4] = [0x73, 0x66, 0x65, 0x6e];
    assert(sfen_bytes@ =~= sfen_word());
    if !has_word(s, at, &sfen_bytes) {
        return Err(
            Error::InvalidInput {
                from: at,
                to: if s.len() - at < 4 {
                    s.len()
                } else {
                    at + 4
                },
                description: "invalid token: `sfen` was expected",
            },
        );
    }
    assert(!word_at(s@, at as int, startpos_word()));
    assert(word_at(s@, at as int, sfen_word()));
    let mut i = match parse_many_whitespaces(s, at + 4) {
        Ok(i) => i,
        Err(e) => return Err(e),
    };
    let ghost start = i as int;
    assert(skip_spaces(s@, at + 4) == start) by {
        lemma_skip_spaces(s@, at + 4, start);
    }
    let mut position = PartialPosition::empty();
    let mut rank: u8 = 0;
    while rank < 9
        invariant_except_break
            board_rows(s@, start, 0, empty_model().board) == board_rows(
                s@,
                i as int,
                rank as int,
                position@.board,
            ),
        invariant
            at + 4 < i <= s@.len(),
            s@.len() <= usize::MAX,
            position.wf(),
            rank < 9,
            !word_at(s@, at as int, startpos_word()),
            word_at(s@, at as int, sfen_word()),
            at + 4 < s@.len() && s@[at + 4] == 0x20,
            skip_spaces(s@, at + 4) == start,
            position@ == (PositionModel { board: position@.board, ..empty_model() }),
            position@.board.len() == 81,
        ensures
            board_rows(s@, start, 0, empty_model().board) == Some((i as int, position@.board)),
            position@ == (PositionModel { board: position@.board, ..empty_model() }),
            at + 4 < i <= s@.len(),
            position.wf(),
        decreases 9 - rank,
    {
        let (next, row) = match parse_row(s, i) {
            Ok(x) => x,
            Err(e) => {
                return Err(e);
            },
        };
        let ghost before = position@.board;
        let mut j: u8 = 0;
        while j < 9
            invariant
                position.wf(),
                rank < 9,
                j <= 9,
                row@.len() == 9,
                before.len() == 81,
                position@ == (PositionModel { board: position@.board, ..empty_model() }),
                position@.board == Seq::new(
                    81,
                    |k: int|
                        if rank_of(k + 1) == rank + 1 && 9 - file_of(k + 1) < j {
                            row@[9 - file_of(k + 1)]
                        } else {
                            before[k]
                        },
                ),
            decreases 9 - j,
        {
            let ghost b0 = position@.board;
            match Square::new(9 - j, rank + 1) {
                Some(sq) => position.piece_set(sq, row[j as usize]),
                None => {},
            }
            proof {
                crate::square::lemma_coords(9 - j, rank + 1);
                assert(position@.board =~= Seq::new(
                    81,
                    |k: int|
                        if rank_of(k + 1) == rank + 1 && 9 - file_of(k + 1) < j + 1 {
                            row@[9 - file_of(k + 1)]
                        } else {
                            before[k]
                        },
                ));
            }
            j += 1;
        }
        assert(position@.board =~= place_row(before, rank as int, row@));
        i = next;
        if rank < 8 {
            if byte_at(s, i) != Some(0x2fu8) {
                return Err(
                    Error::InvalidInput {
                        from: i,
                        to: if i < s.len() {
                            i + 1
                        } else {
                            i
                        },
                        description: "`/` was expected",
                    },
                );
            }
            i += 1;
        } else {
            break ;
        }
        rank += 1;
    }
    let ghost board = position@.board;
    if byte_at(s, i) != Some(0x20u8) {
        return Err(
            Error::InvalidInput {
                from: i,
                to: if i < s.len() {
                    i + 1
                } else {
                    i
                },
                description: "` ` (whitespace) was expected",
            },
        );
    }
    let (next, side) = match color_at(s, i + 1) {
        Ok(x) => x,
        Err(e) => return Err(e),
    };
    position.side_to_move_set(side);
    if byte_at(s, next) != Some(0x20u8) {
        return Err(
            Error::InvalidInput {
                from: next,
                to: if next < s.len() {
                    next + 1
                } else {
                    next
                },
                description: "` ` (whitespace) was expected",
            },
        );
    }
    let (next, hands) = match hands_at(s, next + 1) {
        Ok(x) => x,
        Err(e) => return Err(e),
    };
    position.hand_set(Color::Black, hands[0]);
    position.hand_set(Color::White, hands[1]);
    assert(position@.hands =~= hands_view(hands));
    let ghost base = position@;
    assert(base == (PositionModel { board, hands: hands_view(hands), side, ..empty_model() }));
    if byte_at(s, next) != Some(0x20u8) {
        return Ok((next, position));
    }
    let mut i = next + 1;
    let mut count: u16 = 0;
    while i < s.len() && 0x30 <= s[i] && s[i] <= 0x39
        invariant
            next < i <= s@.len(),
            position.wf(),
            position@ == base,
            digits_value(s@, next + 1, 0) == digits_value(s@, i as int, count as int),
        decreases s@.len() - i,
    {
        let digit = (s[i] - 0x30) as u16;
        count = if count > 6553 {
            0xffff
        } else {
            (count * 10).saturating_add(digit)
        };
        i += 1;
    }
    let _ = position.ply_set(count);
    Ok((i, position))
}

proof fn lemma_skip_spaces(s: Seq<u8>, i: int, end: int)
    requires
        0 <= i <= end <= s.len(),
        end == s.len() || s[end] != 0x20,
        forall|j: int| i <= j < end ==> s[j] == 0x20,
    ensures
        skip_spaces(s, i) == end,
    decreases end - i,
{
    if i < end {
        lemma_skip_spaces(s, i + 1, end);
    }
}

impl Color {
    /// Reads a color from the start of `s`; returns how many bytes were read.
    pub fn parse_usi_slice(s: &[u8]) -> (r: Result<(usize, Color), Error>)
        ensures
            r is Ok <==> (0 < s@.len() && (s@[0] == 0x62 || s@[0] == 0x77)),
            r is Ok ==> r->Ok_0.0 == 1,
    {
        color_at(s, 0)
    }

    /// Parses a color (`b` or `w`).
    pub fn from_usi(s: &str) -> (r: Result<Color, Error>)
        ensures
            r is Ok <==> (s.spec_bytes() == seq![0x62u8] || s.spec_bytes() == seq![0x77u8]),
            r is Ok ==> r->Ok_0 == (if s.spec_bytes()[0] == 0x62 {
                Color::Black
            } else {
                Color::White
            }),
    {
        let b = s.as_bytes();
        match color_at(b, 0) {
            Ok((n, c)) => {
                if n == b.len() {
                    assert(b@ =~= seq![b@[0]]);
                    Ok(c)
                } else {
                    Err(Error::Extra { from: n })
                }
            },
            Err(e) => Err(e),
        }
    }
}

impl Square {
    /// Reads a square from the start of `s`; returns how many bytes were read.
    pub fn parse_usi_slice(s: &[u8]) -> (r: Result<(usize, Square), Error>)
        ensures
            same_token(r, square_token(s@, 0)),
            r is Ok <==> (2 <= s@.len() && square_bytes(s@[0], s@[1]).is_some()),
            r is Ok ==> r->Ok_0.0 == 2 && r->Ok_0.1.idx() == square_bytes(s@[0], s@[1]).unwrap(),
    {
        square_at(s, 0)
    }

    /// Parses a square such as `7g`.
    pub fn from_usi(s: &str) -> (r: Result<Square, Error>)
        ensures
            whole(r, square_token(s.spec_bytes(), 0), s.spec_bytes().len() as int),
            r is Ok <==> (s.spec_bytes().len() == 2 && square_bytes(
                s.spec_bytes()[0],
                s.spec_bytes()[1],
            ).is_some()),
            r is Ok ==> r->Ok_0.idx() == square_bytes(s.spec_bytes()[0], s.spec_bytes()[1]).unwrap(),
    {
        let b = s.as_bytes();
        match square_at(b, 0) {
            Ok((n, sq)) => {
                if n == b.len() {
                    Ok(sq)
                } else {
                    Err(Error::Extra { from: n })
                }
            },
            Err(e) => Err(e),
        }
    }
}

impl Piece {
    /// Reads a piece from the start of `s`; returns how many bytes were read.
    pub fn parse_usi_slice(s: &[u8]) -> (r: Result<(usize, Piece), Error>)
        ensures
            same_token(r, piece_token(s@, 0)),
            r is Ok ==> 0 < r->Ok_0.0 <= s@.len(),
            r is Ok && s@[0] != 0x2b ==> r->Ok_0.0 == 1 && piece_letter(s@[0]) == Some(r->Ok_0.1),
            r is Ok && s@[0] == 0x2b ==> r->Ok_0.0 == 2 && piece_letter(s@[1]).is_some()
                && piece_letter(s@[1]).unwrap().kind.promote_spec() == Some(r->Ok_0.1.kind)
                && piece_letter(s@[1]).unwrap().color == r->Ok_0.1.color,
            0 < s@.len() && s@[0] != 0x2b && piece_letter(s@[0]).is_some() ==> r is Ok,
    {
        piece_at(s, 0)
    }

    /// Parses a piece such as `P`, `+b` or `k`.
    pub fn from_usi(s: &str) -> (r: Result<Piece, Error>)
        ensures
            whole(r, piece_token(s.spec_bytes(), 0), s.spec_bytes().len() as int),
            r is Ok ==> 0 < s.spec_bytes().len() <= 2,
            r is Ok && s.spec_bytes().len() == 1 ==> piece_letter(s.spec_bytes()[0]) == Some(
                r->Ok_0,
            ),
    {
        let b = s.as_bytes();
        match piece_at(b, 0) {
            Ok((n, p)) => {
                if n == b.len() {
                    Ok(p)
                } else {
                    Err(Error::Extra { from: n })
                }
            },
            Err(e) => Err(e),
        }
    }
}

impl Move {
    /// Reads a move from the start of `s`; returns how many bytes were read.
    pub fn parse_usi_slice(s: &[u8]) -> (r: Result<(usize, Move), Error>)
        ensures
            same_token(r, move_token(s@, 0)),
            r is Ok ==> 4 <= r->Ok_0.0 <= s@.len(),
    {
        move_at(s, 0)
    }

    /// Parses a move such as `7g7f`, `8h2b+` or `P*3d` (a drop is read as Black's).
    pub fn from_usi(s: &str) -> (r: Result<Move, Error>)
        ensures
            whole(r, move_token(s.spec_bytes(), 0), s.spec_bytes().len() as int),
            r is Ok ==> 4 <= s.spec_bytes().len() <= 5,
            r is Ok && s.spec_bytes()[1] == 0x2a ==> (r->Ok_0 matches Move::Drop { piece, to }
                && piece_letter(s.spec_bytes()[0]) == Some(piece) && to.idx() == square_bytes(
                s.spec_bytes()[2],
                s.spec_bytes()[3],
            ).unwrap()),
            r is Ok && s.spec_bytes()[1] != 0x2a ==> (r->Ok_0 matches Move::Normal {
                from,
                to,
                promote,
            } && from.idx() == square_bytes(s.spec_bytes()[0], s.spec_bytes()[1]).unwrap()
                && to.idx() == square_bytes(s.spec_bytes()[2], s.spec_bytes()[3]).unwrap()
                && promote == (s.spec_bytes().len() == 5)),
    {
        let b = s.as_bytes();
        match move_at(b, 0) {
            Ok((n, mv)) => {
                if n == b.len() {
                    Ok(mv)
                } else {
                    Err(Error::Extra { from: n })
                }
            },
            Err(e) => Err(e),
        }
    }
}

impl PartialPosition {
    /// Reads a position from the start of `s`; returns how many bytes were read.
    pub fn parse_usi_slice(s: &[u8]) -> (r: Result<(usize, PartialPosition), Error>)
        ensures
            r is Ok == sfen(s@, 0).is_some(),
            r is Ok ==> r->Ok_0.0 == sfen(s@, 0).unwrap().0 && r->Ok_0.1@ == sfen(s@, 0).unwrap().1,
            r is Ok ==> 0 < r->Ok_0.0 <= s@.len() && r->Ok_0.1.wf(),
    {
        position_at(s, 0)
    }

    /// Parses a position: `startpos`, or `sfen <board> <side> <hands> [<move count>]`.
    pub fn from_usi(s: &str) -> (r: Result<PartialPosition, Error>)
        ensures
            r is Ok <==> (sfen(s.spec_bytes(), 0).is_some() && sfen(s.spec_bytes(), 0).unwrap().0
                == s.spec_bytes().len()),
            r is Ok ==> r->Ok_0@ == sfen(s.spec_bytes(), 0).unwrap().1 && r->Ok_0.wf(),
    {
        let b = s.as_bytes();
        match position_at(b, 0) {
            Ok((n, p)) => {
                if n == b.len() {
                    Ok(p)
                } else {
                    Err(Error::Extra { from: n })
                }
            },
            Err(e) => Err(e),
        }
    }
}

/// `mv` as the side `side` plays it: a drop takes the piece of `side`.
pub open spec fn as_played(mv: Move, side: Color) -> Move {
    match mv {
        Move::Drop { piece, to } => Move::Drop { piece: Piece { kind: piece.kind, color: side }, to },
        Move::Normal { .. } => mv,
    }
}

/// Plays from `m` the moves read from `i` on, each after one or more spaces, skipping
/// those that cannot be played: where reading stopped and the position reached.
pub open spec fn play_moves(s: Seq<u8>, i: int, m: PositionModel) -> (int, PositionModel)
    decreases s.len() - i,
{
    if !(0 <= i < s.len() && s[i] == 0x20) {
        (i, m)
    } else {
        match move_token(s, skip_spaces(s, i)) {
            Err(_) => (i, m),
            Ok((end, mv)) => if end <= i {
                (i, m)
            } else {
                let played = as_played(mv, m.side);
                play_moves(
                    s,
                    end,
                    match m.apply(played) {
                        Some(n) => n,
                        None => m,
                    },
                )
            },
        }
    }
}

/// The bytes of `moves`.
pub open spec fn moves_word() -> Seq<u8> {
    seq![0x6du8, 0x6f, 0x76, 0x65, 0x73]
}

/// The game written at `at`: a position (see `sfen`), then, if they follow, spaces,
/// `moves` and the moves played (see `play_moves`). Where it ends and the position
/// reached, or `None`.
pub open spec fn game_spec(s: Seq<u8>, at: int) -> Option<(int, PositionModel)> {
    match sfen(s, at) {
        None => None,
        Some((after, m)) => if !(after < s.len() && s[after] == 0x20) {
            Some((after, m))
        } else {
            let next = skip_spaces(s, after);
            if !word_at(s, next, moves_word()) {
                Some((after, m))
            } else {
                Some(play_moves(s, next + 5, m))
            }
        },
    }
}

/// Reads a game at `at` (see `game_spec`); its initial position is the position read.
pub fn game_at(s: &[u8], at: usize) -> (r: Result<(usize, Position), Error>)
    requires
        at <= s@.len(),
    ensures
        r is Ok == sfen(s@, at as int).is_some(),
        r is Ok ==> r->Ok_0.1.initial_spec()@ == sfen(s@, at as int).unwrap().1,
        r is Ok ==> r->Ok_0.0 == game_spec(s@, at as int).unwrap().0 && r->Ok_0.1.inner_spec()@
            == game_spec(s@, at as int).unwrap().1,
        r is Ok ==> at < r->Ok_0.0 <= s@.len() && r->Ok_0.1.inner_spec().wf(),
{
    let (after, partial) = match position_at(s, at) {
        Ok(x) => x,
        Err(e) => return Err(e),
    };
    proof {
        lemma_len(s);
    }
    let mut game = Position::arbitrary_position(partial);
    let next = match parse_many_whitespaces(s, after) {
        Ok(n) => n,
        Err(_) => return Ok((after, game)),
    };
    proof {
        lemma_skip_spaces(s@, after as int, next as int);
    }
    let moves: [u8; 5] = [0x6d, 0x6f, 0x76, 0x65, 0x73];
    assert(moves@ =~= moves_word());
    if !has_word(s, next, &moves) {
        return Ok((after, game));
    }
    let ghost start_model = partial@;
    let mut i = next + 5;
    while i < s.len()
        invariant
            at < i <= s@.len(),
            s@.len() <= usize::MAX,
            game.inner_spec().wf(),
            sfen(s@, at as int).is_some(),
            game.initial_spec()@ == sfen(s@, at as int).unwrap().1,
            game_spec(s@, at as int) == Some(play_moves(s@, next + 5, start_model)),
            play_moves(s@, next + 5, start_model) == play_moves(s@, i as int, game.inner_spec()@),
        decreases s@.len() - i,
    {
        let start = match parse_many_whitespaces(s, i) {
            Ok(n) => n,
            Err(_) => return Ok((i, game)),
        };
        proof {
            lemma_skip_spaces(s@, i as int, start as int);
        }
        let (end, mv) = match move_at(s, start) {
            Ok(x) => x,
            Err(_) => return Ok((i, game)),
        };
        let side = game.side_to_move();
        let mv = match mv {
            Move::Drop { piece, to } => Move::Drop { piece: Piece { kind: piece.kind, color: side }, to },
            Move::Normal { .. } => mv,
        };
        let _ = game.make_move(mv);
        i = end;
    }
    Ok((i, game))
}

impl Position {
    /// Reads a game from the start of `s`; returns how many bytes were read.
    pub fn parse_usi_slice(s: &[u8]) -> (r: Result<(usize, Position), Error>)
        ensures
            r is Ok == game_spec(s@, 0).is_some(),
            r is Ok ==> r->Ok_0.0 == game_spec(s@, 0).unwrap().0 && r->Ok_0.1.inner_spec()@
                == game_spec(s@, 0).unwrap().1,
            r is Ok ==> r->Ok_0.1.initial_spec()@ == sfen(s@, 0).unwrap().1,
            r is Ok ==> 0 < r->Ok_0.0 <= s@.len() && r->Ok_0.1.inner_spec().wf(),
    {
        game_at(s, 0)
    }

    /// Parses a game: a position (see `PartialPosition::from_usi`), optionally
    /// followed by `moves` and the moves played.
    pub fn from_usi(s: &str) -> (r: Result<Position, Error>)
        ensures
            r is Ok <==> (game_spec(s.spec_bytes(), 0).is_some() && game_spec(
                s.spec_bytes(),
                0,
            ).unwrap().0 == s.spec_bytes().len()),
            r is Ok ==> r->Ok_0.inner_spec()@ == game_spec(s.spec_bytes(), 0).unwrap().1,
            r is Ok ==> r->Ok_0.initial_spec()@ == sfen(s.spec_bytes(), 0).unwrap().1,
            r is Ok ==> r->Ok_0.inner_spec().wf(),
    {
        let b = s.as_bytes();
        match game_at(b, 0) {
            Ok((n, p)) => {
                if n == b.len() {
                    Ok(p)
                } else {
                    Err(Error::Extra { from: n })
                }
            },
            Err(e) => Err(e),
        }
    }
}

} // verus!
