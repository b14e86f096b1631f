use vstd::prelude::*;

use crate::bitboard::{flip_set, Bitboard};
use crate::color::Color;
use crate::piece::Piece;
use crate::piece_kind::PieceKind;
use crate::position::{PartialPosition, PositionModel};
use crate::square::{
    file_of, index_of, lemma_coords, lemma_flip_coords, lemma_square_index, on_board, rank_of, Square,
};

verus! {

/// A file or rank difference seen from `c`'s side: forward is negative for both players.
pub open spec fn rel(d: int, c: Color) -> int {
    match c {
        Color::Black => d,
        Color::White => -d,
    }
}

/// Whether a piece of `kind` owned by `c` reaches, in one step that nothing can block,
/// the square `df` files and `dr` ranks away.
pub open spec fn short_step(kind: PieceKind, c: Color, df: int, dr: int) -> bool {
    let x = rel(df, c);
    let y = rel(dr, c);
    match kind {
        PieceKind::Pawn => x == 0 && y == -1,
        PieceKind::Knight => (x == 1 || x == -1) && y == -2,
        PieceKind::Silver => (-1 <= x <= 1 && y == -1) || ((x == 1 || x == -1) && y == 1),
        PieceKind::Gold | PieceKind::ProPawn | PieceKind::ProLance | PieceKind::ProKnight
        | PieceKind::ProSilver => (-1 <= x <= 1 && y == -1) || ((x == 1 || x == -1) && y == 0) || (
        x == 0 && y == 1),
        PieceKind::King => -1 <= df <= 1 && -1 <= dr <= 1 && (df != 0 || dr != 0),
        PieceKind::ProBishop => -1 <= df <= 1 && -1 <= dr <= 1 && ((df == 0) != (dr == 0)),
        PieceKind::ProRook => (df == 1 || df == -1) && (dr == 1 || dr == -1),
        _ => false,
    }
}

/// The squares that a piece of `kind` owned by `c` on index `from` reaches in one step.
pub open spec fn short_set(kind: PieceKind, c: Color, from: int) -> Set<int> {
    Set::new(
        |i: int|
            1 <= i <= 81 && short_step(
                kind,
                c,
                file_of(i) - file_of(from),
                rank_of(i) - rank_of(from),
            ),
    )
}

/// A direction of one step.
pub open spec fn is_direction(a: int, b: int) -> bool {
    -1 <= a <= 1 && -1 <= b <= 1 && (a != 0 || b != 0)
}

pub open spec fn ray_measure(f: int, r: int, a: int, b: int) -> int {
    (if a == 1 {
        9 - f
    } else if a == -1 {
        f
    } else {
        0
    }) + (if b == 1 {
        9 - r
    } else if b == -1 {
        r
    } else {
        0
    })
}

/// The squares seen from (`f`, `r`) in direction (`a`, `b`): each square up to and
/// including the first occupied one, or up to the edge of the board.
pub open spec fn ray(f: int, r: int, a: int, b: int, occ: Set<int>) -> Set<int>
    decreases ray_measure(f, r, a, b),
{
    if is_direction(a, b) && on_board(f + a, r + b) && ray_measure(f, r, a, b) > 0 {
        let n = index_of(f + a, r + b);
        if occ.contains(n) {
            set![n]
        } else {
            set![n].union(ray(f + a, r + b, a, b, occ))
        }
    } else {
        Set::empty()
    }
}

/// The rays of the four diagonal directions.
pub open spec fn diagonal_rays(f: int, r: int, occ: Set<int>) -> Set<int> {
    ray(f, r, 1, 1, occ).union(ray(f, r, 1, -1, occ)).union(ray(f, r, -1, 1, occ)).union(
        ray(f, r, -1, -1, occ),
    )
}

/// The rays of the four orthogonal directions.
pub open spec fn orthogonal_rays(f: int, r: int, occ: Set<int>) -> Set<int> {
    ray(f, r, 0, 1, occ).union(ray(f, r, 0, -1, occ)).union(ray(f, r, 1, 0, occ)).union(
        ray(f, r, -1, 0, occ),
    )
}

/// The squares that a sliding piece of `kind` owned by `c` on index `from` reaches,
/// given the occupied squares `occ`.
pub open spec fn slide_set(kind: PieceKind, c: Color, from: int, occ: Set<int>) -> Set<int> {
    let f = file_of(from);
    let r = rank_of(from);
    match kind {
        PieceKind::Lance => ray(f, r, 0, rel(-1, c), occ),
        PieceKind::Bishop | PieceKind::ProBishop => diagonal_rays(f, r, occ),
        PieceKind::Rook | PieceKind::ProRook => orthogonal_rays(f, r, occ),
        _ => Set::empty(),
    }
}

/// Every square a piece of `kind` owned by `c` on index `from` reaches, given the
/// occupied squares `occ`, whoever holds them.
pub open spec fn reach(kind: PieceKind, c: Color, from: int, occ: Set<int>) -> Set<int> {
    short_set(kind, c, from).union(slide_set(kind, c, from, occ))
}

/// The squares `piece` on index `from` attacks or may move to in position `m`:
/// what it reaches, without the squares of its own side.
pub open spec fn attack_set(m: PositionModel, piece: Piece, from: int) -> Set<int> {
    reach(piece.kind, piece.color, from, m.occupied()).difference(m.owned(piece.color))
}

fn short_step_exec(kind: PieceKind, c: Color, df: i8, dr: i8) -> (r: bool)
    requires
        -8 <= df <= 8,
        -8 <= dr <= 8,
    ensures
        r == short_step(kind, c, df as int, dr as int),
{
    let (x, y) = match c {
        Color::Black => (df, dr),
        Color::White => (-df, -dr),
    };
    match kind {
        PieceKind::Pawn => x == 0 && y == -1,
        PieceKind::Knight => (x == 1 || x == -1) && y == -2,
        PieceKind::Silver => (-1 <= x && x <= 1 && y == -1) || ((x == 1 || x == -1) && y == 1),
        PieceKind::Gold | PieceKind::ProPawn | PieceKind::ProLance | PieceKind::ProKnight
        | PieceKind::ProSilver => (-1 <= x && x <= 1 && y == -1) || ((x == 1 || x == -1) && y
            == 0) || (x == 0 && y == 1),
        PieceKind::King => -1 <= df && df <= 1 && -1 <= dr && dr <= 1 && (df != 0 || dr != 0),
        PieceKind::ProBishop => -1 <= df && df <= 1 && -1 <= dr && dr <= 1 && ((df == 0) != (dr
            == 0)),
        PieceKind::ProRook => (df == 1 || df == -1) && (dr == 1 || dr == -1),
        _ => false,
    }
}

/// The squares a piece reaches in one unblockable step from `from`, found by testing
/// each square's offset, seen from `color`'s side, against the kind's pattern.
pub fn short_range(kind: PieceKind, color: Color, from: Square) -> (r: Bitboard)
    ensures
        r@ == short_set(kind, color, from.idx()),
{
    let all = Square::all();
    let ff = from.file() as i8;
    let fr = from.rank() as i8;
    let mut r = Bitboard::empty();
    let mut k: usize = 0;
    while k < 81
        invariant
            0 <= k <= 81,
            all@.len() == 81,
            forall|i: int| 0 <= i < 81 ==> #[trigger] all@[i].idx() == i + 1,
            ff == file_of(from.idx()),
            fr == rank_of(from.idx()),
            1 <= ff <= 9,
            1 <= fr <= 9,
            r@ == Set::new(
                |i: int|
                    1 <= i <= k && short_step(
                        kind,
                        color,
                        file_of(i) - file_of(from.idx()),
                        rank_of(i) - rank_of(from.idx()),
                    ),
            ),
        decreases 81 - k,
    {
        let s = all[k];
        let df = s.file() as i8 - ff;
        let dr = s.rank() as i8 - fr;
        if short_step_exec(kind, color, df, dr) {
            r = r.insert(s);
        }
        assert(r@ =~= Set::new(
            |i: int|
                1 <= i <= k + 1 && short_step(
                    kind,
                    color,
                    file_of(i) - file_of(from.idx()),
                    rank_of(i) - rank_of(from.idx()),
                ),
        ));
        k += 1;
    }
    assert(r@ =~= short_set(kind, color, from.idx()));
    r
}

/// The squares seen from `from` in direction (`file_delta`, `rank_delta`), up to and
/// including the first square of `occupied`.
pub fn long_range(from: Square, occupied: Bitboard, file_delta: i8, rank_delta: i8) -> (r:
    Bitboard)
    requires
        is_direction(file_delta as int, rank_delta as int),
    ensures
        r@ == ray(
            from.file_spec(),
            from.rank_spec(),
            file_delta as int,
            rank_delta as int,
            occupied@,
        ),
{
    let ghost a = file_delta as int;
    let ghost b = rank_delta as int;
    let ghost total = ray(from.file_spec(), from.rank_spec(), a, b, occupied@);
    let mut result = Bitboard::empty();
    let mut current = from;
    proof {
        lemma_square_index(from);
    }
    loop
        invariant
            is_direction(a, b),
            a == file_delta,
            b == rank_delta,
            on_board(current.file_spec(), current.rank_spec()),
            result@.union(ray(current.file_spec(), current.rank_spec(), a, b, occupied@))
                == total,
        ensures
            result@ == total,
        decreases ray_measure(current.file_spec(), current.rank_spec(), a, b),
    {
        let ghost cf = current.file_spec();
        let ghost cr = current.rank_spec();
        match current.shift(file_delta, rank_delta) {
            None => {
                assert(ray(cf, cr, a, b, occupied@) =~= Set::<int>::empty());
                assert(result@ =~= total);
                break ;
            },
            Some(next) => {
                proof {
                    lemma_coords(cf + a, cr + b);
                    lemma_square_index(next);
                }
                result = result.insert(next);
                if occupied.contains(next) {
                    assert(ray(cf, cr, a, b, occupied@) =~= set![next.idx()]);
                    assert(result@ =~= total);
                    break ;
                }
                assert(ray(cf, cr, a, b, occupied@) =~= set![next.idx()].union(
                    ray(cf + a, cr + b, a, b, occupied@),
                ));
                assert(result@.union(ray(next.file_spec(), next.rank_spec(), a, b, occupied@))
                    =~= total);
                current = next;
            },
        }
    }
    result
}

/// The squares a lance of `color` on `from` reaches: straight forward.
pub fn lance_range(color: Color, from: Square, occupied: Bitboard) -> (r: Bitboard)
    ensures
        r@ == slide_set(PieceKind::Lance, color, from.idx(), occupied@),
{
    let forward: i8 = match color {
        Color::Black => -1,
        Color::White => 1,
    };
    long_range(from, occupied, 0, forward)
}

/// The squares a bishop on `from` reaches along its four diagonals.
pub fn bishop_range(from: Square, occupied: Bitboard) -> (r: Bitboard)
    ensures
        r@ == diagonal_rays(from.file_spec(), from.rank_spec(), occupied@),
{
    long_range(from, occupied, 1, 1).or(long_range(from, occupied, 1, -1)).or(
        long_range(from, occupied, -1, 1),
    ).or(long_range(from, occupied, -1, -1))
}

/// The squares a rook on `from` reaches along its four orthogonal lines.
pub fn rook_range(from: Square, occupied: Bitboard) -> (r: Bitboard)
    ensures
        r@ == orthogonal_rays(from.file_spec(), from.rank_spec(), occupied@),
{
    long_range(from, occupied, 0, 1).or(long_range(from, occupied, 0, -1)).or(
        long_range(from, occupied, 1, 0),
    ).or(long_range(from, occupied, -1, 0))
}

/// The squares a sliding piece reaches; empty for a kind that does not slide.
pub fn slide_range(kind: PieceKind, color: Color, from: Square, occupied: Bitboard) -> (r:
    Bitboard)
    ensures
        r@ == slide_set(kind, color, from.idx(), occupied@),
{
    match kind {
        PieceKind::Lance => lance_range(color, from, occupied),
        PieceKind::Bishop | PieceKind::ProBishop => bishop_range(from, occupied),
        PieceKind::Rook | PieceKind::ProRook => rook_range(from, occupied),
        _ => Bitboard::empty(),
    }
}

/// The squares `piece`, standing on `from`, attacks or may move to in `position`:
/// captures of the other side's pieces included, its own side's squares excluded.
pub fn attacking(position: &PartialPosition, piece: Piece, from: Square) -> (r: Bitboard)
    ensures
        r@ == attack_set(position@, piece, from.idx()),
{
    let occupied = position.vacant_bitboard().not();
    assert(occupied@ =~= position@.occupied());
    let range = short_range(piece.kind, piece.color, from).or(
        slide_range(piece.kind, piece.color, from, occupied),
    );
    range.and_not(position.player_bitboard(piece.color))
}

/// Whether `piece`, standing on `from`, can reach `to` in `position`.
pub fn check(position: &PartialPosition, piece: Piece, from: Square, to: Square) -> (r: bool)
    ensures
        r == attack_set(position@, piece, from.idx()).contains(to.idx()),
{
    attacking(position, piece, from).contains(to)
}

proof fn lemma_flip_union(a: Set<int>, b: Set<int>)
    ensures
        flip_set(a.union(b)) == flip_set(a).union(flip_set(b)),
{
    assert(flip_set(a.union(b)) =~= flip_set(a).union(flip_set(b)));
}

/// A ray rotated by 180 degrees is the ray in the opposite direction from the rotated
/// square, over the rotated occupied squares.
proof fn lemma_ray_flip(f: int, r: int, a: int, b: int, occ: Set<int>)
    ensures
        flip_set(ray(f, r, a, b, occ)) == ray(10 - f, 10 - r, -a, -b, flip_set(occ)),
    decreases ray_measure(f, r, a, b),
{
    let fo = flip_set(occ);
    if is_direction(a, b) && on_board(f + a, r + b) && ray_measure(f, r, a, b) > 0 {
        let n = index_of(f + a, r + b);
        assert(index_of(10 - f - a, 10 - r - b) == 82 - n);
        assert(fo.contains(82 - n) == occ.contains(n));
        assert(ray_measure(10 - f, 10 - r, -a, -b) > 0);
        if occ.contains(n) {
            assert(flip_set(set![n]) =~= set![82 - n]);
        } else {
            lemma_ray_flip(f + a, r + b, a, b, occ);
            lemma_flip_union(set![n], ray(f + a, r + b, a, b, occ));
            assert(flip_set(set![n]) =~= set![82 - n]);
        }
    } else {
        assert(flip_set(Set::<int>::empty()) =~= Set::<int>::empty());
    }
}

proof fn lemma_short_flip(kind: PieceKind, from: int)
    requires
        1 <= from <= 81,
    ensures
        flip_set(short_set(kind, Color::Black, from)) == short_set(kind, Color::White, 82 - from),
{
    lemma_flip_coords(from);
    assert forall|i: int|
        #[trigger] flip_set(short_set(kind, Color::Black, from)).contains(i) == short_set(
            kind,
            Color::White,
            82 - from,
        ).contains(i) by {
        if 1 <= i <= 81 {
            lemma_flip_coords(i);
        }
    }
    assert(flip_set(short_set(kind, Color::Black, from)) =~= short_set(
        kind,
        Color::White,
        82 - from,
    ));
}

/// Rotating the board by 180 degrees turns what a Black piece of any kind reaches from
/// `from` into what the White piece of that kind reaches from the rotated square, with
/// the occupied squares rotated too; so too once the squares of its own side, rotated
/// alike, are taken out.
pub proof fn lemma_attack_symmetry(
    kind: PieceKind,
    from: int,
    occ: Set<int>,
    own: Set<int>,
)
    requires
        1 <= from <= 81,
    ensures
        flip_set(reach(kind, Color::Black, from, occ)) == reach(
            kind,
            Color::White,
            82 - from,
            flip_set(occ),
        ),
        flip_set(reach(kind, Color::Black, from, occ).difference(own)) == reach(
            kind,
            Color::White,
            82 - from,
            flip_set(occ),
        ).difference(flip_set(own)),
{
    lemma_flip_coords(from);
    lemma_short_flip(kind, from);
    let f = file_of(from);
    let r = rank_of(from);
    let fo = flip_set(occ);
    assert(file_of(82 - from) == 10 - f && rank_of(82 - from) == 10 - r);
    lemma_ray_flip(f, r, 1, 1, occ);
    lemma_ray_flip(f, r, 1, -1, occ);
    lemma_ray_flip(f, r, -1, 1, occ);
    lemma_ray_flip(f, r, -1, -1, occ);
    lemma_ray_flip(f, r, 0, 1, occ);
    lemma_ray_flip(f, r, 0, -1, occ);
    lemma_ray_flip(f, r, 1, 0, occ);
    lemma_ray_flip(f, r, -1, 0, occ);
    let black_slide = slide_set(kind, Color::Black, from, occ);
    let white_slide = slide_set(kind, Color::White, 82 - from, fo);
    assert(flip_set(black_slide) =~= white_slide);
    lemma_flip_union(short_set(kind, Color::Black, from), black_slide);
    let rb = reach(kind, Color::Black, from, occ);
    let rw = reach(kind, Color::White, 82 - from, fo);
    assert(flip_set(rb) =~= rw);
    assert(flip_set(rb.difference(own)) =~= rw.difference(flip_set(own)));
}

} // verus!
