use vstd::prelude::*;

use crate::bitboard::Bitboard;
use crate::color::Color;
use crate::piece_kind::PieceKind;
use crate::position::{PartialPosition, PositionModel};
use crate::square::{file_of, lemma_index_injective, rank_of, relative, Square};

verus! {

/// -1, 0 or 1 as `x` is negative, zero or positive.
pub open spec fn sign(x: int) -> int {
    if x > 0 {
        1
    } else if x < 0 {
        -1
    } else {
        0
    }
}

/// Whether a kind moves like a gold general, or is a silver general: the kinds that
/// are told apart by the file they come from.
pub open spec fn gold_like(kind: PieceKind) -> bool {
    kind == PieceKind::Gold || kind == PieceKind::Silver || kind == PieceKind::ProPawn || kind
        == PieceKind::ProLance || kind == PieceKind::ProKnight || kind == PieceKind::ProSilver
}

/// Which way a move from index `from` to index `to` goes, seen from `side`:
/// 1 forward, -1 backward, 0 sideways.
pub open spec fn vertical(side: Color, from: int, to: int) -> int {
    sign(relative(rank_of(from), side) - relative(rank_of(to), side))
}

/// The word for a direction of `vertical`.
pub open spec fn vertical_word(d: int) -> &'static str {
    if d > 0 {
        "上"
    } else if d < 0 {
        "引"
    } else {
        "寄"
    }
}

fn sign_exec(x: i8) -> (r: i8)
    ensures
        r == sign(x as int),
{
    if x > 0 {
        1
    } else if x < 0 {
        -1
    } else {
        0
    }
}

/// Whether `kind` is told apart by the file it comes from.
pub fn is_gold_like(kind: PieceKind) -> (r: bool)
    ensures
        r == gold_like(kind),
{
    matches!(
        kind,
        PieceKind::Gold | PieceKind::Silver | PieceKind::ProPawn | PieceKind::ProLance
            | PieceKind::ProKnight | PieceKind::ProSilver
    )
}

/// The candidates that move the same way (forward, backward or sideways) as the move
/// from `from` to `to`, and the word for that way; `None` if there are none.
pub fn run_move(position: &PartialPosition, from: Square, to: Square, candidates: Bitboard) -> (r:
    Option<(Bitboard, &'static str)>)
    ensures
        ({
            let side = position@.side;
            let d = vertical(side, from.idx(), to.idx());
            let same = vertical_split(side, from.idx(), to.idx(), candidates@);
            &&& r.is_some() <==> same != Set::<int>::empty()
            &&& r.is_some() ==> r.unwrap().0@ == same && r.unwrap().1 == vertical_word(d)
        }),
{
    let side = position.side_to_move();
    let to_rank = to.relative_rank(side) as i8;
    let delta = sign_exec(from.relative_rank(side) as i8 - to_rank);
    let ghost d = vertical(side, from.idx(), to.idx());
    let ghost same = vertical_split(side, from.idx(), to.idx(), candidates@);
    let list = candidates.squares();
    let mut result = Bitboard::empty();
    let mut k: usize = 0;
    while k < list.len()
        invariant
            0 <= k <= list@.len(),
            delta == d,
            side == position@.side,
            to_rank == relative(rank_of(to.idx()), side),
            d == vertical(side, from.idx(), to.idx()),
            same == vertical_split(side, from.idx(), to.idx(), candidates@),
            forall|i: int| 0 <= i < list@.len() ==> candidates@.contains(#[trigger] list@[i].idx()),
            forall|i: int|
                #![auto]
                candidates@.contains(i) ==> exists|j: int| 0 <= j < list@.len() && list@[j].idx() == i,
            result@ == Set::new(
                |c: int|
                    same.contains(c) && exists|j: int| 0 <= j < k && #[trigger] list@[j].idx() == c,
            ),
        decreases list@.len() - k,
    {
        let c = list[k];
        let c_delta = sign_exec(c.relative_rank(side) as i8 - to_rank);
        let ghost before = result@;
        if c_delta == delta {
            result = result.insert(c);
        }
        proof {
            assert forall|x: int|
                #[trigger] result@.contains(x) == (same.contains(x) && exists|j: int|
                    0 <= j < k + 1 && #[trigger] list@[j].idx() == x) by {
                if same.contains(x) && x != c.idx() {
                    if exists|j: int| 0 <= j < k + 1 && #[trigger] list@[j].idx() == x {
                        let j = choose|j: int| 0 <= j < k + 1 && #[trigger] list@[j].idx() == x;
                        assert(j < k);
                    }
                }
                if x == c.idx() {
                    assert(list@[k as int].idx() == x);
                }
            }
            assert(result@ =~= Set::new(
                |x: int|
                    same.contains(x) && exists|j: int| 0 <= j < k + 1 && #[trigger] list@[j].idx()
                        == x,
            ));
        }
        k += 1;
    }
    assert(result@ =~= same);
    let word = if delta > 0 {
        "上"
    } else if delta < 0 {
        "引"
    } else {
        "寄"
    };
    if result.is_empty() {
        return None;
    }
    Some((result, word))
}

/// The candidates that move the same way (forward, backward or sideways) as the move
/// from index `from` to index `to`.
pub open spec fn vertical_split(side: Color, from: int, to: int, cands: Set<int>) -> Set<int> {
    cands.filter(|c: int| vertical(side, c, to) == vertical(side, from, to))
}

/// The smallest index of a non-empty set.
pub open spec fn lowest(cands: Set<int>) -> int {
    choose|x: int| cands.contains(x) && forall|y: int| cands.contains(y) ==> x <= y
}

/// How the move from index `from` to index `to` is told apart by the side it comes
/// from: the candidates that share that description, and its word; `None` where
/// `from` is empty.
///
/// A gold-like piece moving straight forward is `直`; otherwise it is described by the
/// side it comes from (`右` or `左`, `縦` from the same file). Other pieces are told
/// apart only between exactly two candidates on different files, by which of them is
/// on the mover's right.
pub open spec fn file_split(m: PositionModel, from: int, to: int, cands: Set<int>) -> Option<
    (Set<int>, &'static str),
> {
    let side = m.side;
    match m.at(from) {
        None => None,
        Some(p) => if gold_like(p.kind) {
            let fd = file_of(from) - file_of(to);
            let rel = if side == Color::Black {
                fd
            } else {
                -fd
            };
            if fd == 0 && vertical(side, from, to) > 0 {
                Some((set![from], "直"))
            } else {
                Some(
                    (
                        cands.filter(|c: int| file_of(c) - file_of(to) == fd),
                        if rel < 0 {
                            "右"
                        } else if rel > 0 {
                            "左"
                        } else {
                            "縦"
                        },
                    ),
                )
            }
        } else if cands.len() != 2 {
            Some((cands, "壱"))
        } else {
            let lo = lowest(cands);
            let hi = choose|x: int| cands.contains(x) && x != lo;
            if file_of(lo) == file_of(hi) {
                Some((cands, "？"))
            } else {
                let lo_right = relative(file_of(lo), side) < relative(file_of(hi), side);
                let right = if lo_right {
                    lo
                } else {
                    hi
                };
                let left = if lo_right {
                    hi
                } else {
                    lo
                };
                if from == right {
                    Some((set![from], "右"))
                } else if from == left {
                    Some((set![from], "左"))
                } else {
                    Some((Set::empty(), "無"))
                }
            }
        },
    }
}

/// Whether an executable split `r` is the split `s`.
pub open spec fn same_split(r: Option<(Bitboard, &'static str)>, s: Option<(Set<int>, &'static str)>) -> bool {
    match (r, s) {
        (None, None) => true,
        (Some((b, w)), Some((set, word))) => b@ == set && w == word,
        _ => false,
    }
}

/// The words that single out the move from index `from` to index `to` among the moves
/// of the candidates `cands`: nothing for a single candidate; otherwise the way it
/// moves, the side it comes from, or both, whichever first leaves one candidate.
/// `None` where nothing does.
pub open spec fn words(m: PositionModel, from: int, to: int, cands: Set<int>) -> Option<Seq<char>> {
    let v = vertical_split(m.side, from, to, cands);
    let vw = vertical_word(vertical(m.side, from, to));
    if cands.len() == 0 {
        None
    } else if cands.len() == 1 {
        Some(Seq::empty())
    } else if v.len() == 0 {
        None
    } else {
        match file_split(m, from, to, cands) {
            None => None,
            Some((f, fw)) => if v.len() == 1 {
                Some(vw@)
            } else if f.len() == 1 {
                Some(fw@)
            } else if f.intersect(v).len() == 1 {
                Some(fw@ + vw@)
            } else {
                None
            },
        }
    }
}

pub fn run_file(position: &PartialPosition, from: Square, to: Square, candidates: Bitboard) -> (r:
    Option<(Bitboard, &'static str)>)
    ensures
        same_split(r, file_split(position@, from.idx(), to.idx(), candidates@)),
{
    let side = position.side_to_move();
    let piece = match position.piece_at(from) {
        Some(p) => p,
        None => return None,
    };
    if is_gold_like(piece.kind) {
        let file_diff = from.file() as i8 - to.file() as i8;
        if file_diff == 0 && from.relative_rank(side) as i8 - to.relative_rank(side) as i8 > 0 {
            return Some((Bitboard::single(from), "直"));
        }
        let relative_diff = match side {
            Color::Black => file_diff,
            Color::White => -file_diff,
        };
        let word = if relative_diff < 0 {
            "右"
        } else if relative_diff > 0 {
            "左"
        } else {
            "縦"
        };
        let ghost same = candidates@.filter(|c: int| file_of(c) - file_of(to.idx()) == file_diff);
        let list = candidates.squares();
        let mut result = Bitboard::empty();
        let mut k: usize = 0;
        while k < list.len()
            invariant
                0 <= k <= list@.len(),
                file_diff == file_of(from.idx()) - file_of(to.idx()),
                same == candidates@.filter(|c: int| file_of(c) - file_of(to.idx()) == file_diff),
                forall|i: int|
                    0 <= i < list@.len() ==> candidates@.contains(#[trigger] list@[i].idx()),
                forall|i: int|
                    #![auto]
                    candidates@.contains(i) ==> exists|j: int|
                        0 <= j < list@.len() && list@[j].idx() == i,
                result@ == Set::new(
                    |c: int|
                        same.contains(c) && exists|j: int|
                            0 <= j < k && #[trigger] list@[j].idx() == c,
                ),
            decreases list@.len() - k,
        {
            let c = list[k];
            if c.file() as i8 - to.file() as i8 == file_diff {
                result = result.insert(c);
            }
            proof {
                assert forall|x: int|
                    #[trigger] result@.contains(x) == (same.contains(x) && exists|j: int|
                        0 <= j < k + 1 && #[trigger] list@[j].idx() == x) by {
                    if same.contains(x) && x != c.idx() {
                        if exists|j: int| 0 <= j < k + 1 && #[trigger] list@[j].idx() == x {
                            let j = choose|j: int| 0 <= j < k + 1 && #[trigger] list@[j].idx() == x;
                            assert(j < k);
                        }
                    }
                    if x == c.idx() {
                        assert(list@[k as int].idx() == x);
                    }
                }
                assert(result@ =~= Set::new(
                    |x: int|
                        same.contains(x) && exists|j: int|
                            0 <= j < k + 1 && #[trigger] list@[j].idx() == x,
                ));
            }
            k += 1;
        }
        assert(result@ =~= same);
        return Some((result, word));
    }
    if candidates.count() != 2 {
        return Some((candidates, "壱"));
    }
    proof {
        candidates.lemma_finite();
    }
    let mut rest = candidates;
    let first = match rest.pop() {
        Some(s) => s,
        None => return Some((candidates, "壱")),
    };
    let second = match rest.pop() {
        Some(s) => s,
        None => return Some((candidates, "壱")),
    };
    proof {
        let c = candidates@;
        assert(c.remove(first.idx()).len() == 1);
        assert(c =~= set![first.idx(), second.idx()]);
        let lo = lowest(c);
        assert(c.contains(first.idx()) && forall|y: int| c.contains(y) ==> first.idx() <= y);
        assert(lo == first.idx());
        let hi = choose|x: int| c.contains(x) && x != lo;
        assert(c.contains(second.idx()) && second.idx() != lo);
        assert(hi == second.idx());
        if from.idx() == first.idx() {
            lemma_index_injective(from, first);
        }
        if from.idx() == second.idx() {
            lemma_index_injective(from, second);
        }
    }
    if first.file() == second.file() {
        return Some((candidates, "？"));
    }
    let (right, left) = if first.relative_file(side) < second.relative_file(side) {
        (first, second)
    } else {
        (second, first)
    };
    let word = if from == right {
        "右"
    } else if from == left {
        "左"
    } else {
        return Some((Bitboard::empty(), "無"));
    };
    Some((Bitboard::single(from), word))
}

/// The words that tell the move from `from` to `to` apart from the moves of the other
/// `candidates` (the squares whose piece, of the same kind and owner, can also move to
/// `to`): nothing for a single candidate; otherwise the way it moves, the side it comes
/// from, or both, whichever first singles it out. `None` where nothing does.
pub fn run(position: &PartialPosition, from: Square, to: Square, candidates: Bitboard) -> (r:
    Option<String>)
    ensures
        r.is_some() == words(position@, from.idx(), to.idx(), candidates@).is_some(),
        r.is_some() ==> r.unwrap()@ == words(position@, from.idx(), to.idx(), candidates@).unwrap(),
{
    proof {
        candidates.lemma_finite();
        if candidates@.len() == 0 {
            candidates@.lemma_len0_is_empty();
        }
    }
    if candidates.is_empty() {
        return None;
    }
    if candidates.count() == 1 {
        return Some(String::new());
    }
    let (subset2, word2) = match run_move(position, from, to, candidates) {
        Some(x) => x,
        None => return None,
    };
    let (subset1, word1) = match run_file(position, from, to, candidates) {
        Some(x) => x,
        None => return None,
    };
    proof {
        subset2.lemma_finite();
        if subset2@.len() == 0 {
            subset2@.lemma_len0_is_empty();
        }
    }
    let mut out = String::new();
    if subset2.count() == 1 {
        out.append(word2);
        return Some(out);
    }
    if subset1.count() == 1 {
        out.append(word1);
        return Some(out);
    }
    if subset1.and(subset2).count() == 1 {
        out.append(word1);
        out.append(word2);
        return Some(out);
    }
    None
}

} // verus!
