use vstd::prelude::*;

use crate::square::Square;

verus! {

/// Whether bit `k` of `x` is set.
pub open spec fn bit(x: u128, k: u128) -> bool {
    (x >> k) & 1u128 == 1u128
}

/// The indices in `1..=n` whose bit (index - 1) is set in `x`.
pub open spec fn bits_upto(x: u128, n: int) -> Set<int> {
    Set::new(|i: int| 1 <= i <= n && bit(x, (i - 1) as u128))
}

/// How many of the lowest `n` bits of `x` are set.
pub open spec fn bits_count(x: u128, n: int) -> nat
    decreases n,
{
    if n <= 0 {
        0
    } else {
        bits_count(x, n - 1) + if bit(x, (n - 1) as u128) {
            1nat
        } else {
            0nat
        }
    }
}

/// The 81 indices of the board.
pub open spec fn board_indices() -> Set<int> {
    Set::new(|i: int| 1 <= i <= 81)
}

/// A set of indices rotated by 180 degrees: index `i` goes to `82 - i`.
pub open spec fn flip_set(s: Set<int>) -> Set<int> {
    Set::new(|i: int| s.contains(82 - i))
}

/// The bits of a board: bit `i - 1` stands for the square of index `i`.
pub const BOARD_MASK: u128 = 0x1_ffff_ffff_ffff_ffff_ffffu128;

/// A set of squares, one bit per square.
#[derive(Clone, Copy, Debug, PartialEq, Eq, Hash, Structural)]
pub struct Bitboard {
    bits: u128,
}

proof fn lemma_bit_or(a: u128, b: u128, k: u128)
    requires
        k < 128,
    ensures
        bit(a | b, k) == (bit(a, k) || bit(b, k)),
{
    assert(((a | b) >> k) & 1u128 == 1u128 <==> ((a >> k) & 1u128 == 1u128 || (b >> k) & 1u128
        == 1u128)) by (bit_vector)
        requires
            k < 128,
    ;
}

proof fn lemma_bit_and(a: u128, b: u128, k: u128)
    requires
        k < 128,
    ensures
        bit(a & b, k) == (bit(a, k) && bit(b, k)),
{
    assert(((a & b) >> k) & 1u128 == 1u128 <==> ((a >> k) & 1u128 == 1u128 && (b >> k) & 1u128
        == 1u128)) by (bit_vector)
        requires
            k < 128,
    ;
}

proof fn lemma_bit_xor(a: u128, b: u128, k: u128)
    requires
        k < 128,
    ensures
        bit(a ^ b, k) == (bit(a, k) != bit(b, k)),
{
    assert(((a ^ b) >> k) & 1u128 == 1u128 <==> ((a >> k) & 1u128 == 1u128 != ((b >> k) & 1u128
        == 1u128))) by (bit_vector)
        requires
            k < 128,
    ;
}

proof fn lemma_bit_not_mask(a: u128, k: u128)
    requires
        k < 81,
    ensures
        bit(!a & 0x1_ffff_ffff_ffff_ffff_ffffu128, k) == !bit(a, k),
{
    assert(((!a & 0x1_ffff_ffff_ffff_ffff_ffffu128) >> k) & 1u128 == 1u128 <==> !((a >> k) & 1u128
        == 1u128)) by (bit_vector)
        requires
            k < 81,
    ;
}

proof fn lemma_bit_single(s: u128, k: u128)
    requires
        s < 128,
        k < 128,
    ensures
        bit(1u128 << s, k) == (k == s),
{
    assert((((1u128 << s) >> k) & 1u128 == 1u128) <==> k == s) by (bit_vector)
        requires
            s < 128,
            k < 128,
    ;
}

proof fn lemma_bit_zero(k: u128)
    ensures
        !bit(0u128, k),
{
    assert(!((0u128 >> k) & 1u128 == 1u128)) by (bit_vector);
}

proof fn lemma_bits_upto_len(x: u128, n: int)
    requires
        0 <= n <= 81,
    ensures
        bits_upto(x, n).finite(),
        bits_upto(x, n).len() == bits_count(x, n),
    decreases n,
{
    if n == 0 {
        assert(bits_upto(x, 0) =~= Set::empty());
    } else {
        lemma_bits_upto_len(x, n - 1);
        if bit(x, (n - 1) as u128) {
            assert(bits_upto(x, n) =~= bits_upto(x, n - 1).insert(n));
        } else {
            assert(bits_upto(x, n) =~= bits_upto(x, n - 1));
        }
    }
}

impl View for Bitboard {
    type V = Set<int>;

    /// The set of square indices in this bitboard.
    closed spec fn view(&self) -> Set<int> {
        bits_upto(self.bits, 81)
    }
}

impl Bitboard {
    /// The squares of a bitboard lie on the board.
    pub proof fn lemma_finite(self)
        ensures
            self@.subset_of(board_indices()),
            self@.finite(),
            self@.len() <= 81,
    {
        lemma_bits_upto_len(self.bits, 81);
        board_indices_finite_lemma();
        vstd::set_lib::lemma_len_subset(self@, board_indices());
    }

    #[verifier::type_invariant]
    spec fn inv(self) -> bool {
        self.bits >> 81u128 == 0
    }

    /// The empty set.
    pub fn empty() -> (r: Bitboard)
        ensures
            r@ == Set::<int>::empty(),
    {
        proof {
            assert(0u128 >> 81u128 == 0) by (bit_vector);
            assert forall|i: int| 1 <= i <= 81 implies !#[trigger] bit(0u128, (i - 1) as u128) by {
                lemma_bit_zero((i - 1) as u128);
            }
        }
        let r = Bitboard { bits: 0 };
        assert(r@ =~= Set::<int>::empty());
        r
    }

    /// The set of the one square `square`.
    pub fn single(square: Square) -> (r: Bitboard)
        ensures
            r@ == set![square.idx()],
    {
        let s = (square.index() - 1) as u128;
        proof {
            assert(s < 81 ==> (1u128 << s) >> 81u128 == 0) by (bit_vector);
            assert forall|i: int| 1 <= i <= 81 implies #[trigger] bit(1u128 << s, (i - 1) as u128) == (i
                == square.idx()) by {
                lemma_bit_single(s, (i - 1) as u128);
            }
        }
        let r = Bitboard { bits: 1u128 << s };
        assert(r@ =~= set![square.idx()]);
        r
    }

    /// Whether `square` is in the set.
    pub fn contains(self, square: Square) -> (r: bool)
        ensures
            r == self@.contains(square.idx()),
    {
        let s = (square.index() - 1) as u128;
        (self.bits >> s) & 1 == 1
    }

    /// Whether the set is empty.
    pub fn is_empty(self) -> (r: bool)
        ensures
            r == (self@ == Set::<int>::empty()),
    {
        let n = self.count();
        proof {
            self.lemma_finite();
            if n == 0 {
                assert(self@ =~= Set::<int>::empty());
            } else {
                assert(Set::<int>::empty().len() == 0);
            }
        }
        n == 0
    }

    /// The union of two sets.
    pub fn or(self, other: Bitboard) -> (r: Bitboard)
        ensures
            r@ == self@.union(other@),
    {
        proof {
            use_type_invariant(self);
            use_type_invariant(other);
            let (a, b) = (self.bits, other.bits);
            assert((a >> 81u128 == 0 && b >> 81u128 == 0) ==> (a | b) >> 81u128 == 0)
                by (bit_vector);
            assert forall|i: int| 1 <= i <= 81 implies #[trigger] bit(a | b, (i - 1) as u128) == (bit(
                a,
                (i - 1) as u128,
            ) || bit(b, (i - 1) as u128)) by {
                lemma_bit_or(a, b, (i - 1) as u128);
            }
        }
        let r = Bitboard { bits: self.bits | other.bits };
        assert(r@ =~= self@.union(other@));
        r
    }

    /// The intersection of two sets.
    pub fn and(self, other: Bitboard) -> (r: Bitboard)
        ensures
            r@ == self@.intersect(other@),
    {
        proof {
            use_type_invariant(self);
            use_type_invariant(other);
            let (a, b) = (self.bits, other.bits);
            assert((a >> 81u128 == 0) ==> (a & b) >> 81u128 == 0) by (bit_vector);
            assert forall|i: int| 1 <= i <= 81 implies #[trigger] bit(a & b, (i - 1) as u128) == (bit(
                a,
                (i - 1) as u128,
            ) && bit(b, (i - 1) as u128)) by {
                lemma_bit_and(a, b, (i - 1) as u128);
            }
        }
        let r = Bitboard { bits: self.bits & other.bits };
        assert(r@ =~= self@.intersect(other@));
        r
    }

    /// The symmetric difference of two sets.
    pub fn xor(self, other: Bitboard) -> (r: Bitboard)
        ensures
            r@ == self@.difference(other@).union(
                other@.difference(self@),
            ),
    {
        proof {
            use_type_invariant(self);
            use_type_invariant(other);
            let (a, b) = (self.bits, other.bits);
            assert((a >> 81u128 == 0 && b >> 81u128 == 0) ==> (a ^ b) >> 81u128 == 0)
                by (bit_vector);
            assert forall|i: int| 1 <= i <= 81 implies #[trigger] bit(a ^ b, (i - 1) as u128) == (bit(
                a,
                (i - 1) as u128,
            ) != bit(b, (i - 1) as u128)) by {
                lemma_bit_xor(a, b, (i - 1) as u128);
            }
        }
        let r = Bitboard { bits: self.bits ^ other.bits };
        assert(r@ =~= self@.difference(other@).union(
            other@.difference(self@),
        ));
        r
    }

    /// The complement of the set within the board.
    pub fn not(self) -> (r: Bitboard)
        ensures
            r@ == board_indices().difference(self@),
    {
        proof {
            let a = self.bits;
            assert((!a & 0x1_ffff_ffff_ffff_ffff_ffffu128) >> 81u128 == 0) by (bit_vector);
            assert forall|i: int| 1 <= i <= 81 implies #[trigger] bit(
                !a & 0x1_ffff_ffff_ffff_ffff_ffffu128,
                (i - 1) as u128,
            ) == !bit(a, (i - 1) as u128) by {
                lemma_bit_not_mask(a, (i - 1) as u128);
            }
        }
        let r = Bitboard { bits: !self.bits & BOARD_MASK };
        assert(r@ =~= board_indices().difference(self@));
        r
    }

    /// The set without the squares of `other`.
    pub fn and_not(self, other: Bitboard) -> (r: Bitboard)
        ensures
            r@ == self@.difference(other@),
    {
        let r = self.and(other.not());
        proof {
            self.lemma_finite();
        }
        assert(r@ =~= self@.difference(other@));
        r
    }

    /// The set with `square` added.
    pub fn insert(self, square: Square) -> (r: Bitboard)
        ensures
            r@ == self@.insert(square.idx()),
    {
        let r = self.or(Bitboard::single(square));
        assert(r@ =~= self@.insert(square.idx()));
        r
    }

    /// How many squares are in the set.
    pub fn count(self) -> (r: u8)
        ensures
            r == self@.len(),
    {
        let mut n: u8 = 0;
        let mut k: u128 = 0;
        while k < 81
            invariant
                0 <= k <= 81,
                n == bits_count(self.bits, k as int),
                n <= k,
            decreases 81 - k,
        {
            if (self.bits >> k) & 1 == 1 {
                n += 1;
            }
            k += 1;
        }
        proof {
            lemma_bits_upto_len(self.bits, 81);
        }
        n
    }

    /// The set rotated by 180 degrees: index `i` goes to `82 - i`.
    pub fn flip(self) -> (r: Bitboard)
        ensures
            r@ == flip_set(self@),
    {
        let mut res: u128 = 0;
        let mut k: u128 = 0;
        proof {
            assert(0u128 >> 81u128 == 0) by (bit_vector);
            assert forall|j: u128| j < 81 implies !bit(0u128, j) by {
                lemma_bit_zero(j);
            }
        }
        while k < 81
            invariant
                0 <= k <= 81,
                res >> 81u128 == 0,
                forall|j: u128|
                    j < 81 ==> #[trigger] bit(res, j) == (80 - k < j && bit(
                        self.bits,
                        (80 - j) as u128,
                    )),
            decreases 81 - k,
        {
            if (self.bits >> k) & 1 == 1 {
                let s: u128 = 80 - k;
                proof {
                    assert((res >> 81u128 == 0 && s < 81) ==> (res | (1u128 << s)) >> 81u128 == 0)
                        by (bit_vector);
                    assert forall|j: u128| j < 81 implies #[trigger] bit(res | (1u128 << s), j) == (
                    bit(res, j) || j == s) by {
                        lemma_bit_or(res, 1u128 << s, j);
                        lemma_bit_single(s, j);
                    }
                }
                res = res | (1u128 << s);
            }
            k += 1;
        }
        let r = Bitboard { bits: res };
        proof {
            self.lemma_finite();
            assert forall|i: int| #[trigger] r@.contains(i) == flip_set(self@).contains(i) by {
                if 1 <= i <= 81 {
                    assert(bit(res, (i - 1) as u128) == bit(self.bits, (81 - i) as u128));
                }
            }
        }
        assert(r@ =~= flip_set(self@));
        r
    }

    /// The squares of the set in increasing order of their indices.
    pub fn squares(self) -> (r: Vec<Square>)
        ensures
            forall|i: int| 0 <= i < r@.len() ==> self@.contains(#[trigger] r@[i].idx()),
            forall|i: int| #![auto] self@.contains(i) ==> exists|j: int| 0 <= j < r@.len() && r@[j].idx() == i,
            forall|i: int, j: int| 0 <= i < j < r@.len() ==> r@[i].idx() < r@[j].idx(),
    {
        let all = Square::all();
        let mut r: Vec<Square> = Vec::new();
        let mut k: usize = 0;
        while k < 81
            invariant
                0 <= k <= 81,
                all@.len() == 81,
                forall|i: int| 0 <= i < 81 ==> #[trigger] all@[i].idx() == i + 1,
                forall|i: int| 0 <= i < r@.len() ==> self@.contains(#[trigger] r@[i].idx()),
                forall|i: int| 0 <= i < r@.len() ==> #[trigger] r@[i].idx() <= k,
                forall|i: int|
                    #![auto]
                    self@.contains(i) && i <= k ==> exists|j: int|
                        0 <= j < r@.len() && r@[j].idx() == i,
                forall|i: int, j: int| 0 <= i < j < r@.len() ==> r@[i].idx() < r@[j].idx(),
            decreases 81 - k,
        {
            let s = all[k];
            if self.contains(s) {
                let ghost prev = r@;
                r.push(s);
                proof {
                    assert forall|i: int|
                        #![auto]
                        self@.contains(i) && i <= k + 1 implies exists|j: int|
                            0 <= j < r@.len() && r@[j].idx() == i by {
                        if i == k + 1 {
                            assert(r@[r@.len() - 1].idx() == i);
                        } else {
                            let j = choose|j: int| 0 <= j < prev.len() && prev[j].idx() == i;
                            assert(r@[j] == prev[j]);
                        }
                    }
                }
            }
            k += 1;
        }
        r
    }

    /// Removes the square of lowest index from the set and returns it.
    pub fn pop(&mut self) -> (r: Option<Square>)
        ensures
            old(self)@ == Set::<int>::empty() ==> r.is_none() && *final(self) == *old(self),
            old(self)@ != Set::<int>::empty() ==> r.is_some() && old(self)@.contains(
                r.unwrap().idx(),
            ) && final(self)@ == old(self)@.remove(r.unwrap().idx()) && (forall|i: int|
                old(self)@.contains(i) ==> r.unwrap().idx() <= i),
    {
        let all = Square::all();
        let mut k: usize = 0;
        while k < 81
            invariant
                0 <= k <= 81,
                all@.len() == 81,
                forall|i: int| 0 <= i < 81 ==> #[trigger] all@[i].idx() == i + 1,
                forall|i: int| 1 <= i <= k ==> !self@.contains(i),
                *self == *old(self),
            decreases 81 - k,
        {
            let s = all[k];
            if self.contains(s) {
                let b = self.and_not(Bitboard::single(s));
                assert(b@ =~= self@.remove(s.idx()));
                *self = b;
                return Some(s);
            }
            k += 1;
        }
        proof {
            self.lemma_finite();
            assert(self@ =~= Set::<int>::empty());
        }
        None
    }
}

proof fn board_indices_finite_lemma()
    ensures
        board_indices().finite(),
        board_indices().len() == 81,
{
    assert(board_indices() =~= vstd::set_lib::set_int_range(1, 82));
    vstd::set_lib::lemma_int_range(1, 82);
}


/// Laws of bitboards, over what `or`, `and`, `not`, `single`, `empty` and `count`
/// return: `(a | b) & !b == a & !b`, a single square counts one, and the empty
/// bitboard counts zero.
pub proof fn lemma_bitboard_algebra(a: Bitboard, b: Bitboard, square: Square)
    ensures
        a@.union(b@).intersect(board_indices().difference(b@)) == a@.intersect(
            board_indices().difference(b@),
        ),
        set![square.idx()].len() == 1,
        Set::<int>::empty().len() == 0,
{
    assert(a@.union(b@).intersect(board_indices().difference(b@)) =~= a@.intersect(
        board_indices().difference(b@),
    ));
    assert(set![square.idx()] =~= Set::<int>::empty().insert(square.idx()));
}

} // verus!
