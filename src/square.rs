use vstd::prelude::*;

use crate::color::Color;

verus! {

/// The file of an index in `1..=81`.
pub open spec fn file_of(i: int) -> int {
    (i - 1) / 9 + 1
}

/// The rank of an index in `1..=81`.
pub open spec fn rank_of(i: int) -> int {
    (i - 1) % 9 + 1
}

/// The index of the square at (`file`, `rank`).
pub open spec fn index_of(file: int, rank: int) -> int {
    9 * (file - 1) + rank
}

/// Whether (`file`, `rank`) lies on the board.
pub open spec fn on_board(file: int, rank: int) -> bool {
    1 <= file <= 9 && 1 <= rank <= 9
}

/// A rank or file seen from `color`'s side of the board.
pub open spec fn relative(coord: int, color: Color) -> int {
    match color {
        Color::Black => coord,
        Color::White => 10 - coord,
    }
}

/// A square of the board, named after its file (`1..=9`) and its rank (`A..=I` for `1..=9`).
///
/// Its index is `9 * (file - 1) + rank`, in `1..=81`.
#[allow(non_camel_case_types)]
#[derive(Clone, Copy, Debug, PartialEq, Eq, Hash, Structural)]
pub enum Square {
    SQ_1A,
    SQ_1B,
    SQ_1C,
    SQ_1D,
    SQ_1E,
    SQ_1F,
    SQ_1G,
    SQ_1H,
    SQ_1I,
    SQ_2A,
    SQ_2B,
    SQ_2C,
    SQ_2D,
    SQ_2E,
    SQ_2F,
    SQ_2G,
    SQ_2H,
    SQ_2I,
    SQ_3A,
    SQ_3B,
    SQ_3C,
    SQ_3D,
    SQ_3E,
    SQ_3F,
    SQ_3G,
    SQ_3H,
    SQ_3I,
    SQ_4A,
    SQ_4B,
    SQ_4C,
    SQ_4D,
    SQ_4E,
    SQ_4F,
    SQ_4G,
    SQ_4H,
    SQ_4I,
    SQ_5A,
    SQ_5B,
    SQ_5C,
    SQ_5D,
    SQ_5E,
    SQ_5F,
    SQ_5G,
    SQ_5H,
    SQ_5I,
    SQ_6A,
    SQ_6B,
    SQ_6C,
    SQ_6D,
    SQ_6E,
    SQ_6F,
    SQ_6G,
    SQ_6H,
    SQ_6I,
    SQ_7A,
    SQ_7B,
    SQ_7C,
    SQ_7D,
    SQ_7E,
    SQ_7F,
    SQ_7G,
    SQ_7H,
    SQ_7I,
    SQ_8A,
    SQ_8B,
    SQ_8C,
    SQ_8D,
    SQ_8E,
    SQ_8F,
    SQ_8G,
    SQ_8H,
    SQ_8I,
    SQ_9A,
    SQ_9B,
    SQ_9C,
    SQ_9D,
    SQ_9E,
    SQ_9F,
    SQ_9G,
    SQ_9H,
    SQ_9I,
}

/// The square of index `i`, for `i` in `1..=81`.
pub open spec fn square_of(i: int) -> Square {
    if i == 1 {
        Square::SQ_1A
    } else if i == 2 {
        Square::SQ_1B
    } else if i == 3 {
        Square::SQ_1C
    } else if i == 4 {
        Square::SQ_1D
    } else if i == 5 {
        Square::SQ_1E
    } else if i == 6 {
        Square::SQ_1F
    } else if i == 7 {
        Square::SQ_1G
    } else if i == 8 {
        Square::SQ_1H
    } else if i == 9 {
        Square::SQ_1I
    } else if i == 10 {
        Square::SQ_2A
    } else if i == 11 {
        Square::SQ_2B
    } else if i == 12 {
        Square::SQ_2C
    } else if i == 13 {
        Square::SQ_2D
    } else if i == 14 {
        Square::SQ_2E
    } else if i == 15 {
        Square::SQ_2F
    } else if i == 16 {
        Square::SQ_2G
    } else if i == 17 {
        Square::SQ_2H
    } else if i == 18 {
        Square::SQ_2I
    } else if i == 19 {
        Square::SQ_3A
    } else if i == 20 {
        Square::SQ_3B
    } else if i == 21 {
        Square::SQ_3C
    } else if i == 22 {
        Square::SQ_3D
    } else if i == 23 {
        Square::SQ_3E
    } else if i == 24 {
        Square::SQ_3F
    } else if i == 25 {
        Square::SQ_3G
    } else if i == 26 {
        Square::SQ_3H
    } else if i == 27 {
        Square::SQ_3I
    } else if i == 28 {
        Square::SQ_4A
    } else if i == 29 {
        Square::SQ_4B
    } else if i == 30 {
        Square::SQ_4C
    } else if i == 31 {
        Square::SQ_4D
    } else if i == 32 {
        Square::SQ_4E
    } else if i == 33 {
        Square::SQ_4F
    } else if i == 34 {
        Square::SQ_4G
    } else if i == 35 {
        Square::SQ_4H
    } else if i == 36 {
        Square::SQ_4I
    } else if i == 37 {
        Square::SQ_5A
    } else if i == 38 {
        Square::SQ_5B
    } else if i == 39 {
        Square::SQ_5C
    } else if i == 40 {
        Square::SQ_5D
    } else if i == 41 {
        Square::SQ_5E
    } else if i == 42 {
        Square::SQ_5F
    } else if i == 43 {
        Square::SQ_5G
    } else if i == 44 {
        Square::SQ_5H
    } else if i == 45 {
        Square::SQ_5I
    } else if i == 46 {
        Square::SQ_6A
    } else if i == 47 {
        Square::SQ_6B
    } else if i == 48 {
        Square::SQ_6C
    } else if i == 49 {
        Square::SQ_6D
    } else if i == 50 {
        Square::SQ_6E
    } else if i == 51 {
        Square::SQ_6F
    } else if i == 52 {
        Square::SQ_6G
    } else if i == 53 {
        Square::SQ_6H
    } else if i == 54 {
        Square::SQ_6I
    } else if i == 55 {
        Square::SQ_7A
    } else if i == 56 {
        Square::SQ_7B
    } else if i == 57 {
        Square::SQ_7C
    } else if i == 58 {
        Square::SQ_7D
    } else if i == 59 {
        Square::SQ_7E
    } else if i == 60 {
        Square::SQ_7F
    } else if i == 61 {
        Square::SQ_7G
    } else if i == 62 {
        Square::SQ_7H
    } else if i == 63 {
        Square::SQ_7I
    } else if i == 64 {
        Square::SQ_8A
    } else if i == 65 {
        Square::SQ_8B
    } else if i == 66 {
        Square::SQ_8C
    } else if i == 67 {
        Square::SQ_8D
    } else if i == 68 {
        Square::SQ_8E
    } else if i == 69 {
        Square::SQ_8F
    } else if i == 70 {
        Square::SQ_8G
    } else if i == 71 {
        Square::SQ_8H
    } else if i == 72 {
        Square::SQ_8I
    } else if i == 73 {
        Square::SQ_9A
    } else if i == 74 {
        Square::SQ_9B
    } else if i == 75 {
        Square::SQ_9C
    } else if i == 76 {
        Square::SQ_9D
    } else if i == 77 {
        Square::SQ_9E
    } else if i == 78 {
        Square::SQ_9F
    } else if i == 79 {
        Square::SQ_9G
    } else if i == 80 {
        Square::SQ_9H
    } else {
        Square::SQ_9I
    }
}

impl Square {
    /// The index of `self`, in `1..=81`.
    pub open spec fn idx(self) -> int {
        match self {
            Square::SQ_1A => 1,
            Square::SQ_1B => 2,
            Square::SQ_1C => 3,
            Square::SQ_1D => 4,
            Square::SQ_1E => 5,
            Square::SQ_1F => 6,
            Square::SQ_1G => 7,
            Square::SQ_1H => 8,
            Square::SQ_1I => 9,
            Square::SQ_2A => 10,
            Square::SQ_2B => 11,
            Square::SQ_2C => 12,
            Square::SQ_2D => 13,
            Square::SQ_2E => 14,
            Square::SQ_2F => 15,
            Square::SQ_2G => 16,
            Square::SQ_2H => 17,
            Square::SQ_2I => 18,
            Square::SQ_3A => 19,
            Square::SQ_3B => 20,
            Square::SQ_3C => 21,
            Square::SQ_3D => 22,
            Square::SQ_3E => 23,
            Square::SQ_3F => 24,
            Square::SQ_3G => 25,
            Square::SQ_3H => 26,
            Square::SQ_3I => 27,
            Square::SQ_4A => 28,
            Square::SQ_4B => 29,
            Square::SQ_4C => 30,
            Square::SQ_4D => 31,
            Square::SQ_4E => 32,
            Square::SQ_4F => 33,
            Square::SQ_4G => 34,
            Square::SQ_4H => 35,
            Square::SQ_4I => 36,
            Square::SQ_5A => 37,
            Square::SQ_5B => 38,
            Square::SQ_5C => 39,
            Square::SQ_5D => 40,
            Square::SQ_5E => 41,
            Square::SQ_5F => 42,
            Square::SQ_5G => 43,
            Square::SQ_5H => 44,
            Square::SQ_5I => 45,
            Square::SQ_6A => 46,
            Square::SQ_6B => 47,
            Square::SQ_6C => 48,
            Square::SQ_6D => 49,
            Square::SQ_6E => 50,
            Square::SQ_6F => 51,
            Square::SQ_6G => 52,
            Square::SQ_6H => 53,
            Square::SQ_6I => 54,
            Square::SQ_7A => 55,
            Square::SQ_7B => 56,
            Square::SQ_7C => 57,
            Square::SQ_7D => 58,
            Square::SQ_7E => 59,
            Square::SQ_7F => 60,
            Square::SQ_7G => 61,
            Square::SQ_7H => 62,
            Square::SQ_7I => 63,
            Square::SQ_8A => 64,
            Square::SQ_8B => 65,
            Square::SQ_8C => 66,
            Square::SQ_8D => 67,
            Square::SQ_8E => 68,
            Square::SQ_8F => 69,
            Square::SQ_8G => 70,
            Square::SQ_8H => 71,
            Square::SQ_8I => 72,
            Square::SQ_9A => 73,
            Square::SQ_9B => 74,
            Square::SQ_9C => 75,
            Square::SQ_9D => 76,
            Square::SQ_9E => 77,
            Square::SQ_9F => 78,
            Square::SQ_9G => 79,
            Square::SQ_9H => 80,
            Square::SQ_9I => 81,
        }
    }

    pub open spec fn file_spec(self) -> int {
        file_of(self.idx())
    }

    pub open spec fn rank_spec(self) -> int {
        rank_of(self.idx())
    }

    /// Converts an index in `1..=81` into a `Square`; any other value gives `None`.
    pub fn from_u8(value: u8) -> (r: Option<Square>)
        ensures
            r.is_some() <==> 1 <= value <= 81,
            r.is_some() ==> r.unwrap().idx() == value,
            r.is_some() ==> r.unwrap() == square_of(value as int),
    {
        match value {
            1 => Some(Square::SQ_1A),
            2 => Some(Square::SQ_1B),
            3 => Some(Square::SQ_1C),
            4 => Some(Square::SQ_1D),
            5 => Some(Square::SQ_1E),
            6 => Some(Square::SQ_1F),
            7 => Some(Square::SQ_1G),
            8 => Some(Square::SQ_1H),
            9 => Some(Square::SQ_1I),
            10 => Some(Square::SQ_2A),
            11 => Some(Square::SQ_2B),
            12 => Some(Square::SQ_2C),
            13 => Some(Square::SQ_2D),
            14 => Some(Square::SQ_2E),
            15 => Some(Square::SQ_2F),
            16 => Some(Square::SQ_2G),
            17 => Some(Square::SQ_2H),
            18 => Some(Square::SQ_2I),
            19 => Some(Square::SQ_3A),
            20 => Some(Square::SQ_3B),
            21 => Some(Square::SQ_3C),
            22 => Some(Square::SQ_3D),
            23 => Some(Square::SQ_3E),
            24 => Some(Square::SQ_3F),
            25 => Some(Square::SQ_3G),
            26 => Some(Square::SQ_3H),
            27 => Some(Square::SQ_3I),
            28 => Some(Square::SQ_4A),
            29 => Some(Square::SQ_4B),
            30 => Some(Square::SQ_4C),
            31 => Some(Square::SQ_4D),
            32 => Some(Square::SQ_4E),
            33 => Some(Square::SQ_4F),
            34 => Some(Square::SQ_4G),
            35 => Some(Square::SQ_4H),
            36 => Some(Square::SQ_4I),
            37 => Some(Square::SQ_5A),
            38 => Some(Square::SQ_5B),
            39 => Some(Square::SQ_5C),
            40 => Some(Square::SQ_5D),
            41 => Some(Square::SQ_5E),
            42 => Some(Square::SQ_5F),
            43 => Some(Square::SQ_5G),
            44 => Some(Square::SQ_5H),
            45 => Some(Square::SQ_5I),
            46 => Some(Square::SQ_6A),
            47 => Some(Square::SQ_6B),
            48 => Some(Square::SQ_6C),
            49 => Some(Square::SQ_6D),
            50 => Some(Square::SQ_6E),
            51 => Some(Square::SQ_6F),
            52 => Some(Square::SQ_6G),
            53 => Some(Square::SQ_6H),
            54 => Some(Square::SQ_6I),
            55 => Some(Square::SQ_7A),
            56 => Some(Square::SQ_7B),
            57 => Some(Square::SQ_7C),
            58 => Some(Square::SQ_7D),
            59 => Some(Square::SQ_7E),
            60 => Some(Square::SQ_7F),
            61 => Some(Square::SQ_7G),
            62 => Some(Square::SQ_7H),
            63 => Some(Square::SQ_7I),
            64 => Some(Square::SQ_8A),
            65 => Some(Square::SQ_8B),
            66 => Some(Square::SQ_8C),
            67 => Some(Square::SQ_8D),
            68 => Some(Square::SQ_8E),
            69 => Some(Square::SQ_8F),
            70 => Some(Square::SQ_8G),
            71 => Some(Square::SQ_8H),
            72 => Some(Square::SQ_8I),
            73 => Some(Square::SQ_9A),
            74 => Some(Square::SQ_9B),
            75 => Some(Square::SQ_9C),
            76 => Some(Square::SQ_9D),
            77 => Some(Square::SQ_9E),
            78 => Some(Square::SQ_9F),
            79 => Some(Square::SQ_9G),
            80 => Some(Square::SQ_9H),
            81 => Some(Square::SQ_9I),
            _ => None,
        }
    }

    /// The index of `self`, in `1..=81`: `9 * file + rank - 9`.
    pub fn index(self) -> (r: u8)
        ensures
            r == self.idx(),
            1 <= r <= 81,
    {
        match self {
            Square::SQ_1A => 1,
            Square::SQ_1B => 2,
            Square::SQ_1C => 3,
            Square::SQ_1D => 4,
            Square::SQ_1E => 5,
            Square::SQ_1F => 6,
            Square::SQ_1G => 7,
            Square::SQ_1H => 8,
            Square::SQ_1I => 9,
            Square::SQ_2A => 10,
            Square::SQ_2B => 11,
            Square::SQ_2C => 12,
            Square::SQ_2D => 13,
            Square::SQ_2E => 14,
            Square::SQ_2F => 15,
            Square::SQ_2G => 16,
            Square::SQ_2H => 17,
            Square::SQ_2I => 18,
            Square::SQ_3A => 19,
            Square::SQ_3B => 20,
            Square::SQ_3C => 21,
            Square::SQ_3D => 22,
            Square::SQ_3E => 23,
            Square::SQ_3F => 24,
            Square::SQ_3G => 25,
            Square::SQ_3H => 26,
            Square::SQ_3I => 27,
            Square::SQ_4A => 28,
            Square::SQ_4B => 29,
            Square::SQ_4C => 30,
            Square::SQ_4D => 31,
            Square::SQ_4E => 32,
            Square::SQ_4F => 33,
            Square::SQ_4G => 34,
            Square::SQ_4H => 35,
            Square::SQ_4I => 36,
            Square::SQ_5A => 37,
            Square::SQ_5B => 38,
            Square::SQ_5C => 39,
            Square::SQ_5D => 40,
            Square::SQ_5E => 41,
            Square::SQ_5F => 42,
            Square::SQ_5G => 43,
            Square::SQ_5H => 44,
            Square::SQ_5I => 45,
            Square::SQ_6A => 46,
            Square::SQ_6B => 47,
            Square::SQ_6C => 48,
            Square::SQ_6D => 49,
            Square::SQ_6E => 50,
            Square::SQ_6F => 51,
            Square::SQ_6G => 52,
            Square::SQ_6H => 53,
            Square::SQ_6I => 54,
            Square::SQ_7A => 55,
            Square::SQ_7B => 56,
            Square::SQ_7C => 57,
            Square::SQ_7D => 58,
            Square::SQ_7E => 59,
            Square::SQ_7F => 60,
            Square::SQ_7G => 61,
            Square::SQ_7H => 62,
            Square::SQ_7I => 63,
            Square::SQ_8A => 64,
            Square::SQ_8B => 65,
            Square::SQ_8C => 66,
            Square::SQ_8D => 67,
            Square::SQ_8E => 68,
            Square::SQ_8F => 69,
            Square::SQ_8G => 70,
            Square::SQ_8H => 71,
            Square::SQ_8I => 72,
            Square::SQ_9A => 73,
            Square::SQ_9B => 74,
            Square::SQ_9C => 75,
            Square::SQ_9D => 76,
            Square::SQ_9E => 77,
            Square::SQ_9F => 78,
            Square::SQ_9G => 79,
            Square::SQ_9H => 80,
            Square::SQ_9I => 81,
        }
    }
    /// Creates the square at (`file`, `rank`); `None` unless both are in `1..=9`.
    pub fn new(file: u8, rank: u8) -> (r: Option<Square>)
        ensures
            r.is_some() <==> on_board(file as int, rank as int),
            r.is_some() ==> r.unwrap().idx() == index_of(file as int, rank as int),
            r.is_some() ==> r.unwrap().file_spec() == file && r.unwrap().rank_spec() == rank,
    {
        if file < 1 || file > 9 || rank < 1 || rank > 9 {
            return None;
        }
        Square::from_u8(9 * file + rank - 9)
    }

    /// Creates the square whose file and rank, seen from `color`, are `file` and `rank`.
    pub fn new_relative(file: u8, rank: u8, color: Color) -> (r: Option<Square>)
        ensures
            r.is_some() <==> on_board(file as int, rank as int),
            r.is_some() ==> r.unwrap().idx() == index_of(
                relative(file as int, color),
                relative(rank as int, color),
            ),
    {
        if file < 1 || file > 9 || rank < 1 || rank > 9 {
            return None;
        }
        match color {
            Color::Black => Square::new(file, rank),
            Color::White => Square::new(10 - file, 10 - rank),
        }
    }

    /// The file, in `1..=9`.
    pub fn file(self) -> (r: u8)
        ensures
            r == self.file_spec(),
            1 <= r <= 9,
    {
        (self.index() + 8) / 9
    }

    /// The rank, in `1..=9`.
    pub fn rank(self) -> (r: u8)
        ensures
            r == self.rank_spec(),
            1 <= r <= 9,
    {
        (self.index() - 1) % 9 + 1
    }

    /// The rank seen from `color`'s side: rank 1 is the farthest from `color`.
    pub fn relative_rank(self, color: Color) -> (r: u8)
        ensures
            r == relative(self.rank_spec(), color),
            1 <= r <= 9,
    {
        let rank = self.rank();
        match color {
            Color::Black => rank,
            Color::White => 10 - rank,
        }
    }

    /// The file seen from `color`'s side.
    pub fn relative_file(self, color: Color) -> (r: u8)
        ensures
            r == relative(self.file_spec(), color),
            1 <= r <= 9,
    {
        let file = self.file();
        match color {
            Color::Black => file,
            Color::White => 10 - file,
        }
    }

    /// The square reached by rotating the board by 180 degrees.
    pub fn flip(self) -> (r: Square)
        ensures
            r.idx() == 82 - self.idx(),
            r.file_spec() == 10 - self.file_spec(),
            r.rank_spec() == 10 - self.rank_spec(),
    {
        let i = self.index();
        match Square::from_u8(82 - i) {
            Some(s) => s,
            None => self,
        }
    }

    /// The square `file_delta` files and `rank_delta` ranks away, if it is on the board.
    pub fn shift(self, file_delta: i8, rank_delta: i8) -> (r: Option<Square>)
        requires
            -1 <= file_delta <= 1,
            -1 <= rank_delta <= 1,
        ensures
            r.is_some() <==> on_board(
                self.file_spec() + file_delta,
                self.rank_spec() + rank_delta,
            ),
            r.is_some() ==> r.unwrap().idx() == index_of(
                self.file_spec() + file_delta,
                self.rank_spec() + rank_delta,
            ),
    {
        let file = self.file() as i8 + file_delta;
        let rank = self.rank() as i8 + rank_delta;
        if file < 1 || file > 9 || rank < 1 || rank > 9 {
            return None;
        }
        Square::new(file as u8, rank as u8)
    }

    /// All 81 squares, by increasing index.
    pub fn all() -> (r: Vec<Square>)
        ensures
            r@.len() == 81,
            forall|i: int| 0 <= i < 81 ==> #[trigger] r@[i].idx() == i + 1,
    {
        let mut r: Vec<Square> = Vec::new();
        let mut i: u8 = 1;
        while i <= 81
            invariant
                1 <= i <= 82,
                r@.len() == i - 1,
                forall|j: int| 0 <= j < i - 1 ==> #[trigger] r@[j].idx() == j + 1,
            decreases 82 - i,
        {
            match Square::from_u8(i) {
                Some(s) => r.push(s),
                None => {},
            }
            i += 1;
        }
        r
    }
}

/// Every square has its index in `1..=81`, and the index names it.
pub proof fn lemma_square_index(s: Square)
    ensures
        1 <= s.idx() <= 81,
        square_of(s.idx()) == s,
        on_board(s.file_spec(), s.rank_spec()),
        index_of(s.file_spec(), s.rank_spec()) == s.idx(),
{
}

/// Every index in `1..=81` names a square with that index.
pub proof fn lemma_index_square(i: int)
    requires
        1 <= i <= 81,
    ensures
        square_of(i).idx() == i,
{
}

/// Two squares with the same index are the same square.
pub proof fn lemma_index_injective(a: Square, b: Square)
    requires
        a.idx() == b.idx(),
    ensures
        a == b,
{
    lemma_square_index(a);
    lemma_square_index(b);
}

/// Encoding a file and a rank in `1..=9` as a square and decoding it gives them back
/// (values outside `1..=9` are refused by `Square::new`).
pub proof fn lemma_square_round_trip(file: int, rank: int)
    requires
        on_board(file, rank),
    ensures
        square_of(index_of(file, rank)).idx() == index_of(file, rank),
        square_of(index_of(file, rank)).file_spec() == file,
        square_of(index_of(file, rank)).rank_spec() == rank,
{
    lemma_coords(file, rank);
    lemma_index_square(index_of(file, rank));
}

/// Rotating the board by 180 degrees maps file `f` to `10 - f` and rank `r` to `10 - r`.
pub proof fn lemma_flip_coords(i: int)
    requires
        1 <= i <= 81,
    ensures
        1 <= 82 - i <= 81,
        file_of(82 - i) == 10 - file_of(i),
        rank_of(82 - i) == 10 - rank_of(i),
        on_board(file_of(i), rank_of(i)),
        index_of(file_of(i), rank_of(i)) == i,
{
}

/// File and rank recover the coordinates that an index was made of.
pub proof fn lemma_coords(file: int, rank: int)
    requires
        on_board(file, rank),
    ensures
        1 <= index_of(file, rank) <= 81,
        file_of(index_of(file, rank)) == file,
        rank_of(index_of(file, rank)) == rank,
{
}

} // verus!
