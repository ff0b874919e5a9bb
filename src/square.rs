use vstd::prelude::*;

use crate::error::ChessError;
use crate::pieces::{MoveStatus, Piece};
use vstd::string::StrSliceExecFns;

verus! {

/// A square of the board, named in algebraic notation, or `OffBoard` for a position off the board.
///
/// Squares are numbered `file * 8 + rank` (A1 = 0, A2 = 1, ..., H8 = 63); the sentinel is 64.
#[derive(Clone, Copy, PartialEq, Eq, Debug, Structural)]
pub enum Square {
    A1, A2, A3, A4, A5, A6, A7, A8,
    B1, B2, B3, B4, B5, B6, B7, B8,
    C1, C2, C3, C4, C5, C6, C7, C8,
    D1, D2, D3, D4, D5, D6, D7, D8,
    E1, E2, E3, E4, E5, E6, E7, E8,
    F1, F2, F3, F4, F5, F6, F7, F8,
    G1, G2, G3, G4, G5, G6, G7, G8,
    H1, H2, H3, H4, H5, H6, H7, H8,
    OffBoard,
}

/// The square numbered `i`, or the sentinel when `i` is not in `0..64`.
#[verifier::opaque]
pub open spec fn square_of(i: int) -> Square {
    if i == 0 {
        Square::A1
    } else if i == 1 {
        Square::A2
    } else if i == 2 {
        Square::A3
    } else if i == 3 {
        Square::A4
    } else if i == 4 {
        Square::A5
    } else if i == 5 {
        Square::A6
    } else if i == 6 {
        Square::A7
    } else if i == 7 {
        Square::A8
    } else if i == 8 {
        Square::B1
    } else if i == 9 {
        Square::B2
    } else if i == 10 {
        Square::B3
    } else if i == 11 {
        Square::B4
    } else if i == 12 {
        Square::B5
    } else if i == 13 {
        Square::B6
    } else if i == 14 {
        Square::B7
    } else if i == 15 {
        Square::B8
    } else if i == 16 {
        Square::C1
    } else if i == 17 {
        Square::C2
    } else if i == 18 {
        Square::C3
    } else if i == 19 {
        Square::C4
    } else if i == 20 {
        Square::C5
    } else if i == 21 {
        Square::C6
    } else if i == 22 {
        Square::C7
    } else if i == 23 {
        Square::C8
    } else if i == 24 {
        Square::D1
    } else if i == 25 {
        Square::D2
    } else if i == 26 {
        Square::D3
    } else if i == 27 {
        Square::D4
    } else if i == 28 {
        Square::D5
    } else if i == 29 {
        Square::D6
    } else if i == 30 {
        Square::D7
    } else if i == 31 {
        Square::D8
    } else if i == 32 {
        Square::E1
    } else if i == 33 {
        Square::E2
    } else if i == 34 {
        Square::E3
    } else if i == 35 {
        Square::E4
    } else if i == 36 {
        Square::E5
    } else if i == 37 {
        Square::E6
    } else if i == 38 {
        Square::E7
    } else if i == 39 {
        Square::E8
    } else if i == 40 {
        Square::F1
    } else if i == 41 {
        Square::F2
    } else if i == 42 {
        Square::F3
    } else if i == 43 {
        Square::F4
    } else if i == 44 {
        Square::F5
    } else if i == 45 {
        Square::F6
    } else if i == 46 {
        Square::F7
    } else if i == 47 {
        Square::F8
    } else if i == 48 {
        Square::G1
    } else if i == 49 {
        Square::G2
    } else if i == 50 {
        Square::G3
    } else if i == 51 {
        Square::G4
    } else if i == 52 {
        Square::G5
    } else if i == 53 {
        Square::G6
    } else if i == 54 {
        Square::G7
    } else if i == 55 {
        Square::G8
    } else if i == 56 {
        Square::H1
    } else if i == 57 {
        Square::H2
    } else if i == 58 {
        Square::H3
    } else if i == 59 {
        Square::H4
    } else if i == 60 {
        Square::H5
    } else if i == 61 {
        Square::H6
    } else if i == 62 {
        Square::H7
    } else if i == 63 {
        Square::H8
    } else {
        Square::OffBoard
    }
}

/// Whether `(file, rank)` lies on the 8x8 board.
pub open spec fn on_board(file: int, rank: int) -> bool {
    0 <= file < 8 && 0 <= rank < 8
}

impl Square {
    /// The number of the square (`file * 8 + rank`), 64 for the sentinel.
    pub open spec fn index(self) -> int {
        match self {
            Square::A1 => 0,
            Square::A2 => 1,
            Square::A3 => 2,
            Square::A4 => 3,
            Square::A5 => 4,
            Square::A6 => 5,
            Square::A7 => 6,
            Square::A8 => 7,
            Square::B1 => 8,
            Square::B2 => 9,
            Square::B3 => 10,
            Square::B4 => 11,
            Square::B5 => 12,
            Square::B6 => 13,
            Square::B7 => 14,
            Square::B8 => 15,
            Square::C1 => 16,
            Square::C2 => 17,
            Square::C3 => 18,
            Square::C4 => 19,
            Square::C5 => 20,
            Square::C6 => 21,
            Square::C7 => 22,
            Square::C8 => 23,
            Square::D1 => 24,
            Square::D2 => 25,
            Square::D3 => 26,
            Square::D4 => 27,
            Square::D5 => 28,
            Square::D6 => 29,
            Square::D7 => 30,
            Square::D8 => 31,
            Square::E1 => 32,
            Square::E2 => 33,
            Square::E3 => 34,
            Square::E4 => 35,
            Square::E5 => 36,
            Square::E6 => 37,
            Square::E7 => 38,
            Square::E8 => 39,
            Square::F1 => 40,
            Square::F2 => 41,
            Square::F3 => 42,
            Square::F4 => 43,
            Square::F5 => 44,
            Square::F6 => 45,
            Square::F7 => 46,
            Square::F8 => 47,
            Square::G1 => 48,
            Square::G2 => 49,
            Square::G3 => 50,
            Square::G4 => 51,
            Square::G5 => 52,
            Square::G6 => 53,
            Square::G7 => 54,
            Square::G8 => 55,
            Square::H1 => 56,
            Square::H2 => 57,
            Square::H3 => 58,
            Square::H4 => 59,
            Square::H5 => 60,
            Square::H6 => 61,
            Square::H7 => 62,
            Square::H8 => 63,
            Square::OffBoard => 64,
        }
    }

    pub open spec fn is_on_board(self) -> bool {
        self.index() < 64
    }

    pub open spec fn file(self) -> int {
        self.index() / 8
    }

    pub open spec fn rank(self) -> int {
        self.index() % 8
    }

    /// The number of the square, as `index` states it.
    pub fn to_index(self) -> (r: u8)
        ensures
            r == self.index(),
    {
        match self {
            Square::A1 => 0,
            Square::A2 => 1,
            Square::A3 => 2,
            Square::A4 => 3,
            Square::A5 => 4,
            Square::A6 => 5,
            Square::A7 => 6,
            Square::A8 => 7,
            Square::B1 => 8,
            Square::B2 => 9,
            Square::B3 => 10,
            Square::B4 => 11,
            Square::B5 => 12,
            Square::B6 => 13,
            Square::B7 => 14,
            Square::B8 => 15,
            Square::C1 => 16,
            Square::C2 => 17,
            Square::C3 => 18,
            Square::C4 => 19,
            Square::C5 => 20,
            Square::C6 => 21,
            Square::C7 => 22,
            Square::C8 => 23,
            Square::D1 => 24,
            Square::D2 => 25,
            Square::D3 => 26,
            Square::D4 => 27,
            Square::D5 => 28,
            Square::D6 => 29,
            Square::D7 => 30,
            Square::D8 => 31,
            Square::E1 => 32,
            Square::E2 => 33,
            Square::E3 => 34,
            Square::E4 => 35,
            Square::E5 => 36,
            Square::E6 => 37,
            Square::E7 => 38,
            Square::E8 => 39,
            Square::F1 => 40,
            Square::F2 => 41,
            Square::F3 => 42,
            Square::F4 => 43,
            Square::F5 => 44,
            Square::F6 => 45,
            Square::F7 => 46,
            Square::F8 => 47,
            Square::G1 => 48,
            Square::G2 => 49,
            Square::G3 => 50,
            Square::G4 => 51,
            Square::G5 => 52,
            Square::G6 => 53,
            Square::G7 => 54,
            Square::G8 => 55,
            Square::H1 => 56,
            Square::H2 => 57,
            Square::H3 => 58,
            Square::H4 => 59,
            Square::H5 => 60,
            Square::H6 => 61,
            Square::H7 => 62,
            Square::H8 => 63,
            Square::OffBoard => 64,
        }
    }

    /// The square numbered `i`; the sentinel for a number outside `0..64`.
    pub fn from_index(i: u8) -> (s: Square)
        ensures
            s == square_of(i as int),
    {
        reveal(square_of);
        match i {
            0 => Square::A1,
            1 => Square::A2,
            2 => Square::A3,
            3 => Square::A4,
            4 => Square::A5,
            5 => Square::A6,
            6 => Square::A7,
            7 => Square::A8,
            8 => Square::B1,
            9 => Square::B2,
            10 => Square::B3,
            11 => Square::B4,
            12 => Square::B5,
            13 => Square::B6,
            14 => Square::B7,
            15 => Square::B8,
            16 => Square::C1,
            17 => Square::C2,
            18 => Square::C3,
            19 => Square::C4,
            20 => Square::C5,
            21 => Square::C6,
            22 => Square::C7,
            23 => Square::C8,
            24 => Square::D1,
            25 => Square::D2,
            26 => Square::D3,
            27 => Square::D4,
            28 => Square::D5,
            29 => Square::D6,
            30 => Square::D7,
            31 => Square::D8,
            32 => Square::E1,
            33 => Square::E2,
            34 => Square::E3,
            35 => Square::E4,
            36 => Square::E5,
            37 => Square::E6,
            38 => Square::E7,
            39 => Square::E8,
            40 => Square::F1,
            41 => Square::F2,
            42 => Square::F3,
            43 => Square::F4,
            44 => Square::F5,
            45 => Square::F6,
            46 => Square::F7,
            47 => Square::F8,
            48 => Square::G1,
            49 => Square::G2,
            50 => Square::G3,
            51 => Square::G4,
            52 => Square::G5,
            53 => Square::G6,
            54 => Square::G7,
            55 => Square::G8,
            56 => Square::H1,
            57 => Square::H2,
            58 => Square::H3,
            59 => Square::H4,
            60 => Square::H5,
            61 => Square::H6,
            62 => Square::H7,
            63 => Square::H8,
            _ => Square::OffBoard,
        }
    }

    /// The square at `(file, rank)`, which must lie on the board.
    pub fn at(file: i32, rank: i32) -> (s: Square)
        requires
            on_board(file as int, rank as int),
        ensures
            s == square_of(file * 8 + rank),
            s.index() == file * 8 + rank,
            s.file() == file,
            s.rank() == rank,
    {
        proof {
            lemma_index_of_square(file * 8 + rank);
        }
        Square::from_index((file * 8 + rank) as u8)
    }

    /// The square at `pos = (file, rank)`, or `OutOfBounds` when either coordinate is outside `0..8`.
    pub fn from_position(pos: (i32, i32)) -> (r: Result<Square, ChessError>)
        ensures
            on_board(pos.0 as int, pos.1 as int) ==> r == Ok::<Square, ChessError>(
                square_of(pos.0 * 8 + pos.1),
            ),
            !on_board(pos.0 as int, pos.1 as int) ==> r == Err::<Square, ChessError>(
                ChessError::OutOfBounds,
            ),
    {
        if 0 <= pos.0 && pos.0 < 8 && 0 <= pos.1 && pos.1 < 8 {
            Ok(Square::at(pos.0, pos.1))
        } else {
            Err(ChessError::OutOfBounds)
        }
    }

    /// Parses two-character algebraic notation such as `"E4"` or `"e4"`.
    pub fn from_str(s: &str) -> (r: Option<Square>)
        ensures
            r == parse_square(s@),
    {
        if s.unicode_len() != 2 {
            return None;
        }
        let letter = s.get_char(0);
        let digit = s.get_char(1);
        let file: i32 = if 'A' <= letter && letter <= 'H' {
            (letter as u32 - 'A' as u32) as i32
        } else if 'a' <= letter && letter <= 'h' {
            (letter as u32 - 'a' as u32) as i32
        } else {
            return None;
        };
        if digit < '1' || digit > '8' {
            return None;
        }
        let rank = (digit as u32 - '1' as u32) as i32;
        Some(Square::at(file, rank))
    }

    /// `(file, rank)`; the sentinel gives `(8, 0)`.
    pub fn into_position(self) -> (r: (i32, i32))
        ensures
            r.0 == self.file(),
            r.1 == self.rank(),
    {
        let i = self.to_index();
        ((i / 8) as i32, (i % 8) as i32)
    }

    pub fn get_rank(self) -> (r: i32)
        ensures
            r == self.rank(),
    {
        (self.to_index() % 8) as i32
    }

    pub fn get_file(self) -> (r: i32)
        ensures
            r == self.file(),
    {
        (self.to_index() / 8) as i32
    }
}

/// Numbering a square and reading the number back gives the square.
pub broadcast proof fn lemma_square_of_index(s: Square)
    ensures
        #[trigger] square_of(s.index()) == s,
{
    reveal(square_of);
}

/// Every number in `0..64` names a square with that number.
pub broadcast proof fn lemma_index_of_square(i: int)
    requires
        0 <= i < 64,
    ensures
        #[trigger] square_of(i).index() == i,
{
    reveal(square_of);
}

pub broadcast group group_square_numbering {
    lemma_square_of_index,
    lemma_index_of_square,
}

/// The file named by a letter `A`-`H` (either case), or -1.
pub open spec fn file_of_letter(c: char) -> int {
    if 'A' <= c <= 'H' {
        c as u32 - 'A' as u32
    } else if 'a' <= c <= 'h' {
        c as u32 - 'a' as u32
    } else {
        -1
    }
}

/// The rank named by a digit `1`-`8`, or -1.
pub open spec fn rank_of_digit(c: char) -> int {
    if '1' <= c <= '8' {
        c as u32 - '1' as u32
    } else {
        -1
    }
}

/// What two-character algebraic notation names: a letter for the file, then a digit for the rank.
pub open spec fn parse_square(t: Seq<char>) -> Option<Square> {
    if t.len() == 2 && file_of_letter(t[0]) >= 0 && rank_of_digit(t[1]) >= 0 {
        Some(square_of(file_of_letter(t[0]) * 8 + rank_of_digit(t[1])))
    } else {
        None
    }
}

/// One cell of the board: empty or holding a piece, with the cell's transient mark.
#[derive(Clone, Copy, PartialEq, Eq, Debug, Structural)]
pub enum SquareKind {
    Empty(MoveStatus),
    Occupied(Piece, MoveStatus),
}

impl SquareKind {
    pub open spec fn piece(self) -> Option<Piece> {
        match self {
            SquareKind::Empty(_) => None,
            SquareKind::Occupied(p, _) => Some(p),
        }
    }

    pub open spec fn status(self) -> MoveStatus {
        match self {
            SquareKind::Empty(m) => m,
            SquareKind::Occupied(_, m) => m,
        }
    }

    pub open spec fn with_status(self, m: MoveStatus) -> SquareKind {
        match self {
            SquareKind::Empty(_) => SquareKind::Empty(m),
            SquareKind::Occupied(p, _) => SquareKind::Occupied(p, m),
        }
    }
}

} // verus!
