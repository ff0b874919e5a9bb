use vstd::prelude::*;

use crate::board::Board;
use crate::pieces::{Color, MoveStatus, all_on_board, group_on_board, bishop::{bishop_moves, push_diagonals}, rook::{rook_moves, push_lines}};
use crate::square::{Square, SquareKind};

verus! {

broadcast use group_on_board;

/// The rays of a queen of `color` on `(file, rank)`: a bishop's, then a rook's.
pub open spec fn queen_moves(cells: Seq<SquareKind>, color: Color, file: int, rank: int) -> Seq<
    (Square, MoveStatus),
> {
    bishop_moves(cells, color, file, rank) + rook_moves(cells, color, file, rank)
}

#[derive(Clone, Copy, PartialEq, Eq, Debug, Structural)]
pub struct Queen {
    pub color: Color,
    /// The square the piece was last placed on (`Square::OffBoard` before it is placed).
    pub coord: Square,
}

impl Queen {
    pub fn new(color: Color) -> (r: Queen)
        ensures
            r == (Queen { color, coord: Square::OffBoard }),
    {
        Queen { color, coord: Square::OffBoard }
    }

    pub fn get_color(&self) -> (r: Color)
        ensures
            r == self.color,
    {
        self.color
    }

    pub fn get_coord(&self) -> (r: Square)
        ensures
            r == self.coord,
    {
        self.coord
    }

    pub fn set_coord(&mut self, coord: Square)
        ensures
            *final(self) == (Queen { coord, ..*old(self) }),
    {
        self.coord = coord;
    }

    /// The destinations of the queen from `coord_from` (none from the off-board sentinel).
    pub fn get_valid_moves(&self, board: &Board, coord_from: Square) -> (r: Vec<(Square, MoveStatus)>)
        ensures
            r@ == (if coord_from.is_on_board() {
                queen_moves(board@.cells, self.color, coord_from.file(), coord_from.rank())
            } else {
                Seq::empty()
            }),
            all_on_board(r@),
    {
        let mut out: Vec<(Square, MoveStatus)> = Vec::new();
        if coord_from.to_index() >= 64 {
            return out;
        }
        let file = coord_from.get_file();
        let rank = coord_from.get_rank();
        push_diagonals(board, &mut out, self.color, file, rank);
        push_lines(board, &mut out, self.color, file, rank);
        assert(out@ =~= queen_moves(board@.cells, self.color, file as int, rank as int));
        out
    }
}

} // verus!
