use vstd::prelude::*;

use crate::board::Board;
use crate::pieces::{Color, MoveStatus, all_on_board, group_on_board, leap, push_leap};
use crate::square::{Square, SquareKind};

verus! {

broadcast use group_on_board;

/// The eight L-shaped jumps of a knight of `color` on `(file, rank)`.
pub open spec fn knight_moves(cells: Seq<SquareKind>, color: Color, file: int, rank: int) -> Seq<
    (Square, MoveStatus),
> {
    leap(cells, color, file + 2, rank + 1) + leap(cells, color, file + 2, rank - 1) + leap(
        cells,
        color,
        file - 2,
        rank + 1,
    ) + leap(cells, color, file - 2, rank - 1) + leap(cells, color, file + 1, rank + 2) + leap(
        cells,
        color,
        file + 1,
        rank - 2,
    ) + leap(cells, color, file - 1, rank + 2) + leap(cells, color, file - 1, rank - 2)
}

#[derive(Clone, Copy, PartialEq, Eq, Debug, Structural)]
pub struct Knight {
    pub color: Color,
    /// The square the piece was last placed on (`Square::OffBoard` before it is placed).
    pub coord: Square,
}

impl Knight {
    pub fn new(color: Color) -> (r: Knight)
        ensures
            r == (Knight { color, coord: Square::OffBoard }),
    {
        Knight { color, coord: Square::OffBoard }
    }

    pub fn get_color(&self) -> (r: Color)
        ensures
            r == self.color,
    {
        self.color
    }

    pub fn get_coord(&self) -> (r: Square)
        ensures
            r == self.coord,
    {
        self.coord
    }

    pub fn set_coord(&mut self, coord: Square)
        ensures
            *final(self) == (Knight { coord, ..*old(self) }),
    {
        self.coord = coord;
    }

    /// The destinations of the knight from `coord_from` (none from the off-board sentinel).
    pub fn get_valid_moves(&self, board: &Board, coord_from: Square) -> (r: Vec<(Square, MoveStatus)>)
        ensures
            r@ == (if coord_from.is_on_board() {
                knight_moves(board@.cells, self.color, coord_from.file(), coord_from.rank())
            } else {
                Seq::empty()
            }),
            all_on_board(r@),
    {
        let mut out: Vec<(Square, MoveStatus)> = Vec::new();
        if coord_from.to_index() >= 64 {
            return out;
        }
        let file = coord_from.get_file();
        let rank = coord_from.get_rank();
        push_leap(board, &mut out, self.color, file + 2, rank + 1);
        push_leap(board, &mut out, self.color, file + 2, rank - 1);
        push_leap(board, &mut out, self.color, file - 2, rank + 1);
        push_leap(board, &mut out, self.color, file - 2, rank - 1);
        push_leap(board, &mut out, self.color, file + 1, rank + 2);
        push_leap(board, &mut out, self.color, file + 1, rank - 2);
        push_leap(board, &mut out, self.color, file - 1, rank + 2);
        push_leap(board, &mut out, self.color, file - 1, rank - 2);
        assert(out@ =~= knight_moves(board@.cells, self.color, file as int, rank as int));
        out
    }
}

} // verus!
