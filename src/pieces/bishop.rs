use vstd::prelude::*;

use crate::board::Board;
use crate::pieces::{Color, MoveStatus, all_on_board, group_on_board, ray, push_ray};
use crate::square::{Square, SquareKind};

verus! {

broadcast use group_on_board;

/// The four diagonal rays of a bishop of `color` on `(file, rank)`.
pub open spec fn bishop_moves(cells: Seq<SquareKind>, color: Color, file: int, rank: int) -> Seq<
    (Square, MoveStatus),
> {
    ray(cells, color, file - 1, rank + 1, -1, 1) + ray(cells, color, file + 1, rank + 1, 1, 1) + ray(
        cells,
        color,
        file + 1,
        rank - 1,
        1,
        -1,
    ) + ray(cells, color, file - 1, rank - 1, -1, -1)
}

#[derive(Clone, Copy, PartialEq, Eq, Debug, Structural)]
pub struct Bishop {
    pub color: Color,
    /// The square the piece was last placed on (`Square::OffBoard` before it is placed).
    pub coord: Square,
}

impl Bishop {
    pub fn new(color: Color) -> (r: Bishop)
        ensures
            r == (Bishop { color, coord: Square::OffBoard }),
    {
        Bishop { color, coord: Square::OffBoard }
    }

    pub fn get_color(&self) -> (r: Color)
        ensures
            r == self.color,
    {
        self.color
    }

    pub fn get_coord(&self) -> (r: Square)
        ensures
            r == self.coord,
    {
        self.coord
    }

    pub fn set_coord(&mut self, coord: Square)
        ensures
            *final(self) == (Bishop { coord, ..*old(self) }),
    {
        self.coord = coord;
    }

    /// The destinations of the bishop from `coord_from` (none from the off-board sentinel).
    pub fn get_valid_moves(&self, board: &Board, coord_from: Square) -> (r: Vec<(Square, MoveStatus)>)
        ensures
            r@ == (if coord_from.is_on_board() {
                bishop_moves(board@.cells, self.color, coord_from.file(), coord_from.rank())
            } else {
                Seq::empty()
            }),
            all_on_board(r@),
    {
        let mut out: Vec<(Square, MoveStatus)> = Vec::new();
        if coord_from.to_index() >= 64 {
            return out;
        }
        let file = coord_from.get_file();
        let rank = coord_from.get_rank();
        push_diagonals(board, &mut out, self.color, file, rank);
        assert(out@ =~= bishop_moves(board@.cells, self.color, file as int, rank as int));
        out
    }
}

/// Appends the four diagonal rays from `(file, rank)` to `out`.
pub fn push_diagonals(board: &Board, out: &mut Vec<(Square, MoveStatus)>, color: Color, file: i32, rank: i32)
    requires
        0 <= file < 8,
        0 <= rank < 8,
    ensures
        final(out)@ == old(out)@ + bishop_moves(board@.cells, color, file as int, rank as int),
{
    let ghost before = out@;
    push_ray(board, out, color, file - 1, rank + 1, -1, 1);
    push_ray(board, out, color, file + 1, rank + 1, 1, 1);
    push_ray(board, out, color, file + 1, rank - 1, 1, -1);
    push_ray(board, out, color, file - 1, rank - 1, -1, -1);
    assert(out@ =~= before + bishop_moves(board@.cells, color, file as int, rank as int));
}

} // verus!
