use vstd::prelude::*;

use crate::board::{Board, move_refusal, relocated};
use crate::error::ChessError;
use crate::pieces::{Color, MoveStatus, all_on_board, group_on_board, ray, push_ray};
use crate::square::{Square, SquareKind};

verus! {

broadcast use group_on_board;

/// The four straight rays of a rook of `color` on `(file, rank)`.
pub open spec fn rook_moves(cells: Seq<SquareKind>, color: Color, file: int, rank: int) -> Seq<
    (Square, MoveStatus),
> {
    ray(cells, color, file + 1, rank, 1, 0) + ray(cells, color, file - 1, rank, -1, 0) + ray(
        cells,
        color,
        file,
        rank + 1,
        0,
        1,
    ) + ray(cells, color, file, rank - 1, 0, -1)
}

#[derive(Clone, Copy, PartialEq, Eq, Debug, Structural)]
pub struct Rook {
    pub color: Color,
    /// The square the piece was last placed on (`Square::OffBoard` before it is placed).
    pub coord: Square,
}

impl Rook {
    pub fn new(color: Color) -> (r: Rook)
        ensures
            r == (Rook { color, coord: Square::OffBoard }),
    {
        Rook { color, coord: Square::OffBoard }
    }

    pub fn get_color(&self) -> (r: Color)
        ensures
            r == self.color,
    {
        self.color
    }

    pub fn get_coord(&self) -> (r: Square)
        ensures
            r == self.coord,
    {
        self.coord
    }

    pub fn set_coord(&mut self, coord: Square)
        ensures
            *final(self) == (Rook { coord, ..*old(self) }),
    {
        self.coord = coord;
    }

    /// Moves the rook from its square to `coord_to`.
    pub fn move_to(&mut self, board: &mut Board, coord_to: Square) -> (r: Result<(), ChessError>)
        ensures
                        move_refusal(old(board)@, old(self).coord, coord_to) matches Some(e) ==> r == Err::<
                (),
                ChessError,
            >(e) && final(board)@ == old(board)@ && *final(self) == *old(self),
            move_refusal(old(board)@, old(self).coord, coord_to) is None ==> r == Ok::<(), ChessError>(())
                && final(board)@ == relocated(old(board)@, old(self).coord, coord_to) && *final(self) == (Rook {
                coord: coord_to,
                ..*old(self)
            }),
    {
        let r = board.move_piece(self.coord, coord_to);
        if r.is_ok() {
            self.coord = coord_to;
        }
        r
    }

    /// The destinations of the rook from `coord_from` (none from the off-board sentinel).
    pub fn get_valid_moves(&self, board: &Board, coord_from: Square) -> (r: Vec<(Square, MoveStatus)>)
        ensures
            r@ == (if coord_from.is_on_board() {
                rook_moves(board@.cells, self.color, coord_from.file(), coord_from.rank())
            } else {
                Seq::empty()
            }),
            all_on_board(r@),
    {
        let mut out: Vec<(Square, MoveStatus)> = Vec::new();
        if coord_from.to_index() >= 64 {
            return out;
        }
        let file = coord_from.get_file();
        let rank = coord_from.get_rank();
        push_lines(board, &mut out, self.color, file, rank);
        assert(out@ =~= rook_moves(board@.cells, self.color, file as int, rank as int));
        out
    }
}

/// Appends the four straight rays from `(file, rank)` to `out`.
pub fn push_lines(board: &Board, out: &mut Vec<(Square, MoveStatus)>, color: Color, file: i32, rank: i32)
    requires
        0 <= file < 8,
        0 <= rank < 8,
    ensures
        final(out)@ == old(out)@ + rook_moves(board@.cells, color, file as int, rank as int),
{
    let ghost before = out@;
    push_ray(board, out, color, file + 1, rank, 1, 0);
    push_ray(board, out, color, file - 1, rank, -1, 0);
    push_ray(board, out, color, file, rank + 1, 0, 1);
    push_ray(board, out, color, file, rank - 1, 0, -1);
    assert(out@ =~= before + rook_moves(board@.cells, color, file as int, rank as int));
}

} // verus!
