use vstd::prelude::*;

use crate::board::{Board, BoardModel, attacked, move_refusal, occupant_at, placed, relocated};
use crate::error::ChessError;
use crate::pieces::{
    Color, MoveStatus, Piece, all_on_board, capturable, entry, group_on_board, is_vacant, leap,
    lemma_entry_on_board, push_leap,
};
use crate::square::{Square, SquareKind, group_square_numbering, on_board, square_of};

verus! {

broadcast use group_on_board, group_square_numbering;

/// The rank the king and rooks of `color` start on.
pub open spec fn home_row(color: Color) -> int {
    match color {
        Color::White => 0,
        Color::Black => 7,
    }
}

pub open spec fn castling(color: Color) -> MoveStatus {
    MoveStatus::Castling { by_color: color, activated: false }
}

/// The attacked-square index records no piece of the other color attacking `(file, rank)`.
pub open spec fn is_safe(captures: Seq<(Square, MoveStatus)>, color: Color, file: int, rank: int) -> bool {
    !attacked(captures, square_of(file * 8 + rank), color.flip())
}

/// A king step onto `(file, rank)`: on the board, not onto a piece of its own
/// color, and not onto an attacked square.
pub open spec fn king_step(
    cells: Seq<SquareKind>,
    captures: Seq<(Square, MoveStatus)>,
    color: Color,
    file: int,
    rank: int,
) -> Seq<(Square, MoveStatus)> {
    if on_board(file, rank) && is_safe(captures, color, file, rank) {
        leap(cells, color, file, rank)
    } else {
        seq![]
    }
}

/// A rook of `color` stands on `(file, rank)`.
pub open spec fn holds_rook(cells: Seq<SquareKind>, color: Color, file: int, rank: int) -> bool {
    match occupant_at(cells, file, rank) {
        Some(Piece::R(q)) => q.color == color,
        _ => false,
    }
}

/// Kingside castling: the unmoved king, not flagged in check, on its home
/// square, a rook of its color in the near corner, the two squares between
/// empty, and the king's square, the one it crosses and the one it lands on
/// unattacked.
pub open spec fn can_castle_kingside(
    cells: Seq<SquareKind>,
    captures: Seq<(Square, MoveStatus)>,
    k: King,
    file: int,
    rank: int,
) -> bool {
    let h = home_row(k.color);
    &&& !k.is_once_moved && !k.is_checked
    &&& file == 4 && rank == h
    &&& holds_rook(cells, k.color, 7, h)
    &&& is_vacant(cells, 5, h) && is_vacant(cells, 6, h)
    &&& is_safe(captures, k.color, 4, h) && is_safe(captures, k.color, 5, h) && is_safe(
        captures,
        k.color,
        6,
        h,
    )
}

/// Queenside castling: the unmoved king, not flagged in check, on its home
/// square, a rook of its color in the far corner, the three squares between
/// empty, and the king's square and the three beside it toward the rook
/// unattacked.
pub open spec fn can_castle_queenside(
    cells: Seq<SquareKind>,
    captures: Seq<(Square, MoveStatus)>,
    k: King,
    file: int,
    rank: int,
) -> bool {
    let h = home_row(k.color);
    &&& !k.is_once_moved && !k.is_checked
    &&& file == 4 && rank == h
    &&& holds_rook(cells, k.color, 0, h)
    &&& is_vacant(cells, 1, h) && is_vacant(cells, 2, h) && is_vacant(cells, 3, h)
    &&& is_safe(captures, k.color, 4, h) && is_safe(captures, k.color, 3, h) && is_safe(
        captures,
        k.color,
        2,
        h,
    ) && is_safe(captures, k.color, 1, h)
}

/// The eight steps of a king of `color` on `(file, rank)`.
pub open spec fn king_steps(
    cells: Seq<SquareKind>,
    captures: Seq<(Square, MoveStatus)>,
    c: Color,
    file: int,
    rank: int,
) -> Seq<(Square, MoveStatus)> {
    king_step(cells, captures, c, file - 1, rank - 1) + king_step(cells, captures, c, file - 1, rank)
        + king_step(cells, captures, c, file - 1, rank + 1) + king_step(
        cells,
        captures,
        c,
        file,
        rank - 1,
    ) + king_step(cells, captures, c, file, rank + 1) + king_step(cells, captures, c, file + 1, rank - 1)
        + king_step(cells, captures, c, file + 1, rank) + king_step(
        cells,
        captures,
        c,
        file + 1,
        rank + 1,
    )
}

/// Every destination of the king `k` on `(file, rank)`: its eight steps, then
/// the kingside castling square (two files right), then the queenside landing
/// square (two files left) and the square the king passes over to it.
pub open spec fn king_moves(
    cells: Seq<SquareKind>,
    captures: Seq<(Square, MoveStatus)>,
    k: King,
    file: int,
    rank: int,
) -> Seq<(Square, MoveStatus)> {
    let c = k.color;
    let h = home_row(c);
    king_steps(cells, captures, c, file, rank) + (if can_castle_kingside(
        cells,
        captures,
        k,
        file,
        rank,
    ) {
        seq![entry(6, h, castling(c))]
    } else {
        seq![]
    }) + (if can_castle_queenside(cells, captures, k, file, rank) {
        seq![entry(2, h, castling(c)), entry(1, h, castling(c))]
    } else {
        seq![]
    })
}

/// A king flagged in check is offered no castling: its destinations are its
/// steps alone, none of them marked as castling.
pub proof fn lemma_checked_king_never_castles(
    cells: Seq<SquareKind>,
    captures: Seq<(Square, MoveStatus)>,
    k: King,
    file: int,
    rank: int,
)
    requires
        k.is_checked,
    ensures
        king_moves(cells, captures, k, file, rank) == king_steps(cells, captures, k.color, file, rank),
        forall|j: int|
            0 <= j < king_moves(cells, captures, k, file, rank).len() ==> !((#[trigger] king_moves(
                cells,
                captures,
                k,
                file,
                rank,
            )[j]).1 is Castling),
{
    let s = king_steps(cells, captures, k.color, file, rank);
    assert(king_moves(cells, captures, k, file, rank) =~= s);
    assert forall|j: int| 0 <= j < s.len() implies !((#[trigger] s[j]).1 is Castling) by {
        assert(s[j].1 == capturable(k.color));
    }
}

/// A square next to a king, as the square it guards.
pub open spec fn reach(color: Color, file: int, rank: int) -> Seq<(Square, MoveStatus)> {
    if on_board(file, rank) {
        seq![entry(file, rank, capturable(color))]
    } else {
        seq![]
    }
}

/// The squares a king of `color` on `(file, rank)` attacks: all the squares next to it.
pub open spec fn king_reach(color: Color, file: int, rank: int) -> Seq<(Square, MoveStatus)> {
    reach(color, file - 1, rank - 1) + reach(color, file - 1, rank) + reach(color, file - 1, rank + 1)
        + reach(color, file, rank - 1) + reach(color, file, rank + 1) + reach(color, file + 1, rank - 1)
        + reach(color, file + 1, rank) + reach(color, file + 1, rank + 1)
}

pub proof fn lemma_reach_on_board(color: Color, file: int, rank: int)
    ensures
        all_on_board(reach(color, file, rank)),
{
    if on_board(file, rank) {
        lemma_entry_on_board(file, rank, capturable(color));
    }
}

/// Every destination and every guarded square of a king is a square of the board.
pub proof fn lemma_king_moves_on_board(
    cells: Seq<SquareKind>,
    captures: Seq<(Square, MoveStatus)>,
    k: King,
    file: int,
    rank: int,
)
    ensures
        all_on_board(king_moves(cells, captures, k, file, rank)),
        all_on_board(king_reach(k.color, file, rank)),
{
    let c = k.color;
    let h = home_row(c);
    lemma_entry_on_board(6, h, castling(c));
    lemma_entry_on_board(2, h, castling(c));
    lemma_entry_on_board(1, h, castling(c));
    assert(all_on_board(seq![entry(2, h, castling(c)), entry(1, h, castling(c))]));
    lemma_reach_on_board(c, file - 1, rank - 1);
    lemma_reach_on_board(c, file - 1, rank);
    lemma_reach_on_board(c, file - 1, rank + 1);
    lemma_reach_on_board(c, file, rank - 1);
    lemma_reach_on_board(c, file, rank + 1);
    lemma_reach_on_board(c, file + 1, rank - 1);
    lemma_reach_on_board(c, file + 1, rank);
    lemma_reach_on_board(c, file + 1, rank + 1);
}

/// The rook's move that goes with a king's move from `from` to `to`, if it castles:
/// from its home square two files right moves the near rook beside it, and two
/// or three files left (the landing square or the one passed over) the far rook.
pub open spec fn castle_rook(color: Color, from: Square, to: Square) -> Option<(Square, Square)> {
    let h = home_row(color);
    if from == square_of(32 + h) && to == square_of(48 + h) {
        Some((square_of(56 + h), square_of(40 + h)))
    } else if from == square_of(32 + h) && (to == square_of(16 + h) || to == square_of(8 + h)) {
        Some((square_of(h), square_of(24 + h)))
    } else {
        None
    }
}

/// Where a king moving from `from` toward `to` lands: queenside castling
/// toward the square passed over lands two files left of the home square.
pub open spec fn king_landing(color: Color, from: Square, to: Square) -> Square {
    let h = home_row(color);
    if from == square_of(32 + h) && to == square_of(8 + h) {
        square_of(16 + h)
    } else {
        to
    }
}

/// The king after moving to `to`: it has moved, and its check flag is cleared.
pub open spec fn moved_king(k: King, to: Square) -> King {
    King { coord: to, is_once_moved: true, is_checked: false, ..k }
}

/// The board after the king `k` moves toward `to`: the castling rook moves
/// first when there is one, then the king moves to its landing square.
pub open spec fn king_board_after(b: BoardModel, k: King, to: Square) -> BoardModel {
    let from = k.coord;
    let b1 = match castle_rook(k.color, from, to) {
        Some((a, c)) => if move_refusal(b, a, c) is None {
            relocated(b, a, c)
        } else {
            b
        },
        None => b,
    };
    let land = king_landing(k.color, from, to);
    placed(relocated(b1, from, land), land, Piece::K(moved_king(k, land)))
}

proof fn lemma_home_row_squares(h: int)
    requires
        h == 0 || h == 7,
    ensures
        square_of(h).index() == h,
        square_of(8 + h).index() == 8 + h,
        square_of(16 + h).index() == 16 + h,
        square_of(24 + h).index() == 24 + h,
        square_of(32 + h).index() == 32 + h,
        square_of(40 + h).index() == 40 + h,
        square_of(48 + h).index() == 48 + h,
        square_of(56 + h).index() == 56 + h,
{
}

fn push_king_step(board: &Board, out: &mut Vec<(Square, MoveStatus)>, color: Color, file: i32, rank: i32)
    requires
        -1 <= file <= 8,
        -1 <= rank <= 8,
    ensures
        final(out)@ == old(out)@ + king_step(board@.cells, board@.captures, color, file as int, rank as int),
{
    let ghost before = out@;
    if 0 <= file && file < 8 && 0 <= rank && rank < 8 && !board.is_under_attack(
        Square::at(file, rank),
        color.opposite(),
    ) {
        push_leap(board, out, color, file, rank);
    }
    assert(out@ =~= before + king_step(board@.cells, board@.captures, color, file as int, rank as int));
}

fn push_reach(out: &mut Vec<(Square, MoveStatus)>, color: Color, file: i32, rank: i32)
    requires
        -1 <= file <= 8,
        -1 <= rank <= 8,
    ensures
        final(out)@ == old(out)@ + reach(color, file as int, rank as int),
{
    let ghost before = out@;
    if 0 <= file && file < 8 && 0 <= rank && rank < 8 {
        out.push((Square::at(file, rank), MoveStatus::Capturable { by_color: color, activated: false }));
    }
    assert(out@ =~= before + reach(color, file as int, rank as int));
}

fn rook_stands(board: &Board, color: Color, file: i32, rank: i32) -> (r: bool)
    requires
        on_board(file as int, rank as int),
    ensures
        r == holds_rook(board@.cells, color, file as int, rank as int),
{
    match board.piece_at(file, rank) {
        Some(Piece::R(q)) => q.color == color,
        _ => false,
    }
}

fn safe_at(board: &Board, color: Color, file: i32, rank: i32) -> (r: bool)
    requires
        on_board(file as int, rank as int),
    ensures
        r == is_safe(board@.captures, color, file as int, rank as int),
{
    !board.is_under_attack(Square::at(file, rank), color.opposite())
}

#[derive(Clone, Copy, PartialEq, Eq, Debug, Structural)]
pub struct King {
    pub color: Color,
    /// The square the piece was last placed on (`Square::OffBoard` before it is placed).
    pub coord: Square,
    /// Whether an opposing piece attacks the king, as last recomputed.
    pub is_checked: bool,
    /// Whether the king has moved at least once.
    pub is_once_moved: bool,
}

impl King {
    pub fn new(color: Color) -> (r: King)
        ensures
            r == (King { color, coord: Square::OffBoard, is_checked: false, is_once_moved: false }),
    {
        King { color, coord: Square::OffBoard, is_checked: false, is_once_moved: false }
    }

    pub fn get_color(&self) -> (r: Color)
        ensures
            r == self.color,
    {
        self.color
    }

    pub fn get_coord(&self) -> (r: Square)
        ensures
            r == self.coord,
    {
        self.coord
    }

    pub fn set_coord(&mut self, coord: Square)
        ensures
            *final(self) == (King { coord, ..*old(self) }),
    {
        self.coord = coord;
    }

    pub fn is_checked(&self) -> (r: bool)
        ensures
            r == self.is_checked,
    {
        self.is_checked
    }

    pub fn set_checked(&mut self, is_checked: bool)
        ensures
            *final(self) == (King { is_checked, ..*old(self) }),
    {
        self.is_checked = is_checked;
    }

    pub fn set_once_moved(&mut self)
        ensures
            *final(self) == (King { is_once_moved: true, ..*old(self) }),
    {
        self.is_once_moved = true;
    }

    /// The destinations of the king from `coord_from` (none from the off-board
    /// sentinel); attacked squares are left out, as the board's attacked-square
    /// index records them.
    pub fn get_valid_moves(&self, board: &Board, coord_from: Square) -> (r: Vec<(Square, MoveStatus)>)
        ensures
            r@ == (if coord_from.is_on_board() {
                king_moves(board@.cells, board@.captures, *self, coord_from.file(), coord_from.rank())
            } else {
                Seq::empty()
            }),
            all_on_board(r@),
    {
        let mut out: Vec<(Square, MoveStatus)> = Vec::new();
        if coord_from.to_index() >= 64 {
            return out;
        }
        let c = self.color;
        let file = coord_from.get_file();
        let rank = coord_from.get_rank();
        push_king_step(board, &mut out, c, file - 1, rank - 1);
        push_king_step(board, &mut out, c, file - 1, rank);
        push_king_step(board, &mut out, c, file - 1, rank + 1);
        push_king_step(board, &mut out, c, file, rank - 1);
        push_king_step(board, &mut out, c, file, rank + 1);
        push_king_step(board, &mut out, c, file + 1, rank - 1);
        push_king_step(board, &mut out, c, file + 1, rank);
        push_king_step(board, &mut out, c, file + 1, rank + 1);
        let ghost steps = out@;
        let h: i32 = match c {
            Color::White => 0,
            Color::Black => 7,
        };
        let at_home = !self.is_once_moved && !self.is_checked && file == 4 && rank == h && safe_at(board, c, 4, h);
        if at_home && rook_stands(board, c, 7, h) && board.piece_at(5, h).is_none() && board.piece_at(
            6,
            h,
        ).is_none() && safe_at(board, c, 5, h) && safe_at(board, c, 6, h) {
            out.push((Square::at(6, h), MoveStatus::Castling { by_color: c, activated: false }));
        }
        let ghost kingside = out@;
        if at_home && rook_stands(board, c, 0, h) && board.piece_at(1, h).is_none() && board.piece_at(
            2,
            h,
        ).is_none() && board.piece_at(3, h).is_none() && safe_at(board, c, 3, h) && safe_at(
            board,
            c,
            2,
            h,
        ) && safe_at(board, c, 1, h) {
            out.push((Square::at(2, h), MoveStatus::Castling { by_color: c, activated: false }));
            out.push((Square::at(1, h), MoveStatus::Castling { by_color: c, activated: false }));
        }
        proof {
            let cells = board@.cells;
            let caps = board@.captures;
            let fi = file as int;
            let ra = rank as int;
            assert(steps =~= king_step(cells, caps, c, fi - 1, ra - 1) + king_step(cells, caps, c, fi - 1, ra)
                + king_step(cells, caps, c, fi - 1, ra + 1) + king_step(cells, caps, c, fi, ra - 1)
                + king_step(cells, caps, c, fi, ra + 1) + king_step(cells, caps, c, fi + 1, ra - 1)
                + king_step(cells, caps, c, fi + 1, ra) + king_step(cells, caps, c, fi + 1, ra + 1));
            assert(kingside =~= steps + (if can_castle_kingside(cells, caps, *self, fi, ra) {
                seq![entry(6, h as int, castling(c))]
            } else {
                seq![]
            }));
            assert(out@ =~= king_moves(cells, caps, *self, fi, ra));
            lemma_king_moves_on_board(cells, caps, *self, fi, ra);
        }
        out
    }

    /// Moves the king from its square toward `coord_to`, moving the rook as
    /// well when the move castles; the king is then marked as moved and not in check.
    pub fn move_to(&mut self, board: &mut Board, coord_to: Square) -> (r: Result<(), ChessError>)
        ensures
                        move_refusal(old(board)@, old(self).coord, coord_to) matches Some(e) ==> r == Err::<
                (),
                ChessError,
            >(e) && final(board)@ == old(board)@ && *final(self) == *old(self),
            move_refusal(old(board)@, old(self).coord, coord_to) is None ==> r == Ok::<(), ChessError>(())
                && final(board)@ == king_board_after(old(board)@, *old(self), coord_to) && *final(self)
                == moved_king(*old(self), king_landing(old(self).color, old(self).coord, coord_to)),
    {
        let from = self.coord;
        if board.is_empty(from) {
            return Err(ChessError::EmptySource);
        }
        if coord_to.to_index() >= 64 {
            return Err(ChessError::OutOfBounds);
        }
        let h: i32 = match self.color {
            Color::White => 0,
            Color::Black => 7,
        };
        let ghost b0 = board@;
        let ghost hh = home_row(self.color);
        assert(hh == h);
        proof {
            lemma_home_row_squares(hh);
        }
        let mut land = coord_to;
        if from == Square::at(4, h) {
            if coord_to == Square::at(6, h) {
                let a = Square::at(7, h);
                let c = Square::at(5, h);
                let rook_moved = board.move_piece(a, c);
                assert(board@.cells[from.index()] == b0.cells[from.index()]);
            } else if coord_to == Square::at(2, h) || coord_to == Square::at(1, h) {
                let a = Square::at(0, h);
                let c = Square::at(3, h);
                let rook_moved = board.move_piece(a, c);
                assert(board@.cells[from.index()] == b0.cells[from.index()]);
                if coord_to == Square::at(1, h) {
                    land = Square::at(2, h);
                }
            }
        }
        assert(land == king_landing(self.color, from, coord_to));
        assert(move_refusal(board@, from, land) is None);
        let r = board.move_piece(from, land);
        self.coord = land;
        self.is_once_moved = true;
        self.is_checked = false;
        board.put_piece(Piece::K(*self), land);
        r
    }

    /// The squares the king guards from `coord_from`: all the squares next to it.
    pub fn get_attacks(&self, coord_from: Square) -> (r: Vec<(Square, MoveStatus)>)
        ensures
            r@ == (if coord_from.is_on_board() {
                king_reach(self.color, coord_from.file(), coord_from.rank())
            } else {
                Seq::empty()
            }),
            all_on_board(r@),
    {
        let mut out: Vec<(Square, MoveStatus)> = Vec::new();
        if coord_from.to_index() >= 64 {
            return out;
        }
        let c = self.color;
        let file = coord_from.get_file();
        let rank = coord_from.get_rank();
        push_reach(&mut out, c, file - 1, rank - 1);
        push_reach(&mut out, c, file - 1, rank);
        push_reach(&mut out, c, file - 1, rank + 1);
        push_reach(&mut out, c, file, rank - 1);
        push_reach(&mut out, c, file, rank + 1);
        push_reach(&mut out, c, file + 1, rank - 1);
        push_reach(&mut out, c, file + 1, rank);
        push_reach(&mut out, c, file + 1, rank + 1);
        proof {
            assert(out@ =~= king_reach(c, file as int, rank as int));
            lemma_king_moves_on_board(Seq::empty(), Seq::empty(), *self, file as int, rank as int);
        }
        out
    }
}

} // verus!
