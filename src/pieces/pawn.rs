use vstd::prelude::*;

use crate::board::{Board, BoardModel, move_refusal, occupant_at, relocated, removed};
use crate::error::ChessError;
use crate::moves::Promotable;
use crate::pieces::{Bishop, Knight, Queen, Rook};
use crate::pieces::{
    Color, MoveStatus, Piece, all_on_board, capturable, entry, group_on_board, holds_enemy,
    is_vacant, lemma_entry_on_board,
};
use crate::square::{Square, SquareKind, group_square_numbering, on_board, square_of};

verus! {

broadcast use group_on_board, group_square_numbering;

/// The rank step a pawn of `color` advances by.
pub open spec fn forward(color: Color) -> int {
    match color {
        Color::White => 1,
        Color::Black => -1,
    }
}

/// The rank pawns of `color` start on; from it they may advance two squares.
pub open spec fn home_rank(color: Color) -> int {
    match color {
        Color::White => 1,
        Color::Black => 6,
    }
}

/// The rank a pawn of `color` must stand on to capture en passant.
pub open spec fn en_passant_rank(color: Color) -> int {
    match color {
        Color::White => 4,
        Color::Black => 3,
    }
}

/// The far rank, where a pawn of `color` is promoted.
pub open spec fn promotion_rank(color: Color) -> int {
    match color {
        Color::White => 7,
        Color::Black => 0,
    }
}

pub open spec fn movable(color: Color) -> MoveStatus {
    MoveStatus::Movable { by_color: color, activated: false }
}

pub open spec fn threaten(color: Color) -> MoveStatus {
    MoveStatus::Threaten { by_color: color, activated: false }
}

pub open spec fn en_passant(color: Color) -> MoveStatus {
    MoveStatus::EnPassant { by_color: color, activated: false }
}

/// One square forward, onto an empty square.
pub open spec fn pawn_advance(cells: Seq<SquareKind>, color: Color, file: int, rank: int) -> Seq<
    (Square, MoveStatus),
> {
    let t = rank + forward(color);
    if on_board(file, t) && is_vacant(cells, file, t) {
        seq![entry(file, t, movable(color))]
    } else {
        seq![]
    }
}

/// Two squares forward from the home rank, over and onto empty squares.
pub open spec fn pawn_double_advance(cells: Seq<SquareKind>, color: Color, file: int, rank: int) -> Seq<
    (Square, MoveStatus),
> {
    let t = rank + forward(color);
    if rank == home_rank(color) && is_vacant(cells, file, t) && is_vacant(cells, file, t + forward(color)) {
        seq![entry(file, t + forward(color), movable(color))]
    } else {
        seq![]
    }
}

/// The diagonal square one file aside (`df` = -1 or 1): capturable with an
/// enemy on it, otherwise only threatened.
pub open spec fn pawn_strike(cells: Seq<SquareKind>, color: Color, file: int, rank: int, df: int) -> Seq<
    (Square, MoveStatus),
> {
    let t = rank + forward(color);
    if !on_board(file + df, t) {
        seq![]
    } else if holds_enemy(cells, color, file + df, t) {
        seq![entry(file + df, t, capturable(color))]
    } else {
        seq![entry(file + df, t, threaten(color))]
    }
}

/// An enemy pawn of a pawn of `color` stands on `(file, rank)`.
pub open spec fn holds_enemy_pawn(cells: Seq<SquareKind>, color: Color, file: int, rank: int) -> bool {
    match occupant_at(cells, file, rank) {
        Some(Piece::P(q)) => q.color != color,
        _ => false,
    }
}

/// The en-passant capture of the enemy pawn beside (`df` = -1 or 1): it must
/// have just advanced two squares, and the square behind it must be empty.
pub open spec fn pawn_en_passant(
    cells: Seq<SquareKind>,
    double_step: Square,
    color: Color,
    file: int,
    rank: int,
    df: int,
) -> Seq<(Square, MoveStatus)> {
    let t = rank + forward(color);
    if rank == en_passant_rank(color) && on_board(file + df, rank) && double_step == square_of(
        (file + df) * 8 + rank,
    ) && holds_enemy_pawn(cells, color, file + df, rank) && is_vacant(cells, file + df, t) {
        seq![entry(file + df, t, en_passant(color))]
    } else {
        seq![]
    }
}

/// Every destination of a pawn of `color` on `(file, rank)`.
pub open spec fn pawn_moves(
    cells: Seq<SquareKind>,
    double_step: Square,
    color: Color,
    file: int,
    rank: int,
) -> Seq<(Square, MoveStatus)> {
    pawn_advance(cells, color, file, rank) + pawn_double_advance(cells, color, file, rank) + pawn_strike(
        cells,
        color,
        file,
        rank,
        -1,
    ) + pawn_strike(cells, color, file, rank, 1) + pawn_en_passant(
        cells,
        double_step,
        color,
        file,
        rank,
        -1,
    ) + pawn_en_passant(cells, double_step, color, file, rank, 1)
}

/// The squares a pawn of `color` on `(file, rank)` attacks: its two diagonals.
pub open spec fn pawn_attacks(cells: Seq<SquareKind>, color: Color, file: int, rank: int) -> Seq<
    (Square, MoveStatus),
> {
    pawn_strike(cells, color, file, rank, -1) + pawn_strike(cells, color, file, rank, 1)
}

/// Every destination of a pawn on the board is a square of the board.
pub proof fn lemma_pawn_moves_on_board(
    cells: Seq<SquareKind>,
    double_step: Square,
    color: Color,
    file: int,
    rank: int,
)
    requires
        on_board(file, rank),
    ensures
        all_on_board(pawn_moves(cells, double_step, color, file, rank)),
        all_on_board(pawn_attacks(cells, color, file, rank)),
{
    let t = rank + forward(color);
    if on_board(file, t) {
        lemma_entry_on_board(file, t, movable(color));
    }
    if rank == home_rank(color) {
        lemma_entry_on_board(file, t + forward(color), movable(color));
    }
    if on_board(file - 1, t) {
        lemma_entry_on_board(file - 1, t, capturable(color));
        lemma_entry_on_board(file - 1, t, threaten(color));
        lemma_entry_on_board(file - 1, t, en_passant(color));
    }
    if on_board(file + 1, t) {
        lemma_entry_on_board(file + 1, t, capturable(color));
        lemma_entry_on_board(file + 1, t, threaten(color));
        lemma_entry_on_board(file + 1, t, en_passant(color));
    }
    assert(all_on_board(pawn_advance(cells, color, file, rank)));
    assert(all_on_board(pawn_double_advance(cells, color, file, rank)));
    assert(all_on_board(pawn_strike(cells, color, file, rank, -1)));
    assert(all_on_board(pawn_strike(cells, color, file, rank, 1)));
    assert(all_on_board(pawn_en_passant(cells, double_step, color, file, rank, -1)));
    assert(all_on_board(pawn_en_passant(cells, double_step, color, file, rank, 1)));
}

/// A pawn of `color` moving from `from` to `to` captures en passant: `to` is
/// the empty square one file aside and one rank forward, the pawn stands on
/// its en-passant rank, and on `to`'s file beside it stands an enemy pawn that
/// has just advanced two squares.
pub open spec fn captures_en_passant(b: BoardModel, color: Color, from: Square, to: Square) -> bool {
    let f = from.file();
    let r = from.rank();
    let tf = to.file();
    &&& from.is_on_board() && to.is_on_board()
    &&& tf == f - 1 || tf == f + 1
    &&& to.rank() == r + forward(color)
    &&& r == en_passant_rank(color)
    &&& b.double_step == square_of(tf * 8 + r)
    &&& holds_enemy_pawn(b.cells, color, tf, r)
    &&& is_vacant(b.cells, tf, to.rank())
}

/// The board after a pawn of `color` moves from `from` to `to`: on an
/// en-passant capture the pawn it passes (on `to`'s file and `from`'s rank)
/// is taken off first.
pub open spec fn pawn_board_after(b: BoardModel, color: Color, from: Square, to: Square) -> BoardModel {
    let b1 = if captures_en_passant(b, color, from, to) {
        removed(b, square_of(to.file() * 8 + from.rank()))
    } else {
        b
    };
    relocated(b1, from, to)
}

/// Executing an en-passant destination that a pawn's move generation found
/// removes the passed pawn: the move is an en-passant capture, and the board
/// afterwards has the square on `to`'s file and the pawn's rank emptied.
pub proof fn lemma_generated_en_passant_captures(b: BoardModel, color: Color, from: Square, to: Square)
    requires
        b.wf(),
        from.is_on_board(),
        pawn_moves(b.cells, b.double_step, color, from.file(), from.rank()).contains(
            (to, en_passant(color)),
        ),
    ensures
        captures_en_passant(b, color, from, to),
        pawn_board_after(b, color, from, to) == relocated(
            removed(b, square_of(to.file() * 8 + from.rank())),
            from,
            to,
        ),
        pawn_board_after(b, color, from, to).occupant(square_of(to.file() * 8 + from.rank())) is None,
{
    let f = from.file();
    let r = from.rank();
    let cells = b.cells;
    let ds = b.double_step;
    let x = (to, en_passant(color));
    let a1 = pawn_advance(cells, color, f, r);
    let a2 = pawn_double_advance(cells, color, f, r);
    let a3 = pawn_strike(cells, color, f, r, -1);
    let a4 = pawn_strike(cells, color, f, r, 1);
    let a5 = pawn_en_passant(cells, ds, color, f, r, -1);
    let a6 = pawn_en_passant(cells, ds, color, f, r, 1);
    let s = a1 + a2 + a3 + a4 + a5 + a6;
    assert(s == pawn_moves(cells, ds, color, f, r));
    let i = choose|i: int| 0 <= i < s.len() && s[i] == x;
    let front = a1 + a2 + a3 + a4;
    assert forall|j: int| 0 <= j < front.len() implies front[j].1 != en_passant(color) by {
        if j < a1.len() {
        } else if j < a1.len() + a2.len() {
            assert(front[j] == a2[j - a1.len()]);
        } else if j < a1.len() + a2.len() + a3.len() {
            assert(front[j] == a3[j - a1.len() - a2.len()]);
        } else {
            assert(front[j] == a4[j - a1.len() - a2.len() - a3.len()]);
        }
    }
    assert(s == front + (a5 + a6));
    assert(i >= front.len());
    let k = i - front.len();
    assert((a5 + a6)[k] == x);
    if k < a5.len() {
        assert(a5[k] == x);
        lemma_entry_on_board(f - 1, r + forward(color), en_passant(color));
    } else {
        assert(a6[k - a5.len()] == x);
        lemma_entry_on_board(f + 1, r + forward(color), en_passant(color));
    }
    let v = square_of(to.file() * 8 + from.rank());
    assert(v.index() == to.file() * 8 + from.rank());
    assert(v.index() != from.index());
    assert(to.index() == to.file() * 8 + to.rank());
    assert(v.index() != to.index());
}

fn forward_of(color: Color) -> (r: i32)
    ensures
        r == forward(color),
{
    match color {
        Color::White => 1,
        Color::Black => -1,
    }
}

fn push_strike(board: &Board, out: &mut Vec<(Square, MoveStatus)>, color: Color, file: i32, rank: i32, df: i32)
    requires
        on_board(file as int, rank as int),
        df == -1 || df == 1,
    ensures
        final(out)@ == old(out)@ + pawn_strike(board@.cells, color, file as int, rank as int, df as int),
{
    let ghost before = out@;
    let t = rank + forward_of(color);
    let f = file + df;
    if 0 <= f && f < 8 && 0 <= t && t < 8 {
        let enemy = match board.piece_at(f, t) {
            Some(p) => p.get_color() != color,
            None => false,
        };
        if enemy {
            out.push((Square::at(f, t), MoveStatus::Capturable { by_color: color, activated: false }));
        } else {
            out.push((Square::at(f, t), MoveStatus::Threaten { by_color: color, activated: false }));
        }
    }
    assert(out@ =~= before + pawn_strike(board@.cells, color, file as int, rank as int, df as int));
}

fn push_en_passant(
    board: &Board,
    out: &mut Vec<(Square, MoveStatus)>,
    color: Color,
    file: i32,
    rank: i32,
    df: i32,
)
    requires
        on_board(file as int, rank as int),
        df == -1 || df == 1,
    ensures
        final(out)@ == old(out)@ + pawn_en_passant(
            board@.cells,
            board@.double_step,
            color,
            file as int,
            rank as int,
            df as int,
        ),
{
    let ghost before = out@;
    let ep_rank: i32 = match color {
        Color::White => 4,
        Color::Black => 3,
    };
    let t = rank + forward_of(color);
    let f = file + df;
    if rank == ep_rank && 0 <= f && f < 8 && board.get_double_step() == Square::at(f, rank) {
        let enemy_pawn = match board.piece_at(f, rank) {
            Some(Piece::P(q)) => q.color != color,
            _ => false,
        };
        if enemy_pawn && board.piece_at(f, t).is_none() {
            out.push((Square::at(f, t), MoveStatus::EnPassant { by_color: color, activated: false }));
        }
    }
    assert(out@ =~= before + pawn_en_passant(
        board@.cells,
        board@.double_step,
        color,
        file as int,
        rank as int,
        df as int,
    ));
}

#[derive(Clone, Copy, PartialEq, Eq, Debug, Structural)]
pub struct Pawn {
    pub color: Color,
    /// The square the piece was last placed on (`Square::OffBoard` before it is placed).
    pub coord: Square,
}

impl Pawn {
    pub fn new(color: Color) -> (r: Pawn)
        ensures
            r == (Pawn { color, coord: Square::OffBoard }),
    {
        Pawn { color, coord: Square::OffBoard }
    }

    pub fn get_color(&self) -> (r: Color)
        ensures
            r == self.color,
    {
        self.color
    }

    pub fn get_coord(&self) -> (r: Square)
        ensures
            r == self.coord,
    {
        self.coord
    }

    pub fn set_coord(&mut self, coord: Square)
        ensures
            *final(self) == (Pawn { coord, ..*old(self) }),
    {
        self.coord = coord;
    }

    /// The destinations of the pawn from `coord_from` (none from the off-board sentinel).
    pub fn get_valid_moves(&self, board: &Board, coord_from: Square) -> (r: Vec<(Square, MoveStatus)>)
        ensures
            r@ == (if coord_from.is_on_board() {
                pawn_moves(
                    board@.cells,
                    board@.double_step,
                    self.color,
                    coord_from.file(),
                    coord_from.rank(),
                )
            } else {
                Seq::empty()
            }),
            all_on_board(r@),
    {
        let mut out: Vec<(Square, MoveStatus)> = Vec::new();
        if coord_from.to_index() >= 64 {
            return out;
        }
        let color = self.color;
        let file = coord_from.get_file();
        let rank = coord_from.get_rank();
        let dir = forward_of(color);
        let t = rank + dir;
        let home: i32 = match color {
            Color::White => 1,
            Color::Black => 6,
        };
        if 0 <= t && t < 8 && board.piece_at(file, t).is_none() {
            out.push((Square::at(file, t), MoveStatus::Movable { by_color: color, activated: false }));
        }
        if rank == home && board.piece_at(file, t).is_none() && board.piece_at(file, t + dir).is_none() {
            out.push((Square::at(file, t + dir), MoveStatus::Movable { by_color: color, activated: false }));
        }
        let ghost straight = out@;
        assert(straight =~= pawn_advance(board@.cells, color, file as int, rank as int) + pawn_double_advance(
            board@.cells,
            color,
            file as int,
            rank as int,
        ));
        push_strike(board, &mut out, color, file, rank, -1);
        push_strike(board, &mut out, color, file, rank, 1);
        push_en_passant(board, &mut out, color, file, rank, -1);
        push_en_passant(board, &mut out, color, file, rank, 1);
        assert(out@ =~= pawn_moves(board@.cells, board@.double_step, color, file as int, rank as int));
        proof {
            lemma_pawn_moves_on_board(board@.cells, board@.double_step, color, file as int, rank as int);
        }
        out
    }

    /// Moves the pawn from its square to `coord_to`, taking off the pawn it
    /// passes when the move is an en-passant capture.
    pub fn move_to(&mut self, board: &mut Board, coord_to: Square) -> (r: Result<(), ChessError>)
        ensures
                        move_refusal(old(board)@, old(self).coord, coord_to) matches Some(e) ==> r == Err::<
                (),
                ChessError,
            >(e) && final(board)@ == old(board)@ && *final(self) == *old(self),
            move_refusal(old(board)@, old(self).coord, coord_to) is None ==> r == Ok::<(), ChessError>(())
                && final(board)@ == pawn_board_after(old(board)@, old(self).color, old(self).coord, coord_to)
                && *final(self) == (Pawn { coord: coord_to, ..*old(self) }),
    {
        let from = self.coord;
        if board.is_empty(from) {
            return Err(ChessError::EmptySource);
        }
        if coord_to.to_index() >= 64 {
            return Err(ChessError::OutOfBounds);
        }
        let ghost b0 = board@;
        let color = self.color;
        let f = from.get_file();
        let r = from.get_rank();
        let tf = coord_to.get_file();
        let tr = coord_to.get_rank();
        let ep_rank: i32 = match color {
            Color::White => 4,
            Color::Black => 3,
        };
        let mut passing = false;
        if (tf == f - 1 || tf == f + 1) && tr == r + forward_of(color) && r == ep_rank
            && board.get_double_step() == Square::at(tf, r) {
            let enemy_pawn = match board.piece_at(tf, r) {
                Some(Piece::P(q)) => q.color != color,
                _ => false,
            };
            passing = enemy_pawn && board.piece_at(tf, tr).is_none();
        }
        assert(passing == captures_en_passant(b0, color, from, coord_to));
        if passing {
            let victim = Square::at(tf, r);
            assert(victim.index() != from.index());
            let taken = board.despawn(victim);
            assert(board@.cells =~= removed(b0, victim).cells);
            assert(board@.cells[from.index()] == b0.cells[from.index()]);
        }
        let ghost b1 = board@;
        assert(b1 == (if captures_en_passant(b0, color, from, coord_to) {
            removed(b0, square_of(coord_to.file() * 8 + from.rank()))
        } else {
            b0
        }));
        assert(move_refusal(board@, from, coord_to) is None);
        let r = board.move_piece(from, coord_to);
        assert(board@ == pawn_board_after(b0, self.color, from, coord_to));
        self.coord = coord_to;
        r
    }

    /// The squares the pawn attacks from `coord_from`: its two diagonals.
    pub fn get_attacks(&self, board: &Board, coord_from: Square) -> (r: Vec<(Square, MoveStatus)>)
        ensures
            r@ == (if coord_from.is_on_board() {
                pawn_attacks(board@.cells, self.color, coord_from.file(), coord_from.rank())
            } else {
                Seq::empty()
            }),
            all_on_board(r@),
    {
        let mut out: Vec<(Square, MoveStatus)> = Vec::new();
        if coord_from.to_index() >= 64 {
            return out;
        }
        let file = coord_from.get_file();
        let rank = coord_from.get_rank();
        push_strike(board, &mut out, self.color, file, rank, -1);
        push_strike(board, &mut out, self.color, file, rank, 1);
        assert(out@ =~= pawn_attacks(board@.cells, self.color, file as int, rank as int));
        proof {
            lemma_pawn_moves_on_board(board@.cells, board@.double_step, self.color, file as int, rank as int);
        }
        out
    }
    /// The queen this pawn is promoted to, on its square.
    pub fn try_into_queen(&self) -> (r: Option<Queen>)
        ensures
            r == Some(Queen { color: self.color, coord: self.coord }),
    {
        Some(self.into_queen())
    }

    /// The knight this pawn is promoted to, on its square.
    pub fn try_into_knight(&self) -> (r: Option<Knight>)
        ensures
            r == Some(Knight { color: self.color, coord: self.coord }),
    {
        Some(self.into_knight())
    }

    /// The bishop this pawn is promoted to, on its square.
    pub fn try_into_bishop(&self) -> (r: Option<Bishop>)
        ensures
            r == Some(Bishop { color: self.color, coord: self.coord }),
    {
        Some(self.into_bishop())
    }

    /// The rook this pawn is promoted to, on its square.
    pub fn try_into_rook(&self) -> (r: Option<Rook>)
        ensures
            r == Some(Rook { color: self.color, coord: self.coord }),
    {
        Some(self.into_rook())
    }
}

impl Promotable for Pawn {
    fn into_rook(self) -> (r: Rook)
        ensures
            r == (Rook { color: self.color, coord: self.coord }),
    {
        Rook { color: self.color, coord: self.coord }
    }

    fn into_bishop(self) -> (r: Bishop)
        ensures
            r == (Bishop { color: self.color, coord: self.coord }),
    {
        Bishop { color: self.color, coord: self.coord }
    }

    fn into_knight(self) -> (r: Knight)
        ensures
            r == (Knight { color: self.color, coord: self.coord }),
    {
        Knight { color: self.color, coord: self.coord }
    }

    fn into_queen(self) -> (r: Queen)
        ensures
            r == (Queen { color: self.color, coord: self.coord }),
    {
        Queen { color: self.color, coord: self.coord }
    }
}

} // verus!
