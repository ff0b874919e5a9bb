use vstd::prelude::*;

pub mod bishop;
pub mod king;
pub mod knight;
pub mod pawn;
pub mod queen;
pub mod rook;

pub use bishop::Bishop;
pub use king::King;
pub use knight::Knight;
pub use pawn::Pawn;
pub use queen::Queen;
pub use rook::Rook;

use crate::board::{Board, BoardModel, move_refusal, occupant_at, relocated};
use crate::error::ChessError;
use crate::pieces::bishop::bishop_moves;
use crate::pieces::king::{
    king_board_after, king_landing, king_moves, king_reach, lemma_king_moves_on_board, moved_king,
};
use crate::pieces::knight::knight_moves;
use crate::pieces::pawn::{lemma_pawn_moves_on_board, pawn_attacks, pawn_board_after, pawn_moves};
use crate::pieces::queen::queen_moves;
use crate::pieces::rook::rook_moves;
use crate::square::{Square, SquareKind, on_board, square_of, group_square_numbering};

verus! {

broadcast use group_square_numbering;

#[derive(Clone, Copy, PartialEq, Eq, Debug, Structural)]
pub enum Color {
    White,
    Black,
}

impl Color {
    pub open spec fn flip(self) -> Color {
        match self {
            Color::White => Color::Black,
            Color::Black => Color::White,
        }
    }

    pub fn opposite(&self) -> (r: Color)
        ensures
            r == self.flip(),
    {
        match self {
            Color::White => Color::Black,
            Color::Black => Color::White,
        }
    }
}

/// The opposite of the opposite of a color is the color itself.
pub proof fn lemma_opposite_involution(c: Color)
    ensures
        c.flip().flip() == c,
        c.flip() != c,
{
}

/// How a destination square relates to a piece that reaches it.
///
/// `by_color` is the color of the piece that reaches the square; `activated`
/// tells a square marked for the currently selected piece from one that is
/// merely within some piece's reach.
#[derive(Clone, Copy, PartialEq, Eq, Debug, Structural)]
pub enum MoveStatus {
    Unmarked,
    /// The piece may move here, capturing whatever enemy stands here.
    Capturable { by_color: Color, activated: bool },
    /// A pawn attacks this square but may not move to it.
    Threaten { by_color: Color, activated: bool },
    /// The square lies just behind an enemy king on a sliding piece's line.
    Pierced { by_color: Color, activated: bool },
    /// A pawn may capture en passant by moving here.
    EnPassant { by_color: Color, activated: bool },
    /// The king may castle by moving here.
    Castling { by_color: Color, activated: bool },
    /// A pawn may move here without capturing.
    Movable { by_color: Color, activated: bool },
}

impl MoveStatus {
    /// The piece may land on the square.
    pub open spec fn is_landing(self) -> bool {
        self is Capturable || self is Movable || self is Castling || self is EnPassant
    }

    /// The color of the piece that reaches the square (none for `Unmarked`).
    pub open spec fn reached_by(self) -> Option<Color> {
        match self {
            MoveStatus::Unmarked => None,
            MoveStatus::Capturable { by_color, .. } => Some(by_color),
            MoveStatus::Threaten { by_color, .. } => Some(by_color),
            MoveStatus::Pierced { by_color, .. } => Some(by_color),
            MoveStatus::EnPassant { by_color, .. } => Some(by_color),
            MoveStatus::Castling { by_color, .. } => Some(by_color),
            MoveStatus::Movable { by_color, .. } => Some(by_color),
        }
    }

    /// The same kind of status, marked as the selected piece's destination for `color`.
    pub open spec fn activated_for(self, color: Color) -> MoveStatus {
        match self {
            MoveStatus::Unmarked => MoveStatus::Unmarked,
            MoveStatus::Capturable { .. } => MoveStatus::Capturable { by_color: color, activated: true },
            MoveStatus::Threaten { .. } => MoveStatus::Threaten { by_color: color, activated: true },
            MoveStatus::Pierced { .. } => MoveStatus::Pierced { by_color: color, activated: true },
            MoveStatus::EnPassant { .. } => MoveStatus::EnPassant { by_color: color, activated: true },
            MoveStatus::Castling { .. } => MoveStatus::Castling { by_color: color, activated: true },
            MoveStatus::Movable { .. } => MoveStatus::Movable { by_color: color, activated: true },
        }
    }

    pub fn is_landing_status(&self) -> (r: bool)
        ensures
            r == self.is_landing(),
    {
        match self {
            MoveStatus::Capturable { .. } => true,
            MoveStatus::Movable { .. } => true,
            MoveStatus::Castling { .. } => true,
            MoveStatus::EnPassant { .. } => true,
            _ => false,
        }
    }

    pub fn reaching_color(&self) -> (r: Option<Color>)
        ensures
            r == self.reached_by(),
    {
        match self {
            MoveStatus::Unmarked => None,
            MoveStatus::Capturable { by_color, .. } => Some(*by_color),
            MoveStatus::Threaten { by_color, .. } => Some(*by_color),
            MoveStatus::Pierced { by_color, .. } => Some(*by_color),
            MoveStatus::EnPassant { by_color, .. } => Some(*by_color),
            MoveStatus::Castling { by_color, .. } => Some(*by_color),
            MoveStatus::Movable { by_color, .. } => Some(*by_color),
        }
    }

    pub fn activate(&self, color: Color) -> (r: MoveStatus)
        ensures
            r == self.activated_for(color),
    {
        match self {
            MoveStatus::Unmarked => MoveStatus::Unmarked,
            MoveStatus::Capturable { .. } => MoveStatus::Capturable { by_color: color, activated: true },
            MoveStatus::Threaten { .. } => MoveStatus::Threaten { by_color: color, activated: true },
            MoveStatus::Pierced { .. } => MoveStatus::Pierced { by_color: color, activated: true },
            MoveStatus::EnPassant { .. } => MoveStatus::EnPassant { by_color: color, activated: true },
            MoveStatus::Castling { .. } => MoveStatus::Castling { by_color: color, activated: true },
            MoveStatus::Movable { .. } => MoveStatus::Movable { by_color: color, activated: true },
        }
    }
}

#[derive(Clone, Copy, PartialEq, Eq, Debug, Structural)]
pub enum Piece {
    P(Pawn),
    N(Knight),
    B(Bishop),
    R(Rook),
    Q(Queen),
    K(King),
}

impl Piece {
    pub open spec fn color(self) -> Color {
        match self {
            Piece::P(p) => p.color,
            Piece::N(p) => p.color,
            Piece::B(p) => p.color,
            Piece::R(p) => p.color,
            Piece::Q(p) => p.color,
            Piece::K(p) => p.color,
        }
    }

    pub open spec fn coord(self) -> Square {
        match self {
            Piece::P(p) => p.coord,
            Piece::N(p) => p.coord,
            Piece::B(p) => p.coord,
            Piece::R(p) => p.coord,
            Piece::Q(p) => p.coord,
            Piece::K(p) => p.coord,
        }
    }

    pub open spec fn with_coord(self, coord: Square) -> Piece {
        match self {
            Piece::P(p) => Piece::P(Pawn { coord, ..p }),
            Piece::N(p) => Piece::N(Knight { coord, ..p }),
            Piece::B(p) => Piece::B(Bishop { coord, ..p }),
            Piece::R(p) => Piece::R(Rook { coord, ..p }),
            Piece::Q(p) => Piece::Q(Queen { coord, ..p }),
            Piece::K(p) => Piece::K(King { coord, ..p }),
        }
    }

    /// Every destination of the piece from `from` on board `b`, each with its status.
    pub open spec fn moves_on(self, b: BoardModel, from: Square) -> Seq<(Square, MoveStatus)> {
        let f = from.file();
        let r = from.rank();
        if !from.is_on_board() {
            seq![]
        } else {
            match self {
                Piece::P(p) => pawn_moves(b.cells, b.double_step, p.color, f, r),
                Piece::N(p) => knight_moves(b.cells, p.color, f, r),
                Piece::B(p) => bishop_moves(b.cells, p.color, f, r),
                Piece::R(p) => rook_moves(b.cells, p.color, f, r),
                Piece::Q(p) => queen_moves(b.cells, p.color, f, r),
                Piece::K(p) => king_moves(b.cells, b.captures, p, f, r),
            }
        }
    }

    /// The squares the piece attacks from `from` on a board with these cells:
    /// a pawn's two diagonals, every square next to a king, and otherwise the
    /// piece's destinations.
    pub open spec fn attacks_on(self, cells: Seq<SquareKind>, from: Square) -> Seq<(Square, MoveStatus)> {
        let f = from.file();
        let r = from.rank();
        if !from.is_on_board() {
            seq![]
        } else {
            match self {
                Piece::P(p) => pawn_attacks(cells, p.color, f, r),
                Piece::N(p) => knight_moves(cells, p.color, f, r),
                Piece::B(p) => bishop_moves(cells, p.color, f, r),
                Piece::R(p) => rook_moves(cells, p.color, f, r),
                Piece::Q(p) => queen_moves(cells, p.color, f, r),
                Piece::K(p) => king_reach(p.color, f, r),
            }
        }
    }

    /// The board after the piece moves from its square to `to` (see each kind's `move_to`).
    pub open spec fn board_after_move(self, b: BoardModel, to: Square) -> BoardModel {
        match self {
            Piece::P(p) => pawn_board_after(b, p.color, p.coord, to),
            Piece::K(k) => king_board_after(b, k, to),
            _ => relocated(b, self.coord(), to),
        }
    }

    /// The piece itself after it moves to `to`.
    pub open spec fn after_moving(self, to: Square) -> Piece {
        match self {
            Piece::K(k) => Piece::K(moved_king(k, king_landing(k.color, k.coord, to))),
            _ => self.with_coord(to),
        }
    }

    /// Moves the piece from its square to `to`, with what its kind does besides:
    /// a pawn's en-passant capture, a king's castling rook.
    pub fn move_to(&mut self, board: &mut Board, coord_to: Square) -> (r: Result<(), ChessError>)
        ensures
                        move_refusal(old(board)@, old(self).coord(), coord_to) matches Some(e) ==> r == Err::<
                (),
                ChessError,
            >(e) && final(board)@ == old(board)@ && *final(self) == *old(self),
            move_refusal(old(board)@, old(self).coord(), coord_to) is None ==> r == Ok::<(), ChessError>(())
                && final(board)@ == old(self).board_after_move(old(board)@, coord_to) && *final(self)
                == old(self).after_moving(coord_to),
    {
        match self {
            Piece::P(p) => p.move_to(board, coord_to),
            Piece::R(p) => p.move_to(board, coord_to),
            Piece::K(p) => p.move_to(board, coord_to),
            _ => {
                let r = board.move_piece(self.get_coord(), coord_to);
                if r.is_ok() {
                    self.set_coord(coord_to);
                }
                r
            },
        }
    }

    /// The destinations of the piece from `coord`, on the board as it stands.
    pub fn get_valid_moves(&self, board: &Board, coord: Square) -> (r: Vec<(Square, MoveStatus)>)
        ensures
            r@ == self.moves_on(board@, coord),
            all_on_board(r@),
    {
        match self {
            Piece::P(p) => p.get_valid_moves(board, coord),
            Piece::N(p) => p.get_valid_moves(board, coord),
            Piece::B(p) => p.get_valid_moves(board, coord),
            Piece::R(p) => p.get_valid_moves(board, coord),
            Piece::Q(p) => p.get_valid_moves(board, coord),
            Piece::K(p) => p.get_valid_moves(board, coord),
        }
    }

    /// The squares the piece attacks from `coord`.
    pub fn get_attacks(&self, board: &Board, coord: Square) -> (r: Vec<(Square, MoveStatus)>)
        ensures
            r@ == self.attacks_on(board@.cells, coord),
            all_on_board(r@),
    {
        match self {
            Piece::P(p) => p.get_attacks(board, coord),
            Piece::N(p) => p.get_valid_moves(board, coord),
            Piece::B(p) => p.get_valid_moves(board, coord),
            Piece::R(p) => p.get_valid_moves(board, coord),
            Piece::Q(p) => p.get_valid_moves(board, coord),
            Piece::K(p) => p.get_attacks(coord),
        }
    }

    pub fn get_color(&self) -> (r: Color)
        ensures
            r == self.color(),
    {
        match self {
            Piece::P(p) => p.get_color(),
            Piece::N(p) => p.get_color(),
            Piece::B(p) => p.get_color(),
            Piece::R(p) => p.get_color(),
            Piece::Q(p) => p.get_color(),
            Piece::K(p) => p.get_color(),
        }
    }

    pub fn get_coord(&self) -> (r: Square)
        ensures
            r == self.coord(),
    {
        match self {
            Piece::P(p) => p.get_coord(),
            Piece::N(p) => p.get_coord(),
            Piece::B(p) => p.get_coord(),
            Piece::R(p) => p.get_coord(),
            Piece::Q(p) => p.get_coord(),
            Piece::K(p) => p.get_coord(),
        }
    }

    pub fn set_coord(&mut self, coord: Square)
        ensures
            *final(self) == old(self).with_coord(coord),
    {
        match self {
            Piece::P(p) => p.set_coord(coord),
            Piece::N(p) => p.set_coord(coord),
            Piece::B(p) => p.set_coord(coord),
            Piece::R(p) => p.set_coord(coord),
            Piece::Q(p) => p.set_coord(coord),
            Piece::K(p) => p.set_coord(coord),
        }
    }
}


/// A destination `(file, rank)` with its status.
pub open spec fn entry(file: int, rank: int, m: MoveStatus) -> (Square, MoveStatus) {
    (square_of(file * 8 + rank), m)
}

pub open spec fn capturable(color: Color) -> MoveStatus {
    MoveStatus::Capturable { by_color: color, activated: false }
}

pub open spec fn pierced(color: Color) -> MoveStatus {
    MoveStatus::Pierced { by_color: color, activated: false }
}

/// A piece of `color` stands on `(file, rank)`.
pub open spec fn holds_friend(cells: Seq<SquareKind>, color: Color, file: int, rank: int) -> bool {
    occupant_at(cells, file, rank) matches Some(p) && p.color() == color
}

/// A piece of the other color stands on `(file, rank)`.
pub open spec fn holds_enemy(cells: Seq<SquareKind>, color: Color, file: int, rank: int) -> bool {
    occupant_at(cells, file, rank) matches Some(p) && p.color() != color
}

/// A king of the other color stands on `(file, rank)`.
pub open spec fn holds_enemy_king(cells: Seq<SquareKind>, color: Color, file: int, rank: int) -> bool {
    match occupant_at(cells, file, rank) {
        Some(Piece::K(k)) => k.color != color,
        _ => false,
    }
}

/// No piece stands on `(file, rank)`.
pub open spec fn is_vacant(cells: Seq<SquareKind>, file: int, rank: int) -> bool {
    occupant_at(cells, file, rank) is None
}

/// A single jump to `(file, rank)` (knight and king steps): the square is
/// reached when it lies on the board and holds no piece of the mover's color.
pub open spec fn leap(cells: Seq<SquareKind>, color: Color, file: int, rank: int) -> Seq<
    (Square, MoveStatus),
> {
    if on_board(file, rank) && !holds_friend(cells, color, file, rank) {
        seq![entry(file, rank, capturable(color))]
    } else {
        seq![]
    }
}

/// How many steps in direction `(df, dr)` stay within reach of the board edge.
pub open spec fn ray_room(file: int, rank: int, df: int, dr: int) -> int {
    (if df > 0 {
        8 - file
    } else if df < 0 {
        file + 1
    } else {
        0
    }) + (if dr > 0 {
        8 - rank
    } else if dr < 0 {
        rank + 1
    } else {
        0
    })
}

pub open spec fn is_direction(df: int, dr: int) -> bool {
    -1 <= df <= 1 && -1 <= dr <= 1 && !(df == 0 && dr == 0)
}

/// The walk of a sliding piece of `color` along one ray, starting at `(file, rank)`
/// and stepping by `(df, dr)`: empty squares are reached; the first occupied
/// square ends the walk, reached only when it holds an enemy; an enemy king
/// there lets the walk see one square further, which is recorded as pierced.
pub open spec fn ray(
    cells: Seq<SquareKind>,
    color: Color,
    file: int,
    rank: int,
    df: int,
    dr: int,
) -> Seq<(Square, MoveStatus)>
    decreases ray_room(file, rank, df, dr),
{
    if !on_board(file, rank) || !is_direction(df, dr) {
        seq![]
    } else {
        match occupant_at(cells, file, rank) {
            None => seq![entry(file, rank, capturable(color))] + ray(
                cells,
                color,
                file + df,
                rank + dr,
                df,
                dr,
            ),
            Some(p) => if p.color() == color {
                seq![]
            } else if p is K && on_board(file + df, rank + dr) {
                seq![entry(file, rank, capturable(color)), entry(file + df, rank + dr, pierced(color))]
            } else {
                seq![entry(file, rank, capturable(color))]
            },
        }
    }
}

/// Every destination in `s` is a square of the board.
pub open spec fn all_on_board(s: Seq<(Square, MoveStatus)>) -> bool {
    forall|j: int| 0 <= j < s.len() ==> (#[trigger] s[j]).0.is_on_board()
}

pub proof fn lemma_entry_on_board(file: int, rank: int, m: MoveStatus)
    requires
        on_board(file, rank),
    ensures
        entry(file, rank, m).0.is_on_board(),
        entry(file, rank, m).0.file() == file,
        entry(file, rank, m).0.rank() == rank,
{
    assert(square_of(file * 8 + rank).index() == file * 8 + rank);
}

pub broadcast proof fn lemma_leap_on_board(cells: Seq<SquareKind>, color: Color, file: int, rank: int)
    ensures
        #[trigger] all_on_board(leap(cells, color, file, rank)),
{
    if on_board(file, rank) {
        lemma_entry_on_board(file, rank, capturable(color));
    }
}

pub broadcast proof fn lemma_concat_on_board(a: Seq<(Square, MoveStatus)>, b: Seq<(Square, MoveStatus)>)
    requires
        all_on_board(a),
        all_on_board(b),
    ensures
        #[trigger] all_on_board(a + b),
{
    assert forall|j: int| 0 <= j < (a + b).len() implies (#[trigger] (a + b)[j]).0.is_on_board() by {
        if j >= a.len() {
            assert((a + b)[j] == b[j - a.len()]);
        }
    }
}

pub broadcast proof fn lemma_ray_on_board(
    cells: Seq<SquareKind>,
    color: Color,
    file: int,
    rank: int,
    df: int,
    dr: int,
)
    ensures
        #[trigger] all_on_board(ray(cells, color, file, rank, df, dr)),
    decreases ray_room(file, rank, df, dr),
{
    if on_board(file, rank) && is_direction(df, dr) {
        lemma_entry_on_board(file, rank, capturable(color));
        if on_board(file + df, rank + dr) {
            lemma_entry_on_board(file + df, rank + dr, pierced(color));
        }
        lemma_ray_on_board(cells, color, file + df, rank + dr, df, dr);
        match occupant_at(cells, file, rank) {
            None => {
                lemma_concat_on_board(
                    seq![entry(file, rank, capturable(color))],
                    ray(cells, color, file + df, rank + dr, df, dr),
                );
            },
            Some(p) => {},
        }
    }
}

/// `j` steps in a direction whose component is `d` (-1, 0 or 1).
pub open spec fn offset(j: int, d: int) -> int {
    if d > 0 {
        j
    } else if d < 0 {
        -j
    } else {
        0
    }
}

/// A sliding piece's destinations along one ray stop right after the first
/// occupied square, except that an enemy king there is followed by exactly one
/// more destination, marked pierced: the `j`-th destination is the square `j`
/// steps along the ray, and each one but the last holds no piece, or holds the
/// enemy king and is the last but one, the last being pierced.
#[verifier::spinoff_prover]
#[verifier::rlimit(40)]
pub proof fn lemma_ray_stops_after_first_piece(
    cells: Seq<SquareKind>,
    color: Color,
    file: int,
    rank: int,
    df: int,
    dr: int,
)
    requires
        cells.len() == 64,
        is_direction(df, dr),
    ensures
        ({
            let s = ray(cells, color, file, rank, df, dr);
            &&& forall|j: int|
                0 <= j < s.len() ==> (#[trigger] s[j]).0.file() == file + offset(j, df) && s[j].0.rank()
                    == rank + offset(j, dr)
            &&& forall|j: int|
                0 <= j < s.len() - 1 ==> (occupant_at(cells, file + offset(j, df), rank + offset(j, dr))
                    is None || (occupant_at(cells, file + offset(j, df), rank + offset(j, dr)) matches Some(
                    p,
                ) && p is K && p.color() != color && j == s.len() - 2 && s.last().1 == pierced(color)))
        }),
    decreases ray_room(file, rank, df, dr),
{
    let s = ray(cells, color, file, rank, df, dr);
    if on_board(file, rank) && is_direction(df, dr) {
        lemma_entry_on_board(file, rank, capturable(color));
        if on_board(file + df, rank + dr) {
            lemma_entry_on_board(file + df, rank + dr, pierced(color));
        }
        let rest = ray(cells, color, file + df, rank + dr, df, dr);
        lemma_ray_stops_after_first_piece(cells, color, file + df, rank + dr, df, dr);
        match occupant_at(cells, file, rank) {
            None => {
                assert(s == seq![entry(file, rank, capturable(color))] + rest);
                assert forall|j: int| 0 <= j < s.len() implies (#[trigger] s[j]).0.file() == file
                    + offset(j, df) && s[j].0.rank() == rank + offset(j, dr) by {
                    if j > 0 {
                        assert(s[j] == rest[j - 1]);
                    }
                }
                assert forall|j: int| 0 < j < s.len() - 1 implies (occupant_at(
                    cells,
                    file + offset(j, df),
                    rank + offset(j, dr),
                ) is None || (occupant_at(cells, file + offset(j, df), rank + offset(j, dr)) matches Some(
                    p,
                ) && p is K && p.color() != color && j == s.len() - 2 && s.last().1 == pierced(
                    color,
                ))) by {
                    assert(file + offset(j, df) == (file + df) + offset(j - 1, df));
                    assert(rank + offset(j, dr) == (rank + dr) + offset(j - 1, dr));
                    if rest.len() > 0 {
                        assert(s.last() == rest.last());
                    }
                }
            },
            Some(p) => {},
        }
    }
}

pub broadcast group group_on_board {
    lemma_leap_on_board,
    lemma_concat_on_board,
    lemma_ray_on_board,
}

/// Move generation never leaves the board: every destination, and every
/// attacked square, of any piece on any board is a square of the board.
#[verifier::spinoff_prover]
#[verifier::rlimit(40)]
pub proof fn lemma_moves_stay_on_board(p: Piece, b: BoardModel, from: Square)
    ensures
        all_on_board(p.moves_on(b, from)),
        all_on_board(p.attacks_on(b.cells, from)),
{
    broadcast use group_on_board;

    if from.is_on_board() {
        let f = from.file();
        let r = from.rank();
        match p {
            Piece::P(q) => lemma_pawn_moves_on_board(b.cells, b.double_step, q.color, f, r),
            Piece::K(k) => lemma_king_moves_on_board(b.cells, b.captures, k, f, r),
            _ => {},
        }
    }
}

/// The square `j` steps along the ray from `(file, rank)` in direction
/// `(df, dr)` lies on the board and is empty.
pub open spec fn clear_along(
    cells: Seq<SquareKind>,
    file: int,
    rank: int,
    df: int,
    dr: int,
    j: int,
) -> bool {
    on_board(file + offset(j, df), rank + offset(j, dr)) && is_vacant(
        cells,
        file + offset(j, df),
        rank + offset(j, dr),
    )
}

/// The exact walk of a sliding piece along one ray (bishops, rooks and queens
/// concatenate such walks): when the first `k` squares of the ray lie on the
/// board and are empty, the walk lists them as capturable, in order; then at
/// the `k`-th square it stops at the board edge or before a piece of the
/// mover's color, lists an enemy piece as capturable and stops after it,
/// except that after an enemy king exactly one more square, if on the board,
/// is listed as pierced.
#[verifier::spinoff_prover]
#[verifier::rlimit(60)]
pub proof fn lemma_ray_walk(
    cells: Seq<SquareKind>,
    color: Color,
    file: int,
    rank: int,
    df: int,
    dr: int,
    k: int,
)
    requires
        cells.len() == 64,
        is_direction(df, dr),
        0 <= k,
        forall|j: int| 0 <= j < k ==> #[trigger] clear_along(cells, file, rank, df, dr, j),
    ensures
        ({
            let s = ray(cells, color, file, rank, df, dr);
            let fk = file + offset(k, df);
            let rk = rank + offset(k, dr);
            &&& k <= s.len()
            &&& forall|j: int|
                0 <= j < k ==> #[trigger] s[j] == entry(
                    file + offset(j, df),
                    rank + offset(j, dr),
                    capturable(color),
                )
            &&& !on_board(fk, rk) ==> s.len() == k
            &&& on_board(fk, rk) && holds_friend(cells, color, fk, rk) ==> s.len() == k
            &&& on_board(fk, rk) && holds_enemy(cells, color, fk, rk) ==> s[k] == entry(
                fk,
                rk,
                capturable(color),
            )
            &&& on_board(fk, rk) && holds_enemy(cells, color, fk, rk) && !(holds_enemy_king(
                cells,
                color,
                fk,
                rk,
            ) && on_board(fk + df, rk + dr)) ==> s.len() == k + 1
            &&& on_board(fk, rk) && holds_enemy_king(cells, color, fk, rk) && on_board(fk + df, rk + dr)
                ==> s.len() == k + 2 && s[k + 1] == entry(fk + df, rk + dr, pierced(color))
        }),
    decreases k,
{
    if k > 0 {
        assert(clear_along(cells, file, rank, df, dr, 0));
        assert forall|j: int| 0 <= j < k - 1 implies #[trigger] clear_along(
            cells,
            file + df,
            rank + dr,
            df,
            dr,
            j,
        ) by {
            assert(clear_along(cells, file, rank, df, dr, j + 1));
            assert(file + offset(j + 1, df) == (file + df) + offset(j, df));
            assert(rank + offset(j + 1, dr) == (rank + dr) + offset(j, dr));
        }
        lemma_ray_walk(cells, color, file + df, rank + dr, df, dr, k - 1);
        let s = ray(cells, color, file, rank, df, dr);
        let rest = ray(cells, color, file + df, rank + dr, df, dr);
        assert(s == seq![entry(file, rank, capturable(color))] + rest);
        assert(file + offset(k, df) == (file + df) + offset(k - 1, df));
        assert(rank + offset(k, dr) == (rank + dr) + offset(k - 1, dr));
        assert forall|j: int| 0 <= j < k implies #[trigger] s[j] == entry(
            file + offset(j, df),
            rank + offset(j, dr),
            capturable(color),
        ) by {
            if j > 0 {
                assert(s[j] == rest[j - 1]);
                assert(file + offset(j, df) == (file + df) + offset(j - 1, df));
                assert(rank + offset(j, dr) == (rank + dr) + offset(j - 1, dr));
            }
        }
        if k < s.len() {
            assert(s[k] == rest[k - 1]);
        }
        if k + 1 < s.len() {
            assert(s[k + 1] == rest[k]);
        }
    }
}

/// Appends the walk along one ray to `out`.
pub fn push_ray(
    board: &Board,
    out: &mut Vec<(Square, MoveStatus)>,
    color: Color,
    file: i32,
    rank: i32,
    df: i32,
    dr: i32,
)
    requires
        -1 <= file <= 8,
        -1 <= rank <= 8,
        is_direction(df as int, dr as int),
    ensures
        final(out)@ == old(out)@ + ray(board@.cells, color, file as int, rank as int, df as int, dr as int),
{
    let ghost target = old(out)@ + ray(board@.cells, color, file as int, rank as int, df as int, dr as int);
    let mut f = file;
    let mut r = rank;
    while 0 <= f && f < 8 && 0 <= r && r < 8
        invariant
            -1 <= f <= 8,
            -1 <= r <= 8,
            is_direction(df as int, dr as int),
            out@ + ray(board@.cells, color, f as int, r as int, df as int, dr as int) == target,
            target == old(out)@ + ray(board@.cells, color, file as int, rank as int, df as int, dr as int),
        decreases ray_room(f as int, r as int, df as int, dr as int),
    {
        let here = Square::at(f, r);
        match board.piece_at(f, r) {
            None => {
                let ghost before = out@;
                out.push((here, MoveStatus::Capturable { by_color: color, activated: false }));
                assert(before + ray(board@.cells, color, f as int, r as int, df as int, dr as int)
                    =~= out@ + ray(board@.cells, color, (f + df) as int, (r + dr) as int, df as int, dr as int));
                f = f + df;
                r = r + dr;
            },
            Some(p) => {
                let ghost before = out@;
                if p.get_color() != color {
                    out.push((here, MoveStatus::Capturable { by_color: color, activated: false }));
                    let nf = f + df;
                    let nr = r + dr;
                    if let Piece::K(_) = p {
                        if 0 <= nf && nf < 8 && 0 <= nr && nr < 8 {
                            out.push((Square::at(nf, nr), MoveStatus::Pierced { by_color: color, activated: false }));
                        }
                    }
                }
                assert(out@ =~= before + ray(board@.cells, color, f as int, r as int, df as int, dr as int));
                return;
            },
        }
    }
    assert(out@ =~= target);
}

/// Appends the jump to `(file, rank)` to `out`.
pub fn push_leap(board: &Board, out: &mut Vec<(Square, MoveStatus)>, color: Color, file: i32, rank: i32)
    requires
        -2 <= file <= 9,
        -2 <= rank <= 9,
    ensures
        final(out)@ == old(out)@ + leap(board@.cells, color, file as int, rank as int),
{
    let ghost before = out@;
    if 0 <= file && file < 8 && 0 <= rank && rank < 8 {
        let reached = match board.piece_at(file, rank) {
            None => true,
            Some(p) => p.get_color() != color,
        };
        if reached {
            out.push((Square::at(file, rank), MoveStatus::Capturable { by_color: color, activated: false }));
        }
    }
    assert(out@ =~= before + leap(board@.cells, color, file as int, rank as int));
}

} // verus!
