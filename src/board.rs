use vstd::prelude::*;

use crate::error::ChessError;
use crate::pieces::{Color, King, MoveStatus, Piece};
use crate::square::{Square, SquareKind, on_board, square_of, group_square_numbering};

verus! {

broadcast use group_square_numbering;

/// What a board holds: 64 cells numbered as squares are, the attacked-square
/// index from the last recomputation, and the pawn that has just made a
/// two-square advance (`OffBoard` when none has).
pub struct BoardModel {
    pub cells: Seq<SquareKind>,
    pub captures: Seq<(Square, MoveStatus)>,
    pub double_step: Square,
}

impl BoardModel {
    pub open spec fn wf(self) -> bool {
        self.cells.len() == 64
    }

    /// The piece on `s`; none for an empty cell or the off-board sentinel.
    pub open spec fn occupant(self, s: Square) -> Option<Piece> {
        if s.is_on_board() {
            self.cells[s.index()].piece()
        } else {
            None
        }
    }
}

/// The piece on `(file, rank)` of an 8x8 grid of cells.
pub open spec fn occupant_at(cells: Seq<SquareKind>, file: int, rank: int) -> Option<Piece> {
    cells[file * 8 + rank].piece()
}

/// `captures` records a piece of color `by` attacking `s`.
pub open spec fn attacked(captures: Seq<(Square, MoveStatus)>, s: Square, by: Color) -> bool {
    exists|j: int|
        0 <= j < captures.len() && (#[trigger] captures[j]).0 == s && captures[j].1.reached_by()
            == Some(by)
}

/// 64 empty, unmarked cells.
pub open spec fn empty_cells() -> Seq<SquareKind> {
    Seq::new(64, |i: int| SquareKind::Empty(MoveStatus::Unmarked))
}

/// The same cells with every mark reset to `Unmarked`.
pub open spec fn cleared(cells: Seq<SquareKind>) -> Seq<SquareKind> {
    Seq::new(cells.len(), |i: int| cells[i].with_status(MoveStatus::Unmarked))
}

/// The squares attacked by the piece on cell `i`.
pub open spec fn attacks_from(cells: Seq<SquareKind>, i: int) -> Seq<(Square, MoveStatus)> {
    match cells[i].piece() {
        None => seq![],
        Some(p) => p.attacks_on(cells, square_of(i)),
    }
}

/// The squares attacked by the pieces on cells `0..n`, cell by cell.
pub open spec fn captures_upto(cells: Seq<SquareKind>, n: int) -> Seq<(Square, MoveStatus)>
    decreases n,
{
    if n <= 0 {
        seq![]
    } else {
        captures_upto(cells, n - 1) + attacks_from(cells, n - 1)
    }
}

/// The attacked-square index of a board with these cells.
pub open spec fn all_captures(cells: Seq<SquareKind>) -> Seq<(Square, MoveStatus)> {
    captures_upto(cells, 64)
}

/// Cell `i` with a king's check flag set from the attacked-square index.
pub open spec fn synced_cell(cell: SquareKind, captures: Seq<(Square, MoveStatus)>, i: int) -> SquareKind {
    match cell {
        SquareKind::Occupied(Piece::K(k), m) => SquareKind::Occupied(
            Piece::K(King { is_checked: attacked(captures, square_of(i), k.color.flip()), ..k }),
            m,
        ),
        _ => cell,
    }
}

pub open spec fn synced(cells: Seq<SquareKind>, captures: Seq<(Square, MoveStatus)>) -> Seq<SquareKind> {
    Seq::new(cells.len(), |i: int| synced_cell(cells[i], captures, i))
}

/// The board with its attacked-square index recomputed from its pieces and
/// every king's check flag set from it.
pub open spec fn refreshed(b: BoardModel) -> BoardModel {
    BoardModel {
        cells: synced(b.cells, all_captures(b.cells)),
        captures: all_captures(b.cells),
        double_step: b.double_step,
    }
}

/// The board with `p` put on the on-board square `s`, keeping the cell's mark.
pub open spec fn placed(b: BoardModel, s: Square, p: Piece) -> BoardModel {
    BoardModel {
        cells: b.cells.update(s.index(), SquareKind::Occupied(p, b.cells[s.index()].status())),
        ..b
    }
}

/// The board with the piece on `s` taken off, keeping the cell's mark.
pub open spec fn removed(b: BoardModel, s: Square) -> BoardModel {
    BoardModel {
        cells: b.cells.update(s.index(), SquareKind::Empty(b.cells[s.index()].status())),
        ..b
    }
}

/// Why a move from `from` to `to` is refused, if it is.
pub open spec fn move_refusal(b: BoardModel, from: Square, to: Square) -> Option<ChessError> {
    if b.occupant(from) is None {
        Some(ChessError::EmptySource)
    } else if !to.is_on_board() {
        Some(ChessError::OutOfBounds)
    } else {
        None
    }
}

/// The piece on `from` moved to `to`, capturing whatever stood there; the
/// piece carries its cell's mark along and leaves it on the emptied cell.
pub open spec fn relocated(b: BoardModel, from: Square, to: Square) -> BoardModel {
    if from == to {
        b
    } else {
        let c = b.cells[from.index()];
        removed(
            BoardModel {
                cells: b.cells.update(
                    to.index(),
                    SquareKind::Occupied(c.piece().unwrap().with_coord(to), c.status()),
                ),
                ..b
            },
            from,
        )
    }
}

/// The board with the mark of `s` set to `m` (unchanged for the off-board sentinel).
pub open spec fn marked(b: BoardModel, s: Square, m: MoveStatus) -> BoardModel {
    if s.is_on_board() {
        BoardModel { cells: b.cells.update(s.index(), b.cells[s.index()].with_status(m)), ..b }
    } else {
        b
    }
}

/// The king of `color` stands on a square that the attacked-square index
/// records a piece of the other color attacking.
pub open spec fn in_check(b: BoardModel, color: Color) -> bool {
    exists|i: int|
        0 <= i < 64 && holds_king(#[trigger] b.cells[i], color) && attacked(
            b.captures,
            square_of(i),
            color.flip(),
        )
}

/// The cell holds the king of `color`.
pub open spec fn holds_king(cell: SquareKind, color: Color) -> bool {
    match cell.piece() {
        Some(Piece::K(k)) => k.color == color,
        _ => false,
    }
}

/// A mutable borrow of cell `i`.
fn cell_mut(cells: &mut Vec<SquareKind>, i: usize) -> (r: &mut SquareKind)
    requires
        i < old(cells)@.len(),
    ensures
        *r == old(cells)@[i as int],
        final(cells)@ == old(cells)@.update(i as int, *final(r)),
    no_unwind
{
    &mut cells[i]
}

/// The 8x8 board: a cell per square, and the attacked-square index.
pub struct Board {
    cells: Vec<SquareKind>,
    capture_board: Vec<(Square, MoveStatus)>,
    double_step: Square,
}

impl View for Board {
    type V = BoardModel;

    closed spec fn view(&self) -> BoardModel {
        BoardModel {
            cells: self.cells@,
            captures: self.capture_board@,
            double_step: self.double_step,
        }
    }
}

impl Board {
    #[verifier::type_invariant]
    spec fn inv(&self) -> bool {
        self.cells@.len() == 64
    }

    /// An empty board with no attacked squares.
    pub fn new() -> (r: Board)
        ensures
            r@ == (BoardModel {
                cells: empty_cells(),
                captures: Seq::empty(),
                double_step: Square::OffBoard,
            }),
            r@.wf(),
    {
        let mut cells: Vec<SquareKind> = Vec::new();
        let mut i: usize = 0;
        while i < 64
            invariant
                i <= 64,
                cells@.len() == i,
                forall|j: int| 0 <= j < i ==> cells@[j] == SquareKind::Empty(MoveStatus::Unmarked),
            decreases 64 - i,
        {
            cells.push(SquareKind::Empty(MoveStatus::Unmarked));
            i = i + 1;
        }
        assert(cells@ =~= empty_cells());
        Board { cells, capture_board: Vec::new(), double_step: Square::OffBoard }
    }

    /// A copy of the board.
    pub fn duplicate(&self) -> (r: Board)
        ensures
            r@ == self@,
    {
        proof {
            use_type_invariant(self);
        }
        let mut cells: Vec<SquareKind> = Vec::new();
        let mut i: usize = 0;
        while i < 64
            invariant
                i <= 64,
                self.cells@.len() == 64,
                cells@ == self.cells@.subrange(0, i as int),
            decreases 64 - i,
        {
            cells.push(self.cells[i]);
            i = i + 1;
            assert(cells@ =~= self.cells@.subrange(0, i as int));
        }
        let mut captures: Vec<(Square, MoveStatus)> = Vec::new();
        let mut j: usize = 0;
        while j < self.capture_board.len()
            invariant
                j <= self.capture_board@.len(),
                captures@ == self.capture_board@.subrange(0, j as int),
            decreases self.capture_board@.len() - j,
        {
            captures.push(self.capture_board[j]);
            j = j + 1;
            assert(captures@ =~= self.capture_board@.subrange(0, j as int));
        }
        assert(cells@ =~= self.cells@);
        assert(captures@ =~= self.capture_board@);
        Board { cells, capture_board: captures, double_step: self.double_step }
    }

    /// The piece on `(file, rank)`.
    pub fn piece_at(&self, file: i32, rank: i32) -> (r: Option<Piece>)
        requires
            on_board(file as int, rank as int),
        ensures
            self@.wf(),
            r == occupant_at(self@.cells, file as int, rank as int),
    {
        proof {
            use_type_invariant(self);
        }
        match self.cells[(file * 8 + rank) as usize] {
            SquareKind::Empty(_) => None,
            SquareKind::Occupied(p, _) => Some(p),
        }
    }

    /// The cell of `square`; none for the off-board sentinel.
    pub fn get_square(&self, square: Square) -> (r: Option<SquareKind>)
        ensures
            self@.wf(),
            square.is_on_board() ==> r == Some(self@.cells[square.index()]),
            !square.is_on_board() ==> r is None,
    {
        proof {
            use_type_invariant(self);
        }
        let i = square.to_index();
        if i < 64 {
            Some(self.cells[i as usize])
        } else {
            None
        }
    }

    /// Whether `square` holds no piece (true of the off-board sentinel).
    pub fn is_empty(&self, square: Square) -> (r: bool)
        ensures
            self@.wf(),
            r == (self@.occupant(square) is None),
    {
        proof {
            use_type_invariant(self);
        }
        let i = square.to_index();
        if i < 64 {
            match self.cells[i as usize] {
                SquareKind::Empty(_) => true,
                SquareKind::Occupied(_, _) => false,
            }
        } else {
            true
        }
    }

    /// The piece on `square`; none for an empty cell or the off-board sentinel.
    pub fn get_piece(&self, square: Square) -> (r: Option<&Piece>)
        ensures
            self@.wf(),
            r matches Some(p) ==> self@.occupant(square) == Some(*p),
            r is None ==> self@.occupant(square) is None,
    {
        proof {
            use_type_invariant(self);
        }
        let i = square.to_index();
        if i < 64 {
            match &self.cells[i as usize] {
                SquareKind::Empty(_) => None,
                SquareKind::Occupied(p, _) => Some(p),
            }
        } else {
            None
        }
    }

    /// A mutable borrow of the piece on `square`; none for an empty cell or the
    /// off-board sentinel.
    pub fn get_piece_mut(&mut self, square: Square) -> (r: Option<&mut Piece>)
        ensures
            old(self)@.occupant(square) is None ==> r is None && final(self)@ == old(self)@,
            old(self)@.occupant(square) matches Some(p) ==> r matches Some(q) && *q == p
                && final(self)@ == placed(old(self)@, square, *final(q)),
    {
        proof {
            use_type_invariant(&*self);
        }
        if self.is_empty(square) {
            return None;
        }
        let i = square.to_index();
        match cell_mut(&mut self.cells, i as usize) {
            SquareKind::Occupied(p, _) => Some(p),
            SquareKind::Empty(_) => None,
        }
    }

    /// Whether the attacked-square index records a piece of color `by_color` attacking `square`.
    pub fn is_under_attack(&self, square: Square, by_color: Color) -> (r: bool)
        ensures
            r == attacked(self@.captures, square, by_color),
    {
        proof {
            use_type_invariant(self);
        }
        let mut j: usize = 0;
        while j < self.capture_board.len()
            invariant
                j <= self.capture_board@.len(),
                forall|k: int|
                    0 <= k < j ==> !((#[trigger] self.capture_board@[k]).0 == square
                        && self.capture_board@[k].1.reached_by() == Some(by_color)),
            decreases self.capture_board@.len() - j,
        {
            let (s, m) = self.capture_board[j];
            if s == square && m.reaching_color() == Some(by_color) {
                return true;
            }
            j = j + 1;
        }
        false
    }

    /// The attacked-square index: every square some piece attacks, with the attacker's color.
    pub fn get_capture_board(&self) -> (r: &Vec<(Square, MoveStatus)>)
        ensures
            r@ == self@.captures,
    {
        proof {
            use_type_invariant(self);
        }
        &self.capture_board
    }

    /// Recomputes the attacked-square index from every piece on the board, and
    /// sets each king's check flag from it.
    pub fn update_capture_board(&mut self)
        ensures
            final(self)@ == refreshed(old(self)@),
            final(self)@.wf(),
    {
        proof {
            use_type_invariant(&*self);
        }
        let mut caps: Vec<(Square, MoveStatus)> = Vec::new();
        let mut i: usize = 0;
        while i < 64
            invariant
                self@.wf(),
                i <= 64,
                caps@ == captures_upto(self@.cells, i as int),
            decreases 64 - i,
        {
            if let SquareKind::Occupied(p, _) = self.cells[i] {
                let found = p.get_attacks(self, Square::from_index(i as u8));
                let mut k: usize = 0;
                let ghost start = caps@;
                while k < found.len()
                    invariant
                        k <= found@.len(),
                        caps@ == start + found@.subrange(0, k as int),
                    decreases found@.len() - k,
                {
                    caps.push(found[k]);
                    k = k + 1;
                    assert(caps@ =~= start + found@.subrange(0, k as int));
                }
                assert(found@.subrange(0, k as int) =~= found@);
            }
            assert(caps@ =~= captures_upto(self@.cells, i + 1));
            i = i + 1;
        }
        let ghost cells0 = self.cells@;
        self.capture_board = caps;
        let mut i: usize = 0;
        while i < 64
            invariant
                i <= 64,
                self.cells@.len() == 64,
                self.capture_board@ == all_captures(cells0),
                self.double_step == old(self)@.double_step,
                cells0 == old(self)@.cells,
                forall|j: int| 0 <= j < i ==> self.cells@[j] == synced_cell(cells0[j], self.capture_board@, j),
                forall|j: int| i <= j < 64 ==> self.cells@[j] == cells0[j],
            decreases 64 - i,
        {
            if let SquareKind::Occupied(Piece::K(k), m) = self.cells[i] {
                let checked = self.is_under_attack(Square::from_index(i as u8), k.color.opposite());
                self.cells[i] = SquareKind::Occupied(Piece::K(King { is_checked: checked, ..k }), m);
            }
            i = i + 1;
        }
        assert(self.cells@ =~= synced(cells0, self.capture_board@));
    }

    /// Puts `piece` on `coord_to` and recomputes the attacked-square index.
    pub fn spawn(&mut self, piece: Piece, coord_to: Square) -> (r: Result<(), ChessError>)
        ensures
            final(self)@.wf(),
            !coord_to.is_on_board() ==> r == Err::<(), ChessError>(ChessError::OutOfBounds)
                && final(self)@ == old(self)@,
            coord_to.is_on_board() && old(self)@.occupant(coord_to) is Some ==> r == Err::<
                (),
                ChessError,
            >(ChessError::OccupiedSquare) && final(self)@ == old(self)@,
            coord_to.is_on_board() && old(self)@.occupant(coord_to) is None ==> r == Ok::<(), ChessError>(())
                && final(self)@ == refreshed(placed(old(self)@, coord_to, piece.with_coord(coord_to))),
    {
        proof {
            use_type_invariant(&*self);
        }
        let i = coord_to.to_index();
        if i >= 64 {
            return Err(ChessError::OutOfBounds);
        }
        match self.cells[i as usize] {
            SquareKind::Occupied(_, _) => Err(ChessError::OccupiedSquare),
            SquareKind::Empty(status) => {
                let mut placed_piece = piece;
                placed_piece.set_coord(coord_to);
                self.cells[i as usize] = SquareKind::Occupied(placed_piece, status);
                assert(self@ == placed(old(self)@, coord_to, piece.with_coord(coord_to)));
                self.update_capture_board();
                Ok(())
            },
        }
    }

    /// Puts `piece` on the on-board square `coord`, replacing any piece there and keeping the mark.
    pub fn put_piece(&mut self, piece: Piece, coord: Square)
        requires
            coord.is_on_board(),
        ensures
            final(self)@ == placed(old(self)@, coord, piece),
            final(self)@.wf(),
    {
        proof {
            use_type_invariant(&*self);
        }
        let i = coord.to_index() as usize;
        let status = match self.cells[i] {
            SquareKind::Empty(m) => m,
            SquareKind::Occupied(_, m) => m,
        };
        self.cells[i] = SquareKind::Occupied(piece, status);
    }

    /// Takes the piece off `coord`, keeping the cell's mark.
    pub fn despawn(&mut self, coord: Square) -> (r: Result<Piece, ChessError>)
        ensures
            final(self)@.wf(),
            old(self)@.occupant(coord) is None ==> r == Err::<Piece, ChessError>(ChessError::EmptySource)
                && final(self)@ == old(self)@,
            old(self)@.occupant(coord) matches Some(p) ==> r == Ok::<Piece, ChessError>(p) && final(self)@
                == removed(old(self)@, coord),
    {
        proof {
            use_type_invariant(&*self);
        }
        let i = coord.to_index();
        if i >= 64 {
            return Err(ChessError::EmptySource);
        }
        match self.cells[i as usize] {
            SquareKind::Empty(_) => Err(ChessError::EmptySource),
            SquareKind::Occupied(p, status) => {
                self.cells[i as usize] = SquareKind::Empty(status);
                Ok(p)
            },
        }
    }

    /// Moves the piece on `coord_from` to `coord_to`, capturing whatever stands
    /// there; the piece carries its cell's mark along. Moving a piece onto its
    /// own square changes nothing.
    pub fn move_piece(&mut self, coord_from: Square, coord_to: Square) -> (r: Result<(), ChessError>)
        ensures
            final(self)@.wf(),
            move_refusal(old(self)@, coord_from, coord_to) matches Some(e) ==> r == Err::<(), ChessError>(e)
                && final(self)@ == old(self)@,
            move_refusal(old(self)@, coord_from, coord_to) is None ==> r == Ok::<(), ChessError>(())
                && final(self)@ == relocated(old(self)@, coord_from, coord_to),
    {
        proof {
            use_type_invariant(&*self);
        }
        let i = coord_from.to_index();
        let j = coord_to.to_index();
        if i >= 64 {
            return Err(ChessError::EmptySource);
        }
        match self.cells[i as usize] {
            SquareKind::Empty(_) => Err(ChessError::EmptySource),
            SquareKind::Occupied(p, status) => {
                if j >= 64 {
                    return Err(ChessError::OutOfBounds);
                }
                if i == j {
                    return Ok(());
                }
                let mut moved = p;
                moved.set_coord(coord_to);
                self.cells[j as usize] = SquareKind::Occupied(moved, status);
                self.cells[i as usize] = SquareKind::Empty(status);
                assert(self@ == relocated(old(self)@, coord_from, coord_to));
                Ok(())
            },
        }
    }

    /// Sets the mark of `coord` without touching its piece (no effect off the board).
    pub fn mark_moves(&mut self, move_kind: MoveStatus, coord: Square)
        ensures
            final(self)@ == marked(old(self)@, coord, move_kind),
            final(self)@.wf(),
    {
        proof {
            use_type_invariant(&*self);
        }
        let i = coord.to_index();
        if i < 64 {
            let cell = match self.cells[i as usize] {
                SquareKind::Empty(_) => SquareKind::Empty(move_kind),
                SquareKind::Occupied(p, _) => SquareKind::Occupied(p, move_kind),
            };
            self.cells[i as usize] = cell;
        }
    }

    /// Resets the mark of every cell to `Unmarked`.
    pub fn clear_marks(&mut self)
        ensures
            final(self)@ == (BoardModel { cells: cleared(old(self)@.cells), ..old(self)@ }),
            final(self)@.wf(),
    {
        proof {
            use_type_invariant(&*self);
        }
        let mut i: usize = 0;
        while i < 64
            invariant
                i <= 64,
                self.cells@.len() == 64,
                self.capture_board@ == old(self)@.captures,
                self.double_step == old(self)@.double_step,
                forall|j: int| 0 <= j < i ==> self.cells@[j] == old(self)@.cells[j].with_status(MoveStatus::Unmarked),
                forall|j: int| i <= j < 64 ==> self.cells@[j] == old(self)@.cells[j],
            decreases 64 - i,
        {
            let cell = match self.cells[i] {
                SquareKind::Empty(_) => SquareKind::Empty(MoveStatus::Unmarked),
                SquareKind::Occupied(p, _) => SquareKind::Occupied(p, MoveStatus::Unmarked),
            };
            self.cells[i] = cell;
            i = i + 1;
        }
        assert(self.cells@ =~= cleared(old(self)@.cells));
    }

    /// Whether the king of `color` stands on a square attacked by the other color.
    pub fn is_king_checked(&self, color: Color) -> (r: bool)
        ensures
            self@.wf(),
            r == in_check(self@, color),
    {
        proof {
            use_type_invariant(self);
        }
        let mut i: usize = 0;
        while i < 64
            invariant
                i <= 64,
                self@.wf(),
                forall|j: int|
                    0 <= j < i ==> !(holds_king(#[trigger] self@.cells[j], color) && attacked(
                        self@.captures,
                        square_of(j),
                        color.flip(),
                    )),
            decreases 64 - i,
        {
            if let SquareKind::Occupied(Piece::K(k), _) = self.cells[i] {
                if k.color == color && self.is_under_attack(Square::from_index(i as u8), color.opposite()) {
                    return true;
                }
            }
            i = i + 1;
        }
        false
    }

    /// Records the pawn that has just advanced two squares (`OffBoard` for none).
    pub fn set_double_step(&mut self, coord: Square)
        ensures
            final(self)@ == (BoardModel { double_step: coord, ..old(self)@ }),
    {
        proof {
            use_type_invariant(&*self);
        }
        self.double_step = coord;
    }

    /// The pawn that has just advanced two squares, or `OffBoard`.
    pub fn get_double_step(&self) -> (r: Square)
        ensures
            r == self@.double_step,
    {
        proof {
            use_type_invariant(self);
        }
        self.double_step
    }
}

} // verus!
