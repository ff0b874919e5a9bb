use vstd::prelude::*;

use crate::board::{Board, BoardModel, cleared, empty_cells, in_check, marked, placed, refreshed};
use crate::error::ChessError;
use crate::moves::Promotable;
use crate::pieces::pawn::promotion_rank;
use crate::pieces::{Bishop, Color, Knight, MoveStatus, Pawn, Piece, Queen, Rook, all_on_board};
use crate::square::Square;

verus! {

/// The phase of the game.
#[derive(Clone, Copy, PartialEq, Eq, Debug, Structural)]
pub enum GameState {
    /// `turn` is to move.
    Playing { turn: Color },
    /// `by_color` is to move, and its king is attacked.
    InCheck { by_color: Color },
    /// `pawn` has reached the far rank and waits to be replaced.
    Promoting { pawn: Pawn },
}

impl GameState {
    /// The side that is to act.
    pub open spec fn turn(self) -> Color {
        match self {
            GameState::Playing { turn } => turn,
            GameState::InCheck { by_color } => by_color,
            GameState::Promoting { pawn } => pawn.color,
        }
    }
}

/// The kinds a pawn may be promoted to.
#[derive(Clone, Copy, PartialEq, Eq, Debug, Structural)]
pub enum PromotionKind {
    Queen,
    Rook,
    Bishop,
    Knight,
}

/// What a game holds: the board, the phase, the selected square with the
/// piece found on it, and the destinations found at that selection.
pub struct GameModel {
    pub board: BoardModel,
    pub state: GameState,
    pub selected: Option<(Square, Piece)>,
    pub moves: Seq<(Square, MoveStatus)>,
}

/// The board with every mark reset.
pub open spec fn unmarked(b: BoardModel) -> BoardModel {
    BoardModel { cells: cleared(b.cells), ..b }
}

/// The board with the destinations in `moves` marked, in order, as the
/// selected piece's of `color`.
pub open spec fn mark_all(b: BoardModel, moves: Seq<(Square, MoveStatus)>, color: Color) -> BoardModel
    decreases moves.len(),
{
    if moves.len() == 0 {
        b
    } else {
        marked(mark_all(b, moves.drop_last(), color), moves.last().0, moves.last().1.activated_for(color))
    }
}

/// The phase once `mover` has moved on board `b`: the other side is to move,
/// in check when its king is attacked.
pub open spec fn state_after(b: BoardModel, mover: Color) -> GameState {
    if in_check(b, mover.flip()) {
        GameState::InCheck { by_color: mover.flip() }
    } else {
        GameState::Playing { turn: mover.flip() }
    }
}

/// What selecting `coord` does to game `g`: the result, and the game after it.
/// The piece must belong to the side to move, and no promotion may be pending;
/// its destinations are then found, and marked on a board cleared of older marks.
pub open spec fn select_outcome(g: GameModel, coord: Square) -> (Result<(), ChessError>, GameModel) {
    match g.board.occupant(coord) {
        None => (Err(ChessError::NoPieceFound), g),
        Some(p) => if g.state is Promoting || p.color() != g.state.turn() {
            (Err(ChessError::NotYourTurn), g)
        } else {
            let moves = p.moves_on(g.board, coord);
            (
                Ok(()),
                GameModel {
                    board: mark_all(unmarked(g.board), moves, p.color()),
                    state: g.state,
                    selected: Some((coord, p)),
                    moves,
                },
            )
        },
    }
}

/// Some destination of `moves` lands on `to`.
pub open spec fn has_landing(moves: Seq<(Square, MoveStatus)>, to: Square) -> bool {
    exists|j: int| 0 <= j < moves.len() && (#[trigger] moves[j]).0 == to && moves[j].1.is_landing()
}

/// `j` is the first destination of `moves` that lands on `to`.
pub open spec fn first_landing(moves: Seq<(Square, MoveStatus)>, to: Square, j: int) -> bool {
    &&& 0 <= j < moves.len()
    &&& moves[j].0 == to && moves[j].1.is_landing()
    &&& forall|k: int| 0 <= k < j ==> !((#[trigger] moves[k]).0 == to && moves[k].1.is_landing())
}

/// The piece `p` moving from `from` to `to` promotes: a pawn reaching the far rank.
pub open spec fn promotes(p: Piece, to: Square) -> bool {
    p is P && to.rank() == promotion_rank(p.color())
}

/// The board after the selected piece `p` plays from `from` the destination
/// `to` found with `status`: the move (with its en-passant capture or castling
/// rook), the two-square pawn advance recorded, the attacked squares
/// recomputed, and every mark cleared.
pub open spec fn played(b: BoardModel, p: Piece, from: Square, to: Square, status: MoveStatus) -> BoardModel {
    let b1 = p.with_coord(from).board_after_move(marked(b, to, status.activated_for(p.color())), to);
    let double = p is P && (to.rank() - from.rank() == 2 || from.rank() - to.rank() == 2);
    unmarked(
        refreshed(
            BoardModel {
                double_step: if double {
                    to
                } else {
                    Square::OffBoard
                },
                ..b1
            },
        ),
    )
}

/// What moving from `from` to `to` does to game `g`. Moving a square onto
/// itself drops the selection. Otherwise the move must start on the selected
/// square and land on one of the destinations found at selection, and must not
/// leave the mover's own king attacked; a refused move changes nothing, so a
/// side in check stays in check.
pub open spec fn move_outcome(g: GameModel, from: Square, to: Square) -> (Result<(), ChessError>, GameModel) {
    if from == to {
        (Ok(()), GameModel { board: unmarked(g.board), selected: None, moves: seq![], ..g })
    } else {
        match g.selected {
            None => (Err(ChessError::InvalidMove), g),
            Some((s, p)) => if s != from || !has_landing(g.moves, to) {
                (Err(ChessError::InvalidMove), g)
            } else if g.board.occupant(from) is None {
                (Err(ChessError::EmptySource), g)
            } else {
                let j = choose|j: int| first_landing(g.moves, to, j);
                let b = played(g.board, p, from, to, g.moves[j].1);
                if in_check(b, p.color()) {
                    (Err(ChessError::InvalidMove), g)
                } else {
                (
                    Ok(()),
                    GameModel {
                        board: b,
                        state: if promotes(p, to) {
                            GameState::Promoting { pawn: Pawn { color: p.color(), coord: to } }
                        } else {
                            state_after(b, p.color())
                        },
                        selected: None,
                        moves: seq![],
                    },
                )
                }
            },
        }
    }
}

/// The piece of kind `kind` that replaces `pawn`, on its square and of its color.
pub open spec fn promoted(pawn: Pawn, kind: PromotionKind) -> Piece {
    match kind {
        PromotionKind::Queen => Piece::Q(Queen { color: pawn.color, coord: pawn.coord }),
        PromotionKind::Rook => Piece::R(Rook { color: pawn.color, coord: pawn.coord }),
        PromotionKind::Bishop => Piece::B(Bishop { color: pawn.color, coord: pawn.coord }),
        PromotionKind::Knight => Piece::N(Knight { color: pawn.color, coord: pawn.coord }),
    }
}

/// What resolving a pending promotion with `kind` does to game `g`: the pawn is
/// replaced, the attacked squares recomputed, and the other side is to move.
pub open spec fn promotion_outcome(g: GameModel, kind: PromotionKind) -> (Option<Piece>, GameModel) {
    match g.state {
        GameState::Promoting { pawn } => if pawn.coord.is_on_board() {
            let p = promoted(pawn, kind);
            let b = refreshed(placed(g.board, pawn.coord, p));
            (Some(p), GameModel { board: b, state: state_after(b, pawn.color), ..g })
        } else {
            (None, g)
        },
        _ => (None, g),
    }
}

/// Marking squares changes no piece and no cell count.
pub proof fn lemma_mark_all_keeps_pieces(b: BoardModel, moves: Seq<(Square, MoveStatus)>, color: Color)
    requires
        b.wf(),
    ensures
        mark_all(b, moves, color).cells.len() == b.cells.len(),
        mark_all(b, moves, color).captures == b.captures,
        mark_all(b, moves, color).double_step == b.double_step,
        forall|i: int|
            0 <= i < b.cells.len() ==> (#[trigger] mark_all(b, moves, color).cells[i]).piece()
                == b.cells[i].piece(),
    decreases moves.len(),
{
    if moves.len() > 0 {
        lemma_mark_all_keeps_pieces(b, moves.drop_last(), color);
    }
}

/// A move is accepted only when its destination is one that the selection of
/// the same square has just found as a landing; any other destination is
/// refused with `InvalidMove`, and a refused move leaves the game, board
/// included, unchanged.
pub proof fn lemma_move_only_to_selected(g: GameModel, from: Square, to: Square)
    requires
        g.board.wf(),
        select_outcome(g, from).0 is Ok,
        from != to,
    ensures
        ({
            let g1 = select_outcome(g, from).1;
            let found = g.board.occupant(from).unwrap().moves_on(g.board, from);
            let (r, g2) = move_outcome(g1, from, to);
            &&& g1.moves == found
            &&& r is Ok ==> has_landing(found, to)
            &&& r is Err ==> g2 == g1
            &&& !has_landing(found, to) ==> r == Err::<(), ChessError>(ChessError::InvalidMove) && g2 == g1
        }),
{
    let p = g.board.occupant(from).unwrap();
    assert(unmarked(g.board).wf());
    lemma_mark_all_keeps_pieces(unmarked(g.board), p.moves_on(g.board, from), p.color());
    let g1 = select_outcome(g, from).1;
    assert(g1.board.occupant(from) == g.board.occupant(from));
}

/// After a move is made, no cell keeps a mark, the mover's own king is not
/// attacked, and unless a promotion is pending the turn passes to the
/// opposite of the mover's color.
pub proof fn lemma_move_passes_turn(g: GameModel, from: Square, to: Square)
    requires
        g.board.wf(),
        g.selected is Some,
        from != to,
        move_outcome(g, from, to).0 is Ok,
    ensures
        ({
            let g2 = move_outcome(g, from, to).1;
            let mover = g.selected.unwrap().1.color();
            &&& forall|i: int| 0 <= i < g2.board.cells.len() ==> (#[trigger] g2.board.cells[i]).status()
                is Unmarked
            &&& !(g2.state is Promoting) ==> g2.state.turn() == mover.flip()
            &&& !in_check(g2.board, mover)
        }),
{
}

/// Once a pending promotion is resolved, the turn passes to the opposite of
/// the promoted pawn's color.
pub proof fn lemma_promotion_passes_turn(g: GameModel, kind: PromotionKind)
    requires
        promotion_outcome(g, kind).0 is Some,
    ensures
        g.state is Promoting,
        promotion_outcome(g, kind).1.state.turn() == g.state->pawn.color.flip(),
        promotion_outcome(g, kind).0 == Some(promoted(g.state->pawn, kind)),
{
}

/// Runs the game: turn order, piece selection, move validation, check and promotion.
pub struct GameManager {
    board: Board,
    state: GameState,
    piece_selected: Option<Piece>,
    selected_from: Square,
    selected_moves: Vec<(Square, MoveStatus)>,
}

impl View for GameManager {
    type V = GameModel;

    closed spec fn view(&self) -> GameModel {
        GameModel {
            board: self.board@,
            state: self.state,
            selected: match self.piece_selected {
                Some(p) => Some((self.selected_from, p)),
                None => None,
            },
            moves: self.selected_moves@,
        }
    }
}

/// The first destination of `moves` that lands on `to`.
fn find_landing(moves: &Vec<(Square, MoveStatus)>, to: Square) -> (r: Option<usize>)
    ensures
        r matches Some(j) ==> first_landing(moves@, to, j as int),
        r is None ==> !has_landing(moves@, to),
{
    let mut j: usize = 0;
    while j < moves.len()
        invariant
            j <= moves@.len(),
            forall|k: int| 0 <= k < j ==> !((#[trigger] moves@[k]).0 == to && moves@[k].1.is_landing()),
        decreases moves@.len() - j,
    {
        if moves[j].0 == to && moves[j].1.is_landing_status() {
            return Some(j);
        }
        j = j + 1;
    }
    None
}

/// At most one destination is the first to land on a square.
proof fn lemma_first_landing_unique(moves: Seq<(Square, MoveStatus)>, to: Square, i: int, j: int)
    requires
        first_landing(moves, to, i),
        first_landing(moves, to, j),
    ensures
        i == j,
{
    if i < j {
        assert(!(moves[i].0 == to && moves[i].1.is_landing()));
    } else if j < i {
        assert(!(moves[j].0 == to && moves[j].1.is_landing()));
    }
}

/// A mutable borrow of the game's board.
fn board_mut(board: &mut Board) -> (r: &mut Board)
    ensures
        *r == *old(board),
        *final(board) == *final(r),
    no_unwind
{
    board
}

/// A mutable borrow of the game's state.
fn state_mut(state: &mut GameState) -> (r: &mut GameState)
    ensures
        *r == *old(state),
        *final(state) == *final(r),
    no_unwind
{
    state
}

impl GameManager {
    /// Every destination found at selection is a square of the board.
    #[verifier::type_invariant]
    spec fn inv(&self) -> bool {
        all_on_board(self.selected_moves@)
    }

    /// A game on an empty board, White to move.
    pub fn new() -> (r: GameManager)
        ensures
            r@ == (GameModel {
                board: BoardModel {
                    cells: empty_cells(),
                    captures: Seq::empty(),
                    double_step: Square::OffBoard,
                },
                state: GameState::Playing { turn: Color::White },
                selected: None,
                moves: Seq::empty(),
            }),
    {
        GameManager {
            board: Board::new(),
            state: GameState::Playing { turn: Color::White },
            piece_selected: None,
            selected_from: Square::OffBoard,
            selected_moves: Vec::new(),
        }
    }

    /// The side that is to act.
    pub fn get_turn(&self) -> (r: Color)
        ensures
            r == self@.state.turn(),
    {
        match self.state {
            GameState::Playing { turn } => turn,
            GameState::InCheck { by_color } => by_color,
            GameState::Promoting { pawn } => pawn.get_color(),
        }
    }

    pub fn get_board(&self) -> (r: &Board)
        ensures
            r@ == self@.board,
    {
        &self.board
    }

    pub fn get_board_mut(&mut self) -> (r: &mut Board)
        ensures
            (*r)@ == old(self)@.board,
            final(self)@ == (GameModel { board: (*final(r))@, ..old(self)@ }),
    {
        proof {
            use_type_invariant(&*self);
        }
        board_mut(&mut self.board)
    }

    pub fn get_state(&self) -> (r: &GameState)
        ensures
            *r == self@.state,
    {
        &self.state
    }

    /// Selects the piece on `coord` for the side to move and marks its destinations.
    pub fn select_piece(&mut self, coord: Square) -> (r: Result<(), ChessError>)
        ensures
            (r, final(self)@) == select_outcome(old(self)@, coord),
    {
        proof {
            use_type_invariant(&*self);
        }
        let piece = match self.board.get_piece(coord) {
            None => {
                return Err(ChessError::NoPieceFound);
            },
            Some(p) => *p,
        };
        let color = piece.get_color();
        let promoting = match self.state {
            GameState::Promoting { .. } => true,
            _ => false,
        };
        if promoting || color != self.get_turn() {
            return Err(ChessError::NotYourTurn);
        }
        let moves = piece.get_valid_moves(&self.board, coord);
        let ghost b0 = self.board@;
        let mut board = self.board.duplicate();
        board.clear_marks();
        let mut i: usize = 0;
        while i < moves.len()
            invariant
                i <= moves@.len(),
                board@.wf(),
                board@ == mark_all(unmarked(b0), moves@.subrange(0, i as int), color),
            decreases moves@.len() - i,
        {
            let (sq, st) = moves[i];
            board.mark_moves(st.activate(color), sq);
            assert(moves@.subrange(0, i + 1).drop_last() =~= moves@.subrange(0, i as int));
            i = i + 1;
        }
        assert(moves@.subrange(0, i as int) =~= moves@);
        self.board = board;
        self.piece_selected = Some(piece);
        self.selected_from = coord;
        self.selected_moves = moves;
        Ok(())
    }

    /// Moves the selected piece from `coord_from` to `coord_to`, which must be
    /// one of the destinations found when it was selected; moving a square
    /// onto itself drops the selection.
    pub fn move_piece(&mut self, coord_from: Square, coord_to: Square) -> (r: Result<(), ChessError>)
        ensures
            (r, final(self)@) == move_outcome(old(self)@, coord_from, coord_to),
    {
        proof {
            use_type_invariant(&*self);
        }
        if coord_from == coord_to {
            let mut board = self.board.duplicate();
            board.clear_marks();
            self.board = board;
            self.piece_selected = None;
            self.selected_moves = Vec::new();
            return Ok(());
        }
        let piece = match self.piece_selected {
            None => {
                return Err(ChessError::InvalidMove);
            },
            Some(p) => p,
        };
        if self.selected_from != coord_from {
            return Err(ChessError::InvalidMove);
        }
        let j = match find_landing(&self.selected_moves, coord_to) {
            None => {
                return Err(ChessError::InvalidMove);
            },
            Some(j) => j,
        };
        if self.board.is_empty(coord_from) {
            return Err(ChessError::EmptySource);
        }
        let ghost g0 = self@;
        proof {
            let jj = choose|jj: int| first_landing(g0.moves, coord_to, jj);
            lemma_first_landing_unique(g0.moves, coord_to, j as int, jj);
        }
        let status = self.selected_moves[j].1;
        let color = piece.get_color();
        let mut next = self.board.duplicate();
        next.mark_moves(status.activate(color), coord_to);
        let mut mover = piece;
        mover.set_coord(coord_from);
        let moved = mover.move_to(&mut next, coord_to);
        let is_pawn = match piece {
            Piece::P(_) => true,
            _ => false,
        };
        let from_rank = coord_from.get_rank();
        let to_rank = coord_to.get_rank();
        if is_pawn && (to_rank - from_rank == 2 || from_rank - to_rank == 2) {
            next.set_double_step(coord_to);
        } else {
            next.set_double_step(Square::OffBoard);
        }
        next.update_capture_board();
        next.clear_marks();
        if next.is_king_checked(color) {
            return Err(ChessError::InvalidMove);
        }
        self.board = next;
        let last_rank: i32 = match color {
            Color::White => 7,
            Color::Black => 0,
        };
        if is_pawn && to_rank == last_rank {
            self.state = GameState::Promoting { pawn: Pawn { color, coord: coord_to } };
        } else if self.board.is_king_checked(color.opposite()) {
            self.state = GameState::InCheck { by_color: color.opposite() };
        } else {
            self.state = GameState::Playing { turn: color.opposite() };
        }
        self.piece_selected = None;
        self.selected_moves = Vec::new();
        Ok(())
    }

    /// Replaces the pawn awaiting promotion with a piece of kind `kind`; none
    /// when no promotion is pending.
    pub fn resolve_promotion(&mut self, kind: PromotionKind) -> (r: Option<Piece>)
        ensures
            (r, final(self)@) == promotion_outcome(old(self)@, kind),
            final(self)@.moves == old(self)@.moves,
    {
        proof {
            use_type_invariant(&*self);
        }
        let pawn = match self.state {
            GameState::Promoting { pawn } => pawn,
            _ => {
                return None;
            },
        };
        if pawn.coord.to_index() >= 64 {
            return None;
        }
        let p = match kind {
            PromotionKind::Queen => Piece::Q(pawn.into_queen()),
            PromotionKind::Rook => Piece::R(pawn.into_rook()),
            PromotionKind::Bishop => Piece::B(pawn.into_bishop()),
            PromotionKind::Knight => Piece::N(pawn.into_knight()),
        };
        let mut board = self.board.duplicate();
        board.put_piece(p, pawn.coord);
        board.update_capture_board();
        self.board = board;
        let c = pawn.color;
        if self.board.is_king_checked(c.opposite()) {
            self.state = GameState::InCheck { by_color: c.opposite() };
        } else {
            self.state = GameState::Playing { turn: c.opposite() };
        }
        Some(p)
    }

    pub fn get_state_mut(&mut self) -> (r: &mut GameState)
        ensures
            *r == old(self)@.state,
            final(self)@ == (GameModel { state: *final(r), ..old(self)@ }),
    {
        proof {
            use_type_invariant(&*self);
        }
        state_mut(&mut self.state)
    }
}

} // verus!
