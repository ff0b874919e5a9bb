use chess::board::Board;
use chess::error::ChessError;
use chess::game::{GameManager, GameState, PromotionKind};
use chess::pieces::{Color, King, MoveStatus, Pawn, Piece, Queen, Rook};
use chess::square::{Square, SquareKind};

fn snapshot(board: &Board) -> Vec<Option<SquareKind>> {
    (0..64u8).map(|i| board.get_square(Square::from_index(i))).collect()
}

fn all_unmarked(board: &Board) -> bool {
    (0..64u8).all(|i| match board.get_square(Square::from_index(i)).unwrap() {
        SquareKind::Empty(s) => s == MoveStatus::Unmarked,
        SquareKind::Occupied(_, s) => s == MoveStatus::Unmarked,
    })
}

fn place(game: &mut GameManager, piece: Piece, s: Square) {
    game.get_board_mut().spawn(piece, s).unwrap();
}

#[test]
fn new_game_white_to_move() {
    let game = GameManager::new();
    assert_eq!(game.get_turn(), Color::White);
    assert_eq!(*game.get_state(), GameState::Playing { turn: Color::White });
}

#[test]
fn select_empty_square_fails() {
    let mut game = GameManager::new();
    assert_eq!(game.select_piece(Square::D4), Err(ChessError::NoPieceFound));
    assert_eq!(game.select_piece(Square::OffBoard), Err(ChessError::NoPieceFound));
}

#[test]
fn select_opponent_piece_fails() {
    let mut game = GameManager::new();
    place(&mut game, Piece::R(Rook::new(Color::Black)), Square::A8);
    assert_eq!(game.select_piece(Square::A8), Err(ChessError::NotYourTurn));
}

#[test]
fn select_marks_destinations() {
    let mut game = GameManager::new();
    place(&mut game, Piece::R(Rook::new(Color::White)), Square::A1);
    place(&mut game, Piece::P(Pawn::new(Color::White)), Square::A3);
    assert_eq!(game.select_piece(Square::A1), Ok(()));
    let board = game.get_board();
    assert_eq!(
        board.get_square(Square::A2),
        Some(SquareKind::Empty(MoveStatus::Capturable { by_color: Color::White, activated: true }))
    );
    assert_eq!(
        board.get_square(Square::H1),
        Some(SquareKind::Empty(MoveStatus::Capturable { by_color: Color::White, activated: true }))
    );
    assert_eq!(board.get_square(Square::A4), Some(SquareKind::Empty(MoveStatus::Unmarked)));
}

#[test]
fn move_outside_selection_is_refused_and_changes_nothing() {
    let mut game = GameManager::new();
    place(&mut game, Piece::R(Rook::new(Color::White)), Square::A1);
    place(&mut game, Piece::P(Pawn::new(Color::White)), Square::A3);
    game.select_piece(Square::A1).unwrap();
    let before = snapshot(game.get_board());
    assert_eq!(game.move_piece(Square::A1, Square::A4), Err(ChessError::InvalidMove));
    assert_eq!(game.move_piece(Square::A1, Square::B2), Err(ChessError::InvalidMove));
    assert_eq!(game.move_piece(Square::A3, Square::A4), Err(ChessError::InvalidMove));
    assert_eq!(snapshot(game.get_board()), before);
    assert_eq!(game.get_turn(), Color::White);
    assert_eq!(game.move_piece(Square::A1, Square::A2), Ok(()));
}

#[test]
fn threatened_square_does_not_authorize_a_move() {
    let mut game = GameManager::new();
    place(&mut game, Piece::P(Pawn::new(Color::White)), Square::C2);
    game.select_piece(Square::C2).unwrap();
    assert_eq!(game.move_piece(Square::C2, Square::D3), Err(ChessError::InvalidMove));
    assert_eq!(game.move_piece(Square::C2, Square::C4), Ok(()));
}

#[test]
fn move_without_selection_is_refused() {
    let mut game = GameManager::new();
    place(&mut game, Piece::R(Rook::new(Color::White)), Square::A1);
    assert_eq!(game.move_piece(Square::A1, Square::A2), Err(ChessError::InvalidMove));
}

#[test]
fn move_onto_same_square_deselects() {
    let mut game = GameManager::new();
    place(&mut game, Piece::R(Rook::new(Color::White)), Square::A1);
    game.select_piece(Square::A1).unwrap();
    assert_eq!(game.move_piece(Square::A1, Square::A1), Ok(()));
    assert!(all_unmarked(game.get_board()));
    assert_eq!(game.get_turn(), Color::White);
    assert_eq!(game.move_piece(Square::A1, Square::A2), Err(ChessError::InvalidMove));
}

#[test]
fn successful_move_passes_turn_and_clears_marks() {
    let mut game = GameManager::new();
    place(&mut game, Piece::R(Rook::new(Color::White)), Square::A1);
    place(&mut game, Piece::K(King::new(Color::Black)), Square::H8);
    game.select_piece(Square::A1).unwrap();
    assert!(!all_unmarked(game.get_board()));
    assert_eq!(game.move_piece(Square::A1, Square::A5), Ok(()));
    assert_eq!(game.get_turn(), Color::Black);
    assert_eq!(*game.get_state(), GameState::Playing { turn: Color::Black });
    assert!(all_unmarked(game.get_board()));
    assert!(game.get_board().is_empty(Square::A1));
    assert_eq!(game.select_piece(Square::A5), Err(ChessError::NotYourTurn));
}

#[test]
fn giving_check_puts_opponent_in_check() {
    let mut game = GameManager::new();
    place(&mut game, Piece::R(Rook::new(Color::White)), Square::A1);
    place(&mut game, Piece::K(King::new(Color::Black)), Square::H8);
    game.select_piece(Square::A1).unwrap();
    assert_eq!(game.move_piece(Square::A1, Square::A8), Ok(()));
    assert_eq!(*game.get_state(), GameState::InCheck { by_color: Color::Black });
    assert_eq!(game.get_turn(), Color::Black);
    assert!(game.get_board().is_king_checked(Color::Black));
}

#[test]
fn castling_kingside_moves_rook_and_king() {
    let mut game = GameManager::new();
    place(&mut game, Piece::K(King::new(Color::White)), Square::E1);
    place(&mut game, Piece::R(Rook::new(Color::White)), Square::H1);
    place(&mut game, Piece::K(King::new(Color::Black)), Square::A8);
    game.select_piece(Square::E1).unwrap();
    assert_eq!(game.move_piece(Square::E1, Square::G1), Ok(()));
    let board = game.get_board();
    assert!(board.is_empty(Square::E1));
    assert!(board.is_empty(Square::H1));
    match board.get_piece(Square::G1).unwrap() {
        Piece::K(k) => {
            assert_eq!(k.color, Color::White);
            assert!(k.is_once_moved);
            assert_eq!(k.get_coord(), Square::G1);
        },
        _ => panic!("king expected on G1"),
    }
    match board.get_piece(Square::F1).unwrap() {
        Piece::R(r) => assert_eq!(r.color, Color::White),
        _ => panic!("rook expected on F1"),
    }
    assert_eq!(game.get_turn(), Color::Black);
}

#[test]
fn castling_queenside_through_marker_lands_on_c_file() {
    let mut game = GameManager::new();
    place(&mut game, Piece::K(King::new(Color::White)), Square::E1);
    place(&mut game, Piece::R(Rook::new(Color::White)), Square::A1);
    game.select_piece(Square::E1).unwrap();
    assert_eq!(game.move_piece(Square::E1, Square::B1), Ok(()));
    let board = game.get_board();
    assert!(matches!(board.get_piece(Square::C1), Some(Piece::K(_))));
    assert!(matches!(board.get_piece(Square::D1), Some(Piece::R(_))));
    assert!(board.is_empty(Square::A1));
    assert!(board.is_empty(Square::B1));
    assert!(board.is_empty(Square::E1));
}

#[test]
fn king_that_moved_cannot_castle() {
    let mut game = GameManager::new();
    place(&mut game, Piece::K(King::new(Color::White)), Square::E1);
    place(&mut game, Piece::R(Rook::new(Color::White)), Square::H1);
    place(&mut game, Piece::K(King::new(Color::Black)), Square::A8);
    game.select_piece(Square::E1).unwrap();
    game.move_piece(Square::E1, Square::E2).unwrap();
    game.select_piece(Square::A8).unwrap();
    game.move_piece(Square::A8, Square::A7).unwrap();
    game.select_piece(Square::E2).unwrap();
    game.move_piece(Square::E2, Square::E1).unwrap();
    game.select_piece(Square::A7).unwrap();
    game.move_piece(Square::A7, Square::A8).unwrap();
    game.select_piece(Square::E1).unwrap();
    assert_eq!(game.move_piece(Square::E1, Square::G1), Err(ChessError::InvalidMove));
}

#[test]
fn en_passant_removes_passed_pawn() {
    let mut game = GameManager::new();
    place(&mut game, Piece::K(King::new(Color::White)), Square::A1);
    place(&mut game, Piece::K(King::new(Color::Black)), Square::H8);
    place(&mut game, Piece::P(Pawn::new(Color::White)), Square::E5);
    place(&mut game, Piece::P(Pawn::new(Color::Black)), Square::D7);
    *game.get_state_mut() = GameState::Playing { turn: Color::Black };
    game.select_piece(Square::D7).unwrap();
    assert_eq!(game.move_piece(Square::D7, Square::D5), Ok(()));
    assert_eq!(game.get_board().get_double_step(), Square::D5);
    game.select_piece(Square::E5).unwrap();
    assert_eq!(game.move_piece(Square::E5, Square::D6), Ok(()));
    let board = game.get_board();
    assert!(board.is_empty(Square::D5));
    assert!(board.is_empty(Square::E5));
    assert_eq!(board.get_piece(Square::D6).unwrap().get_color(), Color::White);
    assert_eq!(game.get_turn(), Color::Black);
}

#[test]
fn en_passant_only_right_after_the_double_step() {
    let mut game = GameManager::new();
    place(&mut game, Piece::K(King::new(Color::White)), Square::A1);
    place(&mut game, Piece::K(King::new(Color::Black)), Square::H8);
    place(&mut game, Piece::P(Pawn::new(Color::White)), Square::E5);
    place(&mut game, Piece::P(Pawn::new(Color::Black)), Square::D5);
    game.select_piece(Square::E5).unwrap();
    assert_eq!(game.move_piece(Square::E5, Square::D6), Err(ChessError::InvalidMove));
}

#[test]
fn promotion_to_queen() {
    let mut game = GameManager::new();
    place(&mut game, Piece::K(King::new(Color::White)), Square::E1);
    place(&mut game, Piece::K(King::new(Color::Black)), Square::H5);
    place(&mut game, Piece::P(Pawn::new(Color::White)), Square::A7);
    game.select_piece(Square::A7).unwrap();
    assert_eq!(game.move_piece(Square::A7, Square::A8), Ok(()));
    assert_eq!(
        *game.get_state(),
        GameState::Promoting { pawn: Pawn { color: Color::White, coord: Square::A8 } }
    );
    assert_eq!(game.select_piece(Square::E1), Err(ChessError::NotYourTurn));
    let q = game.resolve_promotion(PromotionKind::Queen);
    assert_eq!(q, Some(Piece::Q(Queen { color: Color::White, coord: Square::A8 })));
    assert_eq!(
        game.get_board().get_piece(Square::A8),
        Some(&Piece::Q(Queen { color: Color::White, coord: Square::A8 }))
    );
    assert_eq!(game.get_turn(), Color::Black);
    assert_eq!(game.resolve_promotion(PromotionKind::Rook), None);
}

#[test]
fn promotion_giving_check() {
    let mut game = GameManager::new();
    place(&mut game, Piece::K(King::new(Color::White)), Square::E1);
    place(&mut game, Piece::K(King::new(Color::Black)), Square::H8);
    place(&mut game, Piece::P(Pawn::new(Color::White)), Square::B7);
    game.select_piece(Square::B7).unwrap();
    game.move_piece(Square::B7, Square::B8).unwrap();
    game.resolve_promotion(PromotionKind::Rook).unwrap();
    assert_eq!(*game.get_state(), GameState::InCheck { by_color: Color::Black });
}

#[test]
fn black_pawn_promotes_on_first_rank() {
    let mut game = GameManager::new();
    place(&mut game, Piece::K(King::new(Color::White)), Square::H8);
    place(&mut game, Piece::K(King::new(Color::Black)), Square::A8);
    place(&mut game, Piece::P(Pawn::new(Color::Black)), Square::C2);
    *game.get_state_mut() = GameState::Playing { turn: Color::Black };
    game.select_piece(Square::C2).unwrap();
    game.move_piece(Square::C2, Square::C1).unwrap();
    assert_eq!(game.get_turn(), Color::Black);
    let n = game.resolve_promotion(PromotionKind::Knight).unwrap();
    assert_eq!(n.get_color(), Color::Black);
    assert_eq!(game.get_turn(), Color::White);
}

#[test]
fn king_next_to_rook_file_scenario() {
    let mut game = GameManager::new();
    place(&mut game, Piece::K(King::new(Color::White)), Square::E1);
    place(&mut game, Piece::R(Rook::new(Color::Black)), Square::E8);
    assert!(game.get_board().is_king_checked(Color::White));
    game.select_piece(Square::E1).unwrap();
    assert_eq!(game.move_piece(Square::E1, Square::E2), Err(ChessError::InvalidMove));
    assert_eq!(game.move_piece(Square::E1, Square::D2), Ok(()));
}

#[test]
fn pinned_piece_cannot_leave_the_line() {
    let mut game = GameManager::new();
    place(&mut game, Piece::K(King::new(Color::White)), Square::E1);
    place(&mut game, Piece::R(Rook::new(Color::White)), Square::E2);
    place(&mut game, Piece::R(Rook::new(Color::Black)), Square::E8);
    game.select_piece(Square::E2).unwrap();
    let before = snapshot(game.get_board());
    assert_eq!(game.move_piece(Square::E2, Square::D2), Err(ChessError::InvalidMove));
    assert_eq!(snapshot(game.get_board()), before);
    assert_eq!(*game.get_state(), GameState::Playing { turn: Color::White });
    assert_eq!(game.move_piece(Square::E2, Square::E5), Ok(()));
    assert_eq!(game.get_turn(), Color::Black);
}

#[test]
fn side_in_check_must_answer_it() {
    let mut game = GameManager::new();
    place(&mut game, Piece::K(King::new(Color::White)), Square::E1);
    place(&mut game, Piece::R(Rook::new(Color::White)), Square::A2);
    place(&mut game, Piece::R(Rook::new(Color::Black)), Square::E8);
    *game.get_state_mut() = GameState::InCheck { by_color: Color::White };
    game.select_piece(Square::A2).unwrap();
    assert_eq!(game.move_piece(Square::A2, Square::A3), Err(ChessError::InvalidMove));
    assert_eq!(*game.get_state(), GameState::InCheck { by_color: Color::White });
    assert!(game.get_board().is_king_checked(Color::White));
    assert_eq!(game.move_piece(Square::A2, Square::E2), Ok(()));
    assert_eq!(*game.get_state(), GameState::Playing { turn: Color::Black });
    assert!(!game.get_board().is_king_checked(Color::White));
}
