use chess::board::Board;
use chess::error::ChessError;
use chess::pieces::{Color, King, MoveStatus, Pawn, Piece, Rook};
use chess::square::{Square, SquareKind};

fn rook(color: Color) -> Piece {
    Piece::R(Rook::new(color))
}

#[test]
fn new_board_is_empty() {
    let board = Board::new();
    for i in 0..64u8 {
        let s = Square::from_index(i);
        assert!(board.is_empty(s));
        assert_eq!(board.get_square(s), Some(SquareKind::Empty(MoveStatus::Unmarked)));
    }
    assert!(board.get_capture_board().is_empty());
    assert_eq!(board.get_square(Square::OffBoard), None);
}

#[test]
fn spawn_places_piece_with_its_square() {
    let mut board = Board::new();
    assert_eq!(board.spawn(rook(Color::White), Square::D4), Ok(()));
    assert!(!board.is_empty(Square::D4));
    let p = board.get_piece(Square::D4).unwrap();
    assert_eq!(p.get_color(), Color::White);
    assert_eq!(p.get_coord(), Square::D4);
}

#[test]
fn spawn_on_occupied_square_fails() {
    let mut board = Board::new();
    board.spawn(rook(Color::White), Square::D4).unwrap();
    assert_eq!(board.spawn(rook(Color::Black), Square::D4), Err(ChessError::OccupiedSquare));
    assert_eq!(board.get_piece(Square::D4).unwrap().get_color(), Color::White);
}

#[test]
fn spawn_off_the_board_fails() {
    let mut board = Board::new();
    assert_eq!(board.spawn(rook(Color::White), Square::OffBoard), Err(ChessError::OutOfBounds));
}

#[test]
fn sentinel_queries_fail_gracefully() {
    let board = Board::new();
    assert!(board.get_piece(Square::OffBoard).is_none());
    assert!(board.is_empty(Square::OffBoard));
    assert!(!board.is_under_attack(Square::OffBoard, Color::White));
}

#[test]
fn move_piece_relocates_and_captures() {
    let mut board = Board::new();
    board.spawn(rook(Color::White), Square::A1).unwrap();
    board.spawn(rook(Color::Black), Square::A5).unwrap();
    assert_eq!(board.move_piece(Square::A1, Square::A5), Ok(()));
    assert!(board.is_empty(Square::A1));
    let p = board.get_piece(Square::A5).unwrap();
    assert_eq!(p.get_color(), Color::White);
    assert_eq!(p.get_coord(), Square::A5);
}

#[test]
fn move_piece_from_empty_square_fails() {
    let mut board = Board::new();
    assert_eq!(board.move_piece(Square::A1, Square::A2), Err(ChessError::EmptySource));
    assert_eq!(board.move_piece(Square::OffBoard, Square::A2), Err(ChessError::EmptySource));
}

#[test]
fn move_piece_off_the_board_fails() {
    let mut board = Board::new();
    board.spawn(rook(Color::White), Square::A1).unwrap();
    assert_eq!(board.move_piece(Square::A1, Square::OffBoard), Err(ChessError::OutOfBounds));
    assert!(!board.is_empty(Square::A1));
}

#[test]
fn move_piece_keeps_the_mark_of_the_origin() {
    let mut board = Board::new();
    board.spawn(rook(Color::White), Square::A1).unwrap();
    let m = MoveStatus::Movable { by_color: Color::White, activated: true };
    board.mark_moves(m, Square::A1);
    board.move_piece(Square::A1, Square::A3).unwrap();
    assert_eq!(board.get_square(Square::A1), Some(SquareKind::Empty(m)));
    match board.get_square(Square::A3) {
        Some(SquareKind::Occupied(_, status)) => assert_eq!(status, m),
        other => panic!("unexpected cell {:?}", other),
    }
}

#[test]
fn mark_and_clear_marks() {
    let mut board = Board::new();
    board.spawn(rook(Color::White), Square::B2).unwrap();
    let m = MoveStatus::Capturable { by_color: Color::Black, activated: true };
    board.mark_moves(m, Square::B2);
    board.mark_moves(m, Square::C3);
    board.mark_moves(m, Square::OffBoard);
    assert_eq!(board.get_square(Square::C3), Some(SquareKind::Empty(m)));
    board.clear_marks();
    for i in 0..64u8 {
        match board.get_square(Square::from_index(i)).unwrap() {
            SquareKind::Empty(s) => assert_eq!(s, MoveStatus::Unmarked),
            SquareKind::Occupied(_, s) => assert_eq!(s, MoveStatus::Unmarked),
        }
    }
    assert!(!board.is_empty(Square::B2));
}

#[test]
fn despawn_takes_piece_off() {
    let mut board = Board::new();
    board.spawn(Piece::P(Pawn::new(Color::Black)), Square::C7).unwrap();
    let p = board.despawn(Square::C7).unwrap();
    assert_eq!(p, Piece::P(Pawn { color: Color::Black, coord: Square::C7 }));
    assert!(board.is_empty(Square::C7));
    assert_eq!(board.despawn(Square::C7), Err(ChessError::EmptySource));
}

#[test]
fn capture_board_records_attacks_by_color() {
    let mut board = Board::new();
    board.spawn(rook(Color::Black), Square::A8).unwrap();
    assert!(board.is_under_attack(Square::A1, Color::Black));
    assert!(board.is_under_attack(Square::H8, Color::Black));
    assert!(!board.is_under_attack(Square::A1, Color::White));
    assert!(!board.is_under_attack(Square::B7, Color::Black));
    assert_eq!(board.get_capture_board().len(), 14);
}

#[test]
fn capture_board_follows_blocking_after_update() {
    let mut board = Board::new();
    board.spawn(rook(Color::Black), Square::A8).unwrap();
    board.spawn(rook(Color::Black), Square::A4).unwrap();
    // the second rook blocks the first one's file
    assert!(board.is_under_attack(Square::A5, Color::Black));
    assert!(board.is_under_attack(Square::A1, Color::Black));
    board.despawn(Square::A4).unwrap();
    board.update_capture_board();
    assert!(board.is_under_attack(Square::A1, Color::Black));
    assert!(!board.is_under_attack(Square::H4, Color::Black));
}

#[test]
fn pawn_threat_counts_as_attack() {
    let mut board = Board::new();
    board.spawn(Piece::P(Pawn::new(Color::White)), Square::D4).unwrap();
    assert!(board.is_under_attack(Square::C5, Color::White));
    assert!(board.is_under_attack(Square::E5, Color::White));
    assert!(!board.is_under_attack(Square::D5, Color::White));
}

#[test]
fn king_check_is_derived_from_attacks() {
    let mut board = Board::new();
    board.spawn(Piece::K(King::new(Color::White)), Square::E1).unwrap();
    assert!(!board.is_king_checked(Color::White));
    board.spawn(rook(Color::Black), Square::E8).unwrap();
    assert!(board.is_king_checked(Color::White));
    assert!(!board.is_king_checked(Color::Black));
    match board.get_piece(Square::E1).unwrap() {
        Piece::K(k) => assert!(k.is_checked()),
        _ => panic!("king expected"),
    }
}

#[test]
fn put_piece_replaces_occupant() {
    let mut board = Board::new();
    board.spawn(rook(Color::White), Square::F3).unwrap();
    board.put_piece(rook(Color::Black), Square::F3);
    assert_eq!(board.get_piece(Square::F3).unwrap().get_color(), Color::Black);
}

#[test]
fn get_piece_mut_changes_the_piece_in_place() {
    let mut board = Board::new();
    board.spawn(Piece::K(King::new(Color::White)), Square::E1).unwrap();
    if let Some(Piece::K(k)) = board.get_piece_mut(Square::E1) {
        k.set_once_moved();
    }
    match board.get_piece(Square::E1).unwrap() {
        Piece::K(k) => assert!(k.is_once_moved),
        _ => panic!("king expected"),
    }
    assert!(board.get_piece_mut(Square::E2).is_none());
    assert!(board.get_piece_mut(Square::OffBoard).is_none());
}
