use chess::board::Board;
use chess::pieces::{Bishop, Color, King, Knight, MoveStatus, Pawn, Piece, Queen, Rook};
use chess::square::Square;

fn cap(c: Color) -> MoveStatus {
    MoveStatus::Capturable { by_color: c, activated: false }
}

fn squares(moves: &[(Square, MoveStatus)]) -> Vec<Square> {
    moves.iter().map(|m| m.0).collect()
}

fn standard_board() -> Board {
    let mut board = Board::new();
    let back = |c: Color, i: usize| -> Piece {
        match i {
            0 | 7 => Piece::R(Rook::new(c)),
            1 | 6 => Piece::N(Knight::new(c)),
            2 | 5 => Piece::B(Bishop::new(c)),
            3 => Piece::Q(Queen::new(c)),
            _ => Piece::K(King::new(c)),
        }
    };
    for f in 0..8i32 {
        board.spawn(back(Color::White, f as usize), Square::from_position((f, 0)).unwrap()).unwrap();
        board.spawn(Piece::P(Pawn::new(Color::White)), Square::from_position((f, 1)).unwrap()).unwrap();
        board.spawn(Piece::P(Pawn::new(Color::Black)), Square::from_position((f, 6)).unwrap()).unwrap();
        board.spawn(back(Color::Black, f as usize), Square::from_position((f, 7)).unwrap()).unwrap();
    }
    board
}

#[test]
fn generated_destinations_stay_on_board() {
    let board = standard_board();
    for i in 0..64u8 {
        let s = Square::from_index(i);
        if let Some(p) = board.get_piece(s) {
            for (d, _) in p.get_valid_moves(&board, s) {
                assert_ne!(d, Square::OffBoard);
                let (f, r) = d.into_position();
                assert!((0..8).contains(&f) && (0..8).contains(&r));
            }
        }
    }
    let board = Board::new();
    for i in 0..64u8 {
        let s = Square::from_index(i);
        for p in [
            Piece::Q(Queen::new(Color::White)),
            Piece::N(Knight::new(Color::Black)),
            Piece::K(King::new(Color::White)),
            Piece::P(Pawn::new(Color::Black)),
        ] {
            for (d, _) in p.get_valid_moves(&board, s) {
                assert_ne!(d, Square::OffBoard);
            }
        }
    }
}

#[test]
fn off_board_origin_generates_nothing() {
    let board = Board::new();
    let q = Piece::Q(Queen::new(Color::White));
    assert!(q.get_valid_moves(&board, Square::OffBoard).is_empty());
}

#[test]
fn opening_position_moves() {
    let board = standard_board();
    let knight = board.get_piece(Square::B1).unwrap();
    assert_eq!(squares(&knight.get_valid_moves(&board, Square::B1)), vec![Square::C3, Square::A3]);
    let rook = board.get_piece(Square::A1).unwrap();
    assert!(rook.get_valid_moves(&board, Square::A1).is_empty());
    let pawn = board.get_piece(Square::E2).unwrap();
    let moves = pawn.get_valid_moves(&board, Square::E2);
    assert_eq!(moves[0], (Square::E3, MoveStatus::Movable { by_color: Color::White, activated: false }));
    assert_eq!(moves[1], (Square::E4, MoveStatus::Movable { by_color: Color::White, activated: false }));
    assert_eq!(moves[2], (Square::D3, MoveStatus::Threaten { by_color: Color::White, activated: false }));
    assert_eq!(moves[3], (Square::F3, MoveStatus::Threaten { by_color: Color::White, activated: false }));
    assert_eq!(moves.len(), 4);
}

#[test]
fn knight_in_corner_and_friendly_block() {
    let mut board = Board::new();
    board.spawn(Piece::N(Knight::new(Color::White)), Square::A1).unwrap();
    board.spawn(Piece::P(Pawn::new(Color::White)), Square::B3).unwrap();
    board.spawn(Piece::P(Pawn::new(Color::Black)), Square::C2).unwrap();
    let n = Knight::new(Color::White);
    let moves = n.get_valid_moves(&board, Square::A1);
    assert_eq!(moves, vec![(Square::C2, cap(Color::White))]);
}

#[test]
fn queen_on_empty_board_reaches_27_squares() {
    let board = Board::new();
    let q = Queen::new(Color::Black);
    let moves = q.get_valid_moves(&board, Square::D4);
    assert_eq!(moves.len(), 27);
    assert!(moves.iter().all(|m| m.1 == cap(Color::Black)));
    let b = Bishop::new(Color::Black);
    assert_eq!(b.get_valid_moves(&board, Square::D4).len(), 13);
    let r = Rook::new(Color::Black);
    assert_eq!(r.get_valid_moves(&board, Square::D4).len(), 14);
}

#[test]
fn rook_ray_stops_at_first_piece() {
    let mut board = Board::new();
    board.spawn(Piece::R(Rook::new(Color::White)), Square::A1).unwrap();
    board.spawn(Piece::N(Knight::new(Color::Black)), Square::A3).unwrap();
    board.spawn(Piece::P(Pawn::new(Color::White)), Square::C1).unwrap();
    let r = Rook::new(Color::White);
    let moves = r.get_valid_moves(&board, Square::A1);
    assert_eq!(moves, vec![(Square::B1, cap(Color::White)), (Square::A2, cap(Color::White)), (Square::A3, cap(Color::White))]);
}

#[test]
fn ray_sees_one_square_past_enemy_king() {
    let mut board = Board::new();
    board.spawn(Piece::R(Rook::new(Color::White)), Square::A1).unwrap();
    board.spawn(Piece::K(King::new(Color::Black)), Square::A4).unwrap();
    board.spawn(Piece::K(King::new(Color::White)), Square::B1).unwrap();
    let r = Rook::new(Color::White);
    let moves = r.get_valid_moves(&board, Square::A1);
    assert_eq!(
        moves,
        vec![
            (Square::A2, cap(Color::White)),
            (Square::A3, cap(Color::White)),
            (Square::A4, cap(Color::White)),
            (Square::A5, MoveStatus::Pierced { by_color: Color::White, activated: false }),
        ]
    );
}

#[test]
fn bishop_diagonal_order() {
    let mut board = Board::new();
    board.spawn(Piece::P(Pawn::new(Color::White)), Square::B3).unwrap();
    board.spawn(Piece::P(Pawn::new(Color::Black)), Square::D3).unwrap();
    board.spawn(Piece::P(Pawn::new(Color::White)), Square::B1).unwrap();
    board.spawn(Piece::P(Pawn::new(Color::White)), Square::D1).unwrap();
    let b = Bishop::new(Color::White);
    assert_eq!(b.get_valid_moves(&board, Square::C2), vec![(Square::D3, cap(Color::White))]);
}

#[test]
fn pawn_captures_and_threats() {
    let mut board = Board::new();
    board.spawn(Piece::P(Pawn::new(Color::Black)), Square::D5).unwrap();
    board.spawn(Piece::P(Pawn::new(Color::White)), Square::D4).unwrap();
    board.spawn(Piece::N(Knight::new(Color::White)), Square::C4).unwrap();
    let p = Pawn::new(Color::Black);
    let moves = p.get_valid_moves(&board, Square::D5);
    assert_eq!(
        moves,
        vec![
            (Square::C4, cap(Color::Black)),
            (Square::E4, MoveStatus::Threaten { by_color: Color::Black, activated: false }),
        ]
    );
    assert_eq!(p.get_attacks(&board, Square::D5), moves);
}

#[test]
fn pawn_double_step_needs_both_squares_empty() {
    let mut board = Board::new();
    board.spawn(Piece::P(Pawn::new(Color::Black)), Square::G5).unwrap();
    let p = Pawn::new(Color::Black);
    let moves = p.get_valid_moves(&board, Square::G7);
    assert_eq!(squares(&moves), vec![Square::G6, Square::F6, Square::H6]);
    let w = Pawn::new(Color::White);
    let moves = w.get_valid_moves(&board, Square::G3);
    assert_eq!(squares(&moves), vec![Square::G4, Square::F4, Square::H4]);
}

#[test]
fn pawn_on_last_rank_has_no_moves() {
    let board = Board::new();
    let p = Pawn::new(Color::White);
    assert!(p.get_valid_moves(&board, Square::C8).is_empty());
}

#[test]
fn king_steps_avoid_attacked_squares() {
    let mut board = Board::new();
    board.spawn(Piece::K(King::new(Color::White)), Square::E1).unwrap();
    board.spawn(Piece::R(Rook::new(Color::Black)), Square::E8).unwrap();
    let king = board.get_piece(Square::E1).unwrap();
    let moves = king.get_valid_moves(&board, Square::E1);
    let dests = squares(&moves);
    assert_eq!(dests, vec![Square::D1, Square::D2, Square::F1, Square::F2]);
    assert!(dests.iter().all(|s| s.get_file() != 4));
    assert!(board.is_king_checked(Color::White));
}

#[test]
fn king_cannot_retreat_along_the_checking_line() {
    let mut board = Board::new();
    board.spawn(Piece::K(King::new(Color::White)), Square::E4).unwrap();
    board.spawn(Piece::R(Rook::new(Color::Black)), Square::E8).unwrap();
    let king = board.get_piece(Square::E4).unwrap();
    let dests = squares(&king.get_valid_moves(&board, Square::E4));
    assert!(!dests.contains(&Square::E3));
    assert!(!dests.contains(&Square::E5));
    assert!(dests.contains(&Square::D3));
}

#[test]
fn king_castling_destinations() {
    let mut board = Board::new();
    board.spawn(Piece::K(King::new(Color::White)), Square::E1).unwrap();
    board.spawn(Piece::R(Rook::new(Color::White)), Square::H1).unwrap();
    board.spawn(Piece::R(Rook::new(Color::White)), Square::A1).unwrap();
    let king = board.get_piece(Square::E1).unwrap();
    let moves = king.get_valid_moves(&board, Square::E1);
    let castles: Vec<Square> = moves
        .iter()
        .filter(|m| matches!(m.1, MoveStatus::Castling { .. }))
        .map(|m| m.0)
        .collect();
    assert_eq!(castles, vec![Square::G1, Square::C1, Square::B1]);
}

#[test]
fn castling_refused_through_attacked_square() {
    let mut board = Board::new();
    board.spawn(Piece::K(King::new(Color::White)), Square::E1).unwrap();
    board.spawn(Piece::R(Rook::new(Color::White)), Square::H1).unwrap();
    board.spawn(Piece::R(Rook::new(Color::Black)), Square::F8).unwrap();
    let king = board.get_piece(Square::E1).unwrap();
    let moves = king.get_valid_moves(&board, Square::E1);
    assert!(moves.iter().all(|m| !matches!(m.1, MoveStatus::Castling { .. })));
}

#[test]
fn castling_refused_after_king_moved() {
    let mut board = Board::new();
    let mut k = King::new(Color::Black);
    k.set_once_moved();
    board.spawn(Piece::K(k), Square::E8).unwrap();
    board.spawn(Piece::R(Rook::new(Color::Black)), Square::H8).unwrap();
    let king = board.get_piece(Square::E8).unwrap();
    let moves = king.get_valid_moves(&board, Square::E8);
    assert!(moves.iter().all(|m| !matches!(m.1, MoveStatus::Castling { .. })));
}

#[test]
fn king_guards_all_neighbours() {
    let k = King::new(Color::White);
    assert_eq!(k.get_attacks(Square::A1).len(), 3);
    assert_eq!(k.get_attacks(Square::D4).len(), 8);
}

#[test]
fn pawn_move_to_relocates() {
    let mut board = Board::new();
    board.spawn(Piece::P(Pawn::new(Color::White)), Square::B2).unwrap();
    let mut p = Pawn { color: Color::White, coord: Square::B2 };
    assert_eq!(p.move_to(&mut board, Square::B4), Ok(()));
    assert_eq!(p.get_coord(), Square::B4);
    assert!(board.is_empty(Square::B2));
    assert!(!board.is_empty(Square::B4));
}

#[test]
fn king_move_to_castles_queenside_through_marker() {
    let mut board = Board::new();
    board.spawn(Piece::K(King::new(Color::Black)), Square::E8).unwrap();
    board.spawn(Piece::R(Rook::new(Color::Black)), Square::A8).unwrap();
    let mut k = King { color: Color::Black, coord: Square::E8, is_checked: false, is_once_moved: false };
    assert_eq!(k.move_to(&mut board, Square::B8), Ok(()));
    assert_eq!(k.get_coord(), Square::C8);
    assert!(board.is_empty(Square::A8));
    assert!(board.is_empty(Square::E8));
    assert!(board.is_empty(Square::B8));
    assert_eq!(board.get_piece(Square::D8).unwrap().get_coord(), Square::D8);
    match board.get_piece(Square::C8).unwrap() {
        Piece::K(king) => assert!(king.is_once_moved),
        _ => panic!("king expected"),
    }
}

#[test]
fn piece_move_to_from_empty_square_fails() {
    let mut board = Board::new();
    let mut r = Piece::R(Rook { color: Color::White, coord: Square::A1 });
    assert_eq!(r.move_to(&mut board, Square::A2), Err(chess::error::ChessError::EmptySource));
    assert_eq!(r.get_coord(), Square::A1);
}

#[test]
fn promotion_conversions_keep_color_and_square() {
    let p = Pawn { color: Color::Black, coord: Square::D1 };
    assert_eq!(p.try_into_queen(), Some(Queen { color: Color::Black, coord: Square::D1 }));
    assert_eq!(p.try_into_rook(), Some(Rook { color: Color::Black, coord: Square::D1 }));
    assert_eq!(p.try_into_bishop(), Some(Bishop { color: Color::Black, coord: Square::D1 }));
    assert_eq!(p.try_into_knight(), Some(Knight { color: Color::Black, coord: Square::D1 }));
}

#[test]
fn color_opposite_is_involution() {
    assert_eq!(Color::White.opposite(), Color::Black);
    assert_eq!(Color::Black.opposite().opposite(), Color::Black);
}

#[test]
fn pawn_move_to_captures_en_passant_without_marks() {
    let mut board = Board::new();
    board.spawn(Piece::P(Pawn::new(Color::White)), Square::E5).unwrap();
    board.spawn(Piece::P(Pawn::new(Color::Black)), Square::D5).unwrap();
    board.set_double_step(Square::D5);
    let mut p = Pawn { color: Color::White, coord: Square::E5 };
    let moves = p.get_valid_moves(&board, Square::E5);
    assert!(moves.contains(&(Square::D6, MoveStatus::EnPassant { by_color: Color::White, activated: false })));
    assert_eq!(p.move_to(&mut board, Square::D6), Ok(()));
    assert!(board.is_empty(Square::D5));
    assert!(board.is_empty(Square::E5));
    assert_eq!(board.get_piece(Square::D6).unwrap().get_coord(), Square::D6);
}

#[test]
fn pawn_move_to_without_double_step_keeps_neighbour() {
    let mut board = Board::new();
    board.spawn(Piece::P(Pawn::new(Color::White)), Square::E5).unwrap();
    board.spawn(Piece::P(Pawn::new(Color::Black)), Square::D5).unwrap();
    let mut p = Pawn { color: Color::White, coord: Square::E5 };
    assert_eq!(p.move_to(&mut board, Square::D6), Ok(()));
    assert!(!board.is_empty(Square::D5));
}

#[test]
fn king_flagged_in_check_is_offered_no_castling() {
    let mut board = Board::new();
    board.spawn(Piece::K(King::new(Color::White)), Square::E1).unwrap();
    board.spawn(Piece::R(Rook::new(Color::White)), Square::H1).unwrap();
    let mut k = King { color: Color::White, coord: Square::E1, is_checked: false, is_once_moved: false };
    assert!(k.get_valid_moves(&board, Square::E1).iter().any(|m| matches!(m.1, MoveStatus::Castling { .. })));
    k.set_checked(true);
    assert!(k.get_valid_moves(&board, Square::E1).iter().all(|m| !matches!(m.1, MoveStatus::Castling { .. })));
}
