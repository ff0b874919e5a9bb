use chess::error::ChessError;
use chess::moves::Position;
use chess::square::Square;

#[test]
fn from_position_maps_file_and_rank() {
    assert_eq!(Square::from_position((0, 0)), Ok(Square::A1));
    assert_eq!(Square::from_position((4, 3)), Ok(Square::E4));
    assert_eq!(Square::from_position((7, 7)), Ok(Square::H8));
}

#[test]
fn from_position_rejects_outside_board() {
    assert_eq!(Square::from_position((8, 0)), Err(ChessError::OutOfBounds));
    assert_eq!(Square::from_position((0, 8)), Err(ChessError::OutOfBounds));
    assert_eq!(Square::from_position((-1, 3)), Err(ChessError::OutOfBounds));
    assert_eq!(Square::from_position((3, -1)), Err(ChessError::OutOfBounds));
}

#[test]
fn from_str_reads_notation_in_either_case() {
    assert_eq!(Square::from_str("E4"), Some(Square::E4));
    assert_eq!(Square::from_str("e4"), Some(Square::E4));
    assert_eq!(Square::from_str("A1"), Some(Square::A1));
    assert_eq!(Square::from_str("h8"), Some(Square::H8));
}

#[test]
fn from_str_rejects_malformed_text() {
    assert_eq!(Square::from_str(""), None);
    assert_eq!(Square::from_str("E"), None);
    assert_eq!(Square::from_str("E44"), None);
    assert_eq!(Square::from_str("I1"), None);
    assert_eq!(Square::from_str("A9"), None);
    assert_eq!(Square::from_str("A0"), None);
    assert_eq!(Square::from_str("4E"), None);
}

#[test]
fn projections_of_squares() {
    assert_eq!(Square::E4.get_file(), 4);
    assert_eq!(Square::E4.get_rank(), 3);
    assert_eq!(Square::B7.into_position(), (1, 6));
    assert_eq!(Square::H8.into_position(), (7, 7));
    assert_eq!(Square::OffBoard.into_position(), (8, 0));
    assert_eq!(Square::from_index(12), Square::B5);
    assert_eq!(Square::from_index(64), Square::OffBoard);
    assert_eq!(Square::C3.to_index(), 18);
}

#[test]
fn position_parsing_and_arithmetic() {
    let p = Position::from_str("C6").unwrap();
    assert_eq!(p.get_file(), 2);
    assert_eq!(p.get_rank(), 2);
    assert_eq!(Position::from_str("C"), None);
    assert_eq!(Position::from_str("C66"), None);
    let a = Position::from_tuple((1, 2));
    let b = Position::from_tuple((3, -5));
    assert_eq!(a + b, Position::from_tuple((4, -3)));
    assert_eq!(a - b, Position::from_tuple((-2, 7)));
}

#[test]
fn error_messages() {
    assert_eq!(ChessError::InvalidMove.message(), "invalid move");
    assert_eq!(ChessError::OccupiedSquare.message(), "square is not empty");
}
