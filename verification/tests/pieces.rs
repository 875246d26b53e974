use chess_rules::pieces::piece::contains_square;
use chess_rules::pieces::{Piece, PieceColor, PieceType};

fn piece(piece_type: PieceType, color: PieceColor) -> Piece {
    Piece { piece_type, color }
}

fn sorted(mut squares: Vec<(i32, i32)>) -> Vec<(i32, i32)> {
    squares.sort();
    squares
}

fn assert_on_board_and_distinct(squares: &[(i32, i32)], origin: (i32, i32)) {
    for (i, sq) in squares.iter().enumerate() {
        assert!(0 <= sq.0 && sq.0 < 8 && 0 <= sq.1 && sq.1 < 8, "{:?} is off the board", sq);
        assert_ne!(*sq, origin);
        assert!(!squares[..i].contains(sq), "{:?} is listed twice", sq);
    }
}

#[test]
fn white_pawn_on_its_starting_row_has_four_raw_moves() {
    let moves = piece(PieceType::Pawn, PieceColor::White).get_raw_moves((6, 4));
    assert_eq!(moves, vec![(5, 4), (4, 4), (5, 3), (5, 5)]);
}

#[test]
fn black_pawn_on_its_starting_row_has_four_raw_moves() {
    let moves = piece(PieceType::Pawn, PieceColor::Black).get_raw_moves((1, 3));
    assert_eq!(moves, vec![(2, 3), (3, 3), (2, 2), (2, 4)]);
}

#[test]
fn pawn_off_its_starting_row_has_no_double_step() {
    let white = piece(PieceType::Pawn, PieceColor::White).get_raw_moves((5, 4));
    assert_eq!(white, vec![(4, 4), (4, 3), (4, 5)]);
    let black = piece(PieceType::Pawn, PieceColor::Black).get_raw_moves((6, 0));
    assert_eq!(black, vec![(7, 0), (7, 1)]);
    // A white pawn on Black's starting row moves one row only.
    let far = piece(PieceType::Pawn, PieceColor::White).get_raw_moves((1, 7));
    assert_eq!(far, vec![(0, 7), (0, 6)]);
}

#[test]
fn pawn_on_the_last_row_has_no_raw_moves() {
    assert!(piece(PieceType::Pawn, PieceColor::White).get_raw_moves((0, 4)).is_empty());
    assert!(piece(PieceType::Pawn, PieceColor::Black).get_raw_moves((7, 4)).is_empty());
}

#[test]
fn knight_in_the_middle_has_eight_raw_moves() {
    let moves = piece(PieceType::Knight, PieceColor::White).get_raw_moves((4, 4));
    assert_eq!(
        moves,
        vec![(2, 3), (2, 5), (3, 2), (3, 6), (5, 2), (5, 6), (6, 3), (6, 5)]
    );
}

#[test]
fn knight_in_the_corner_has_two_raw_moves() {
    let moves = piece(PieceType::Knight, PieceColor::Black).get_raw_moves((0, 0));
    assert_eq!(moves, vec![(1, 2), (2, 1)]);
    let moves = piece(PieceType::Knight, PieceColor::Black).get_raw_moves((7, 7));
    assert_eq!(moves, vec![(5, 6), (6, 5)]);
}

#[test]
fn king_raw_moves_are_the_neighbours() {
    let moves = piece(PieceType::King, PieceColor::White).get_raw_moves((4, 4));
    assert_eq!(
        moves,
        vec![(3, 3), (3, 4), (3, 5), (4, 3), (4, 5), (5, 3), (5, 4), (5, 5)]
    );
    let corner = piece(PieceType::King, PieceColor::White).get_raw_moves((7, 0));
    assert_eq!(corner, vec![(6, 0), (6, 1), (7, 1)]);
    // Castling is no part of the king's geometry.
    let home = piece(PieceType::King, PieceColor::White).get_raw_moves((7, 4));
    assert!(!home.contains(&(7, 6)));
    assert!(!home.contains(&(7, 2)));
}

#[test]
fn rook_raw_moves_cover_its_row_and_column() {
    let moves = piece(PieceType::Rook, PieceColor::White).get_raw_moves((3, 2));
    assert_eq!(moves.len(), 14);
    let mut expected = Vec::new();
    for i in 0..8 {
        if i != 3 {
            expected.push((i, 2));
        }
        if i != 2 {
            expected.push((3, i));
        }
    }
    assert_eq!(sorted(moves), sorted(expected));
}

#[test]
fn bishop_raw_moves_cover_its_diagonals() {
    let moves = piece(PieceType::Bishop, PieceColor::Black).get_raw_moves((2, 5));
    let expected = vec![
        (0, 3),
        (1, 4),
        (3, 6),
        (4, 7),
        (0, 7),
        (1, 6),
        (3, 4),
        (4, 3),
        (5, 2),
        (6, 1),
        (7, 0),
    ];
    assert_eq!(sorted(moves), sorted(expected));
    let corner = piece(PieceType::Bishop, PieceColor::Black).get_raw_moves((0, 0));
    assert_eq!(corner, vec![(1, 1), (2, 2), (3, 3), (4, 4), (5, 5), (6, 6), (7, 7)]);
}

#[test]
fn queen_raw_moves_are_those_of_rook_and_bishop() {
    for row in 0..8 {
        for col in 0..8 {
            let queen = piece(PieceType::Queen, PieceColor::White).get_raw_moves((row, col));
            let mut both = piece(PieceType::Rook, PieceColor::White).get_raw_moves((row, col));
            both.extend(piece(PieceType::Bishop, PieceColor::White).get_raw_moves((row, col)));
            assert_eq!(sorted(queen), sorted(both));
        }
    }
    let middle = piece(PieceType::Queen, PieceColor::White).get_raw_moves((4, 4));
    assert_eq!(middle.len(), 27);
}

#[test]
fn raw_moves_stay_on_the_board_and_leave_the_origin_out() {
    let kinds = [
        PieceType::King,
        PieceType::Queen,
        PieceType::Rook,
        PieceType::Bishop,
        PieceType::Knight,
        PieceType::Pawn,
    ];
    for kind in kinds {
        for color in [PieceColor::White, PieceColor::Black] {
            for row in 0..8 {
                for col in 0..8 {
                    let moves = piece(kind, color).get_raw_moves((row, col));
                    assert_on_board_and_distinct(&moves, (row, col));
                }
            }
        }
    }
}

#[test]
fn raw_moves_from_off_the_board_are_clipped_too() {
    let rook = piece(PieceType::Rook, PieceColor::White).get_raw_moves((-3, 2));
    assert_eq!(rook, vec![(0, 2), (1, 2), (2, 2), (3, 2), (4, 2)]);
    let knight = piece(PieceType::Knight, PieceColor::White).get_raw_moves((-1, 0));
    assert_eq!(knight, vec![(0, 2), (1, 1)]);
    let far = piece(PieceType::Queen, PieceColor::White).get_raw_moves((i32::MAX, i32::MIN));
    assert!(far.is_empty());
    let far = piece(PieceType::King, PieceColor::Black).get_raw_moves((i32::MIN, i32::MAX));
    assert!(far.is_empty());
}

#[test]
fn contains_square_finds_listed_squares_only() {
    let squares = vec![(1, 2), (3, 4)];
    assert!(contains_square(&squares, (1, 2)));
    assert!(contains_square(&squares, (3, 4)));
    assert!(!contains_square(&squares, (2, 1)));
    assert!(!contains_square(&Vec::new(), (0, 0)));
}

#[test]
fn opponent_is_the_other_side() {
    assert_eq!(PieceColor::White.opponent(), PieceColor::Black);
    assert_eq!(PieceColor::Black.opponent(), PieceColor::White);
}
