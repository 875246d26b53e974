use chess_rules::app::AppState;
use chess_rules::board::ChessBoard;
use chess_rules::game::{GameState, GameStatus};
use chess_rules::pieces::{Piece, PieceColor, PieceType};
use im::Vector;

fn cells_of(board: &ChessBoard) -> Vec<Option<Piece>> {
    (0..64).map(|i| board.get_piece_at(i)).collect()
}

fn kings(cells: &[Option<Piece>], color: PieceColor) -> usize {
    let king = Some(Piece { piece_type: PieceType::King, color });
    cells.iter().filter(|c| **c == king).count()
}

#[test]
fn state_can_be_put_together_from_its_parts() {
    let mut history = Vector::new();
    history.push_back("1. e4 e5".to_string());
    history.push_back("2. Nf3".to_string());
    let mut state = GameState {
        current_turn: PieceColor::Black,
        status: GameStatus::InProgress,
        last_move: Some(((7, 6), (5, 5))),
        white_can_castle_kingside: true,
        white_can_castle_queenside: true,
        black_can_castle_kingside: true,
        black_can_castle_queenside: true,
        move_history: history,
    };
    let mut cells = cells_of(&ChessBoard::new());
    cells[6 * 8 + 4] = None;
    cells[4 * 8 + 4] = Some(Piece { piece_type: PieceType::Pawn, color: PieceColor::White });
    cells[8 + 4] = None;
    cells[3 * 8 + 4] = Some(Piece { piece_type: PieceType::Pawn, color: PieceColor::Black });
    cells[7 * 8 + 6] = None;
    cells[5 * 8 + 5] = Some(Piece { piece_type: PieceType::Knight, color: PieceColor::White });
    assert!(state.make_move((0, 1), (2, 2), &mut cells));
    let entries: Vec<String> = state.move_history.iter().cloned().collect();
    assert_eq!(entries, vec!["1. e4 e5".to_string(), "2. Nf3 Nc6".to_string()]);
    assert!(state.make_move((7, 5), (3, 1), &mut cells));
    let entries: Vec<String> = state.move_history.iter().cloned().collect();
    assert_eq!(entries[2], "3. Bb5");
    assert_eq!(entries.len(), 3);

    let app = AppState { selected_square: Some(5), game_state: state };
    assert_eq!(app.selected_square, Some(5));
    assert_eq!(app.game_state.move_history.len(), 3);
}

#[test]
fn record_keeps_its_earlier_entries() {
    let mut state = GameState::new();
    let mut cells = cells_of(&ChessBoard::new());
    let game = [
        ((6, 4), (4, 4)),
        ((1, 4), (3, 4)),
        ((7, 6), (5, 5)),
        ((0, 1), (2, 2)),
        ((7, 5), (4, 2)),
        ((0, 5), (3, 2)),
        ((7, 4), (7, 6)),
        ((0, 6), (2, 5)),
    ];
    let mut before: Vec<String> = Vec::new();
    for (from, to) in game {
        assert!(state.make_move(from, to, &mut cells));
        let now: Vec<String> = state.move_history.iter().cloned().collect();
        assert!(now.len() >= before.len());
        for (i, entry) in before.iter().enumerate() {
            assert!(now[i].starts_with(entry.as_str()));
            if i + 1 < before.len() {
                assert_eq!(&now[i], entry);
            }
        }
        // A rejected attempt leaves the record alone.
        assert!(!state.make_move((4, 4), (4, 4), &mut cells));
        let after_rejection: Vec<String> = state.move_history.iter().cloned().collect();
        assert_eq!(after_rejection, now);
        assert_eq!(kings(&cells, PieceColor::White), 1);
        assert_eq!(kings(&cells, PieceColor::Black), 1);
        before = now;
    }
    assert_eq!(
        before,
        vec![
            "1. e4 e5".to_string(),
            "2. Nf3 Nc6".to_string(),
            "3. Bc4 Bc5".to_string(),
            "4. O-O Nf6".to_string(),
        ]
    );
}
