use chess_rules::app::AppState;
use chess_rules::board::ChessBoard;
use chess_rules::game::GameStatus;
use chess_rules::pieces::{Piece, PieceColor, PieceType};

fn idx(name: &str) -> usize {
    let bytes = name.as_bytes();
    let col = (bytes[0] - b'a') as usize;
    let rank = (bytes[1] - b'0') as usize;
    (8 - rank) * 8 + col
}

fn entries(data: &AppState) -> Vec<String> {
    data.game_state.move_history.iter().cloned().collect()
}

fn snapshot(board: &ChessBoard) -> Vec<Option<Piece>> {
    (0..64).map(|i| board.get_piece_at(i)).collect()
}

#[test]
fn app_state_starts_with_nothing_selected() {
    let data = AppState::new();
    assert_eq!(data.selected_square, None);
    assert_eq!(data.game_state.current_turn, PieceColor::White);
    assert_eq!(data.game_state.status, GameStatus::InProgress);
    assert!(entries(&data).is_empty());
}

#[test]
fn app_state_clone_keeps_selection_and_game() {
    let mut board = ChessBoard::new();
    let mut data = AppState::new();
    assert!(board.make_move(idx("e2"), idx("e4"), &mut data));
    data.selected_square = Some(12);
    let copy = data.clone();
    assert_eq!(copy.selected_square, Some(12));
    assert_eq!(copy.game_state.current_turn, PieceColor::Black);
    assert_eq!(entries(&copy), vec!["1. e4".to_string()]);
}

#[test]
fn possible_moves_at_the_start() {
    let board = ChessBoard::new();
    let data = AppState::new();
    assert_eq!(board.get_possible_moves(idx("e2"), &data), vec![idx("e4"), idx("e3")]);
    assert_eq!(board.get_possible_moves(idx("g1"), &data), vec![idx("f3"), idx("h3")]);
    assert!(board.get_possible_moves(idx("a1"), &data).is_empty());
    assert!(board.get_possible_moves(idx("e1"), &data).is_empty());
    // Not White's pieces, empty squares, squares off the board.
    assert!(board.get_possible_moves(idx("e7"), &data).is_empty());
    assert!(board.get_possible_moves(idx("e4"), &data).is_empty());
    assert!(board.get_possible_moves(64, &data).is_empty());
    assert!(board.get_possible_moves(68, &data).is_empty());
    assert!(board.get_possible_moves(usize::MAX, &data).is_empty());
}

#[test]
fn possible_moves_never_hold_the_origin_or_an_index_off_the_board() {
    let mut board = ChessBoard::new();
    let mut data = AppState::new();
    let game = [
        ("e2", "e4"),
        ("e7", "e5"),
        ("g1", "f3"),
        ("b8", "c6"),
        ("f1", "b5"),
        ("a7", "a6"),
        ("b5", "c6"),
        ("d7", "c6"),
    ];
    for (from, to) in game {
        for origin in 0..70 {
            let moves = board.get_possible_moves(origin, &data);
            assert!(!moves.contains(&origin));
            for (i, to) in moves.iter().enumerate() {
                assert!(*to < 64);
                if i > 0 {
                    assert!(moves[i - 1] < *to);
                }
            }
            if origin >= 64 {
                assert!(moves.is_empty());
            }
        }
        assert!(board.get_possible_moves(idx(from), &data).contains(&idx(to)));
        assert!(board.make_move(idx(from), idx(to), &mut data));
    }
    assert_eq!(
        entries(&data),
        vec![
            "1. e4 e5".to_string(),
            "2. Nf3 Nc6".to_string(),
            "3. Bb5 a6".to_string(),
            "4. Bxc6 dxc6".to_string(),
        ]
    );
    // Castling shows among the king's moves once the way is free.
    assert_eq!(
        board.get_possible_moves(idx("e1"), &data),
        vec![idx("e2"), idx("f1"), idx("g1")]
    );
}

#[test]
fn board_move_changes_board_and_game_together() {
    let mut board = ChessBoard::new();
    let mut data = AppState::new();
    data.selected_square = Some(3);
    assert!(board.make_move(idx("d2"), idx("d4"), &mut data));
    assert_eq!(board.get_piece_at(idx("d2")), None);
    assert_eq!(
        board.get_piece_at(idx("d4")),
        Some(Piece { piece_type: PieceType::Pawn, color: PieceColor::White })
    );
    assert_eq!(data.game_state.current_turn, PieceColor::Black);
    assert_eq!(data.game_state.last_move, Some(((6, 3), (4, 3))));
    assert_eq!(entries(&data), vec!["1. d4".to_string()]);
    assert_eq!(data.selected_square, Some(3));
    for i in 0..64 {
        assert_eq!(board.is_light(i), (i / 8 + i % 8) % 2 == 0);
    }
}

#[test]
fn rejected_board_move_changes_nothing() {
    let mut board = ChessBoard::new();
    let mut data = AppState::new();
    let before = snapshot(&board);
    for (from, to) in [(idx("d2"), idx("d5")), (idx("d7"), idx("d5")), (64, 3), (3, 64), (70, 90)] {
        assert!(!board.make_move(from, to, &mut data));
        assert_eq!(snapshot(&board), before);
        assert_eq!(data.game_state.current_turn, PieceColor::White);
        assert_eq!(data.game_state.last_move, None);
        assert!(entries(&data).is_empty());
        assert_eq!(data.selected_square, None);
    }
}

#[test]
fn click_selects_a_piece_of_the_side_to_move() {
    let mut board = ChessBoard::new();
    let mut data = AppState::new();
    board.handle_click(idx("e4"), &mut data);
    assert_eq!(data.selected_square, None);
    board.handle_click(idx("e7"), &mut data);
    assert_eq!(data.selected_square, None);
    board.handle_click(64, &mut data);
    assert_eq!(data.selected_square, None);
    board.handle_click(idx("e2"), &mut data);
    assert_eq!(data.selected_square, Some(idx("e2")));
    assert_eq!(snapshot(&board), snapshot(&ChessBoard::new()));
    assert!(entries(&data).is_empty());
}

#[test]
fn click_on_the_selected_square_lets_go_of_it() {
    let mut board = ChessBoard::new();
    let mut data = AppState::new();
    board.handle_click(idx("b1"), &mut data);
    assert_eq!(data.selected_square, Some(idx("b1")));
    board.handle_click(idx("b1"), &mut data);
    assert_eq!(data.selected_square, None);
    assert_eq!(data.game_state.current_turn, PieceColor::White);
}

#[test]
fn second_click_makes_the_move_if_it_is_legal() {
    let mut board = ChessBoard::new();
    let mut data = AppState::new();
    board.handle_click(idx("b1"), &mut data);
    // Not a knight's move: the selection stays.
    board.handle_click(idx("b3"), &mut data);
    assert_eq!(data.selected_square, Some(idx("b1")));
    assert_eq!(data.game_state.current_turn, PieceColor::White);
    // Another piece of the same side: no move either, the selection stays.
    board.handle_click(idx("e2"), &mut data);
    assert_eq!(data.selected_square, Some(idx("b1")));
    board.handle_click(idx("c3"), &mut data);
    assert_eq!(data.selected_square, None);
    assert_eq!(data.game_state.current_turn, PieceColor::Black);
    assert_eq!(entries(&data), vec!["1. Nc3".to_string()]);
    assert_eq!(
        board.get_piece_at(idx("c3")),
        Some(Piece { piece_type: PieceType::Knight, color: PieceColor::White })
    );
    assert_eq!(board.get_piece_at(idx("b1")), None);
    // Now Black's pieces can be selected, White's cannot.
    board.handle_click(idx("c3"), &mut data);
    assert_eq!(data.selected_square, None);
    board.handle_click(idx("g8"), &mut data);
    assert_eq!(data.selected_square, Some(idx("g8")));
    board.handle_click(idx("f6"), &mut data);
    assert_eq!(entries(&data), vec!["1. Nc3 Nf6".to_string()]);
}

#[test]
fn fools_mate_by_clicks() {
    let mut board = ChessBoard::new();
    let mut data = AppState::new();
    for (from, to) in [("f2", "f3"), ("e7", "e5"), ("g2", "g4"), ("d8", "h4")] {
        board.handle_click(idx(from), &mut data);
        assert_eq!(data.selected_square, Some(idx(from)));
        board.handle_click(idx(to), &mut data);
        assert_eq!(data.selected_square, None);
    }
    assert_eq!(data.game_state.status, GameStatus::Checkmate);
    assert_eq!(entries(&data), vec!["1. f3 e5".to_string(), "2. g4 Qh4#".to_string()]);
    for origin in 0..64 {
        assert!(board.get_possible_moves(origin, &data).is_empty());
    }
}
