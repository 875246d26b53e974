use super::history::{
    record_clone, record_entries, record_last, record_len, record_new, record_pop_back,
    record_push_back,
};
use super::laws::{lemma_move_keeps_position_sound, sound_position};
use super::notation::{
    file_text, move_body, number_text, piece_symbol, rank_text, recorded, square_name,
    status_mark,
};
use super::rules::{
    attacker_on, bears_on, castling_shape, cells_after_move, en_passant, in_check,
    keeps_right, king_from, king_square, leaves_king_attacked, square, square_attacked,
    GameSnapshot,
};
use crate::board::chess_board::{
    aligned, cell, direction, path_clear, path_square, piece_on, span,
};
use crate::pieces::piece::{contains_square, on_board, Piece, PieceColor};
use crate::pieces::piece_type::PieceType;
use im::Vector;
use vstd::prelude::*;

verus! {

/// How the game stands for the side that is to move.
#[derive(Clone, Copy, PartialEq, Eq, Debug, Structural)]
pub enum GameStatus {
    InProgress,
    Check,
    Checkmate,
    Stalemate,
}

/// Everything about a game that the board does not show: whose turn it is,
/// how the game stands, the move made last, the castling rights still held,
/// and the record of the moves.
#[derive(Debug)]
pub struct GameState {
    pub current_turn: PieceColor,
    pub status: GameStatus,
    pub last_move: Option<((usize, usize), (usize, usize))>,
    pub white_can_castle_kingside: bool,
    pub white_can_castle_queenside: bool,
    pub black_can_castle_kingside: bool,
    pub black_can_castle_queenside: bool,
    pub move_history: Vector<String>,
}

impl View for GameState {
    type V = GameSnapshot;

    open spec fn view(&self) -> GameSnapshot {
        GameSnapshot {
            current_turn: self.current_turn,
            status: self.status,
            last_move: self.last_move,
            white_can_castle_kingside: self.white_can_castle_kingside,
            white_can_castle_queenside: self.white_can_castle_queenside,
            black_can_castle_kingside: self.black_can_castle_kingside,
            black_can_castle_queenside: self.black_can_castle_queenside,
            move_history: record_entries(self.move_history),
        }
    }
}

impl Clone for GameState {
    fn clone(&self) -> (copy: Self)
        ensures
            copy@ == self@,
    {
        Self {
            current_turn: self.current_turn,
            status: self.status,
            last_move: self.last_move,
            white_can_castle_kingside: self.white_can_castle_kingside,
            white_can_castle_queenside: self.white_can_castle_queenside,
            black_can_castle_kingside: self.black_can_castle_kingside,
            black_can_castle_queenside: self.black_can_castle_queenside,
            move_history: record_clone(&self.move_history),
        }
    }
}

/// The state in which every game starts: White to move, nothing played,
/// every castling right held.
pub open spec fn starting_state() -> GameSnapshot {
    GameSnapshot {
        current_turn: PieceColor::White,
        status: GameStatus::InProgress,
        last_move: None,
        white_can_castle_kingside: true,
        white_can_castle_queenside: true,
        black_can_castle_kingside: true,
        black_can_castle_queenside: true,
        move_history: Seq::empty(),
    }
}

/// The piece on an on-board square of a board of 64 cells.
fn piece_at(board: &Vec<Option<Piece>>, sq: (usize, usize)) -> (piece: Option<Piece>)
    requires
        board@.len() == 64,
        on_board(square(sq)),
    ensures
        piece == piece_on(board@, square(sq)),
{
    board[sq.0 * 8 + sq.1]
}

/// Whether every square strictly between two squares of a common line is
/// empty.
fn line_is_clear(
    board: &Vec<Option<Piece>>,
    from: (usize, usize),
    to: (usize, usize),
) -> (clear: bool)
    requires
        board@.len() == 64,
        on_board(square(from)),
        on_board(square(to)),
        aligned(square(from), square(to)),
    ensures
        clear == path_clear(board@, square(from), square(to)),
{
    if from.0 == to.0 && from.1 == to.1 {
        return true;
    }
    let dx: i32 = to.1 as i32 - from.1 as i32;
    let dy: i32 = to.0 as i32 - from.0 as i32;
    let step_x: i32 = if dx == 0 {
        0
    } else if dx > 0 {
        1
    } else {
        -1
    };
    let step_y: i32 = if dy == 0 {
        0
    } else if dy > 0 {
        1
    } else {
        -1
    };
    let mut x: i32 = from.1 as i32 + step_x;
    let mut y: i32 = from.0 as i32 + step_y;
    let ghost mut k: int = 1;
    while x != to.1 as i32 || y != to.0 as i32
        invariant
            board@.len() == 64,
            on_board(square(from)),
            on_board(square(to)),
            aligned(square(from), square(to)),
            square(from) != square(to),
            step_x == direction(to.1 - from.1),
            step_y == direction(to.0 - from.0),
            1 <= k <= span(square(from), square(to)),
            (y as int, x as int) == path_square(square(from), square(to), k),
            forall|j: int|
                0 < j < k ==> piece_on(board@, #[trigger] path_square(square(from), square(to), j))
                    is None,
        decreases span(square(from), square(to)) - k,
    {
        if board[(y as usize) * 8 + (x as usize)].is_some() {
            return false;
        }
        x += step_x;
        y += step_y;
        proof {
            k = k + 1;
        }
    }
    true
}

/// Whether `piece`, which stands on `from`, bears on `target`.
fn piece_bears_on(
    piece: Piece,
    from: (usize, usize),
    target: (usize, usize),
    board: &Vec<Option<Piece>>,
) -> (hit: bool)
    requires
        board@.len() == 64,
        on_board(square(from)),
        on_board(square(target)),
        piece_on(board@, square(from)) == Some(piece),
    ensures
        hit == bears_on(board@, square(from), square(target)),
{
    let from_coords = (from.0 as i32, from.1 as i32);
    let to_coords = (target.0 as i32, target.1 as i32);
    let raw_moves = piece.get_raw_moves(from_coords);
    if !contains_square(&raw_moves, to_coords) {
        return false;
    }
    if piece.piece_type == PieceType::Pawn {
        let dx = to_coords.1 - from_coords.1;
        let dy = to_coords.0 - from_coords.0;
        let forward: i32 = if piece.color == PieceColor::White {
            -1
        } else {
            1
        };
        return (dx == 1 || dx == -1) && dy == forward;
    }
    if piece.piece_type == PieceType::Knight {
        return true;
    }
    line_is_clear(board, from, target)
}

/// The square of the first king of the given side, in row-major order.
fn find_king(board: &Vec<Option<Piece>>, color: PieceColor) -> (found: Option<(usize, usize)>)
    requires
        board@.len() == 64,
    ensures
        match found {
            Some(sq) => on_board(square(sq)) && king_square(board@, color) == Some(square(sq)),
            None => king_square(board@, color) is None,
        },
{
    let mut idx: usize = 0;
    while idx < 64
        invariant
            idx <= 64,
            board@.len() == 64,
            king_from(board@, color, 0) == king_from(board@, color, idx as int),
        decreases 64 - idx,
    {
        if let Some(piece) = board[idx] {
            if piece.piece_type == PieceType::King && piece.color == color {
                return Some((idx / 8, idx % 8));
            }
        }
        idx += 1;
    }
    None
}

impl GameState {
    /// The state at the start of a game.
    pub fn new() -> (state: Self)
        ensures
            state@ == starting_state(),
    {
        Self {
            current_turn: PieceColor::White,
            status: GameStatus::InProgress,
            last_move: None,
            white_can_castle_kingside: true,
            white_can_castle_queenside: true,
            black_can_castle_kingside: true,
            black_can_castle_queenside: true,
            move_history: record_new(),
        }
    }

    /// Whether the side to move may move the piece on `from` to `to`. A move
    /// from or to a square off the board is never valid.
    pub fn is_valid_move(
        &self,
        from: (usize, usize),
        to: (usize, usize),
        board: &Vec<Option<Piece>>,
    ) -> (valid: bool)
        requires
            board@.len() == 64,
        ensures
            valid == self@.legal(board@, square(from), square(to)),
    {
        reveal(GameSnapshot::legal);
        if from.0 >= 8 || from.1 >= 8 || to.0 >= 8 || to.1 >= 8 {
            return false;
        }
        let piece = match piece_at(board, from) {
            Some(p) => p,
            None => {
                return false;
            },
        };
        if piece.color != self.current_turn {
            return false;
        }
        let from_coords = (from.0 as i32, from.1 as i32);
        let to_coords = (to.0 as i32, to.1 as i32);
        let raw_moves = piece.get_raw_moves(from_coords);
        let castling = self.is_castling_move(from, to, board);
        if !contains_square(&raw_moves, to_coords) && !castling {
            return false;
        }
        let target = piece_at(board, to);
        if piece.piece_type == PieceType::King {
            if self.is_square_attacked(to, piece.color, board) {
                return false;
            }
            if castling {
                if !self.is_valid_castling(from, to, board) {
                    return false;
                }
            } else if let Some(target_piece) = target {
                if target_piece.color == piece.color {
                    return false;
                }
            }
        } else if piece.piece_type == PieceType::Pawn {
            if to.1 == from.1 {
                if target.is_some() {
                    return false;
                }
                if to.0 == from.0 + 2 || from.0 == to.0 + 2 {
                    let intermediate_row = if piece.color == PieceColor::White {
                        from.0 - 1
                    } else {
                        from.0 + 1
                    };
                    if piece_at(board, (intermediate_row, from.1)).is_some() {
                        return false;
                    }
                }
            } else {
                if !self.is_en_passant_move(from, to, board) {
                    match target {
                        Some(target_piece) => {
                            if target_piece.color == piece.color {
                                return false;
                            }
                        },
                        None => {
                            return false;
                        },
                    }
                }
            }
        } else {
            if let Some(target_piece) = target {
                if target_piece.color == piece.color {
                    return false;
                }
            }
            if piece.piece_type != PieceType::Knight {
                if !line_is_clear(board, from, to) {
                    return false;
                }
            }
        }
        if self.would_be_in_check(from, to, board) {
            return false;
        }
        true
    }

    /// Whether a king stands on `from` and `to` lies two files away on the
    /// same row.
    pub fn is_castling_move(
        &self,
        from: (usize, usize),
        to: (usize, usize),
        board: &Vec<Option<Piece>>,
    ) -> (castling: bool)
        requires
            board@.len() == 64,
        ensures
            castling == castling_shape(board@, square(from), square(to)),
    {
        if from.0 >= 8 || from.1 >= 8 {
            return false;
        }
        match piece_at(board, from) {
            Some(piece) => piece.piece_type == PieceType::King && from.0 == to.0 && (to.1 == from.1
                + 2 || (from.1 >= 2 && to.1 == from.1 - 2)),
            None => false,
        }
    }

    /// Whether the king on `from` may castle to `to`.
    pub fn is_valid_castling(
        &self,
        from: (usize, usize),
        to: (usize, usize),
        board: &Vec<Option<Piece>>,
    ) -> (valid: bool)
        requires
            board@.len() == 64,
        ensures
            valid == self@.castling_ok(board@, square(from), square(to)),
    {
        if from.0 >= 8 || from.1 >= 8 {
            return false;
        }
        let piece = match piece_at(board, from) {
            Some(p) => p,
            None => {
                return false;
            },
        };
        if piece.piece_type != PieceType::King {
            return false;
        }
        let row: usize = if piece.color == PieceColor::White {
            7
        } else {
            0
        };
        if from.0 != row || from.1 != 4 || to.0 != row || (to.1 != 6 && to.1 != 2) {
            return false;
        }
        let kingside = to.1 == 6;
        let still_allowed = match piece.color {
            PieceColor::White => if kingside {
                self.white_can_castle_kingside
            } else {
                self.white_can_castle_queenside
            },
            PieceColor::Black => if kingside {
                self.black_can_castle_kingside
            } else {
                self.black_can_castle_queenside
            },
        };
        if !still_allowed {
            return false;
        }
        let rook_col: usize = if kingside {
            7
        } else {
            0
        };
        match piece_at(board, (row, rook_col)) {
            Some(rook) => {
                if rook.piece_type != PieceType::Rook || rook.color != piece.color {
                    return false;
                }
            },
            None => {
                return false;
            },
        }
        if !line_is_clear(board, from, (row, rook_col)) {
            return false;
        }
        let crossed: usize = if kingside {
            5
        } else {
            3
        };
        if self.is_square_attacked(from, piece.color, board) {
            return false;
        }
        if self.is_square_attacked((row, crossed), piece.color, board) {
            return false;
        }
        if self.is_square_attacked(to, piece.color, board) {
            return false;
        }
        true
    }

    /// Whether the pawn on `from` may capture in passing by moving to `to`.
    pub fn is_en_passant_move(
        &self,
        from: (usize, usize),
        to: (usize, usize),
        board: &Vec<Option<Piece>>,
    ) -> (passing: bool)
        requires
            board@.len() == 64,
        ensures
            passing == en_passant(self.last_move, board@, square(from), square(to)),
    {
        if from.0 >= 8 || from.1 >= 8 {
            return false;
        }
        let piece = match piece_at(board, from) {
            Some(p) => p,
            None => {
                return false;
            },
        };
        if piece.piece_type != PieceType::Pawn {
            return false;
        }
        if let Some((last_from, last_to)) = self.last_move {
            if last_to.0 >= 8 || last_to.1 >= 8 {
                return false;
            }
            if let Some(last_piece) = piece_at(board, last_to) {
                if last_piece.piece_type == PieceType::Pawn && last_piece.color != piece.color {
                    let double_step = last_from.1 == last_to.1 && match last_piece.color {
                        PieceColor::White => last_from.0 == 6 && last_to.0 == 4,
                        PieceColor::Black => last_from.0 == 1 && last_to.0 == 3,
                    };
                    let one_forward = match piece.color {
                        PieceColor::White => from.0 >= 1 && to.0 == from.0 - 1,
                        PieceColor::Black => to.0 == from.0 + 1,
                    };
                    let one_aside = to.1 == from.1 + 1 || (from.1 >= 1 && to.1 == from.1 - 1);
                    if double_step && one_forward && one_aside {
                        if last_to.0 == from.0 && last_to.1 == to.1 {
                            return true;
                        }
                    }
                }
            }
        }
        false
    }

    /// The name of a square of the board: the letter of its file and the
    /// digit of its rank, as in `e4`.
    pub fn get_square_name(pos: (usize, usize)) -> (name: String)
        requires
            on_board(square(pos)),
        ensures
            name@ == square_name(square(pos)),
    {
        let mut name = String::from_str(file_text(pos.1));
        name.append(rank_text(pos.0));
        assert(name@ =~= square_name(square(pos)));
        name
    }

    /// The letter by which a piece is named in a move's text; a pawn has
    /// none.
    pub fn get_piece_symbol(piece: Piece) -> (symbol: &'static str)
        ensures
            symbol@ == piece_symbol(piece.piece_type),
    {
        proof {
            reveal_strlit("K");
            reveal_strlit("Q");
            reveal_strlit("R");
            reveal_strlit("B");
            reveal_strlit("N");
            reveal_strlit("");
        }
        let symbol = match piece.piece_type {
            PieceType::King => "K",
            PieceType::Queen => "Q",
            PieceType::Rook => "R",
            PieceType::Bishop => "B",
            PieceType::Knight => "N",
            PieceType::Pawn => "",
        };
        assert(symbol@ =~= piece_symbol(piece.piece_type));
        symbol
    }

    /// Makes the move from `from` to `to` for the side to move, if it is
    /// legal, and says whether it was made.
    ///
    /// A move that is not legal changes nothing. A legal move changes the
    /// board as `cells_after_move` describes and the state as `after_move`
    /// describes; the two together are what `attempt` gives. The turn passes
    /// to the other side, no castling right that was given up comes back,
    /// and a sound position stays sound.
    pub fn make_move(
        &mut self,
        from: (usize, usize),
        to: (usize, usize),
        board: &mut Vec<Option<Piece>>,
    ) -> (accepted: bool)
        requires
            old(board)@.len() == 64,
            record_entries(old(self).move_history).len() < usize::MAX,
        ensures
            accepted == old(self)@.legal(old(board)@, square(from), square(to)),
            (final(self)@, final(board)@) == old(self)@.attempt(old(board)@, from, to),
            accepted ==> final(self).current_turn == old(self).current_turn.opponent(),
            !accepted ==> *final(self) == *old(self) && *final(board) == *old(board),
            final(self).white_can_castle_kingside ==> old(self).white_can_castle_kingside,
            final(self).white_can_castle_queenside ==> old(self).white_can_castle_queenside,
            final(self).black_can_castle_kingside ==> old(self).black_can_castle_kingside,
            final(self).black_can_castle_queenside ==> old(self).black_can_castle_queenside,
            final(board)@.len() == 64,
            sound_position(old(self)@, old(board)@) ==> sound_position(final(self)@, final(board)@),
    {
        if !self.is_valid_move(from, to, board) {
            return false;
        }
        proof {
            self@.lemma_legal_move_is_on_board(board@, square(from), square(to));
            if sound_position(self@, board@) {
                lemma_move_keeps_position_sound(self@, board@, from, to);
            }
        }
        let piece = match piece_at(board, from) {
            Some(p) => p,
            None => {
                return false;
            },
        };
        let is_capture = piece_at(board, to).is_some() || self.is_en_passant_move(from, to, board);
        let is_castling = self.is_castling_move(from, to, board);
        let is_promotion = piece.piece_type == PieceType::Pawn && ((piece.color
            == PieceColor::White && to.0 == 0) || (piece.color == PieceColor::Black && to.0 == 7));
        let mut text = Self::describe_move(piece, from, to, is_capture, is_castling, is_promotion);

        let ghost before = self@;
        let ghost cells = board@;
        self.update_castling_rights(from, to, board);
        self.move_pieces(from, to, board);
        self.last_move = Some((from, to));
        self.current_turn = self.current_turn.opponent();
        let ghost moved = self@;
        self.update_game_status(board);
        Self::mark_status(&mut text, self.status);
        self.record_move(piece.color, &text);
        proof {
            before.lemma_after_move(cells, from, to, moved, self@);
        }
        true
    }

    /// Adds to a move's text the mark of the standing that the move brought
    /// about.
    fn mark_status(text: &mut String, status: GameStatus)
        ensures
            final(text)@ == old(text)@ + status_mark(status),
    {
        match status {
            GameStatus::Check => {
                proof {
                    reveal_strlit("+");
                }
                text.append("+");
                assert(text@ =~= old(text)@ + status_mark(status));
            },
            GameStatus::Checkmate => {
                proof {
                    reveal_strlit("#");
                }
                text.append("#");
                assert(text@ =~= old(text)@ + status_mark(status));
            },
            _ => {
                assert(text@ =~= old(text)@ + status_mark(status));
            },
        }
    }

    /// Carries out on the board the legal move from `from` to `to`: the rook's
    /// part of castling, the removal of a pawn taken in passing, the move
    /// itself and the promotion of a pawn that reaches the far row.
    fn move_pieces(&self, from: (usize, usize), to: (usize, usize), board: &mut Vec<Option<Piece>>)
        requires
            old(board)@.len() == 64,
            on_board(square(from)),
            on_board(square(to)),
        ensures
            final(board)@ == cells_after_move(
                self.last_move,
                old(board)@,
                square(from),
                square(to),
            ),
            final(board)@.len() == 64,
    {
        let mover = piece_at(board, from);
        let is_en_passant = self.is_en_passant_move(from, to, board);
        let is_castling = self.is_castling_move(from, to, board);

        if is_castling {
            let row = from.0;
            let (rook_from_col, rook_to_col): (usize, usize) = if to.1 == 6 {
                (7, 5)
            } else {
                (0, 3)
            };
            let rook = board[row * 8 + rook_from_col];
            board.set(row * 8 + rook_from_col, None);
            board.set(row * 8 + rook_to_col, rook);
        }
        if is_en_passant {
            board.set(from.0 * 8 + to.1, None);
        }
        let moving = board[from.0 * 8 + from.1];
        board.set(from.0 * 8 + from.1, None);
        board.set(to.0 * 8 + to.1, moving);

        if let Some(piece) = mover {
            if piece.piece_type == PieceType::Pawn {
                if (piece.color == PieceColor::White && to.0 == 0) || (piece.color
                    == PieceColor::Black && to.0 == 7) {
                    board.set(
                        to.0 * 8 + to.1,
                        Some(Piece { piece_type: PieceType::Queen, color: piece.color }),
                    );
                }
            }
        }
        assert(board@ =~= cells_after_move(
            self.last_move,
            old(board)@,
            square(from),
            square(to),
        ));
    }

    /// Gives up the castling rights that the move from `from` to `to` ends.
    fn update_castling_rights(
        &mut self,
        from: (usize, usize),
        to: (usize, usize),
        board: &Vec<Option<Piece>>,
    )
        requires
            board@.len() == 64,
            on_board(square(from)),
            on_board(square(to)),
        ensures
            final(self).white_can_castle_kingside == (old(self).white_can_castle_kingside
                && keeps_right(board@, square(from), square(to), PieceColor::White, true)),
            final(self).white_can_castle_queenside == (old(self).white_can_castle_queenside
                && keeps_right(board@, square(from), square(to), PieceColor::White, false)),
            final(self).black_can_castle_kingside == (old(self).black_can_castle_kingside
                && keeps_right(board@, square(from), square(to), PieceColor::Black, true)),
            final(self).black_can_castle_queenside == (old(self).black_can_castle_queenside
                && keeps_right(board@, square(from), square(to), PieceColor::Black, false)),
            final(self).current_turn == old(self).current_turn,
            final(self).status == old(self).status,
            final(self).last_move == old(self).last_move,
            final(self).move_history == old(self).move_history,
    {
        if let Some(piece) = piece_at(board, from) {
            match piece.piece_type {
                PieceType::King => {
                    if piece.color == PieceColor::White {
                        self.white_can_castle_kingside = false;
                        self.white_can_castle_queenside = false;
                    } else {
                        self.black_can_castle_kingside = false;
                        self.black_can_castle_queenside = false;
                    }
                },
                PieceType::Rook => {
                    self.give_up_right_at(from);
                },
                _ => {},
            }
        }
        if let Some(taken) = piece_at(board, to) {
            if taken.piece_type == PieceType::Rook {
                self.give_up_right_at(to);
            }
        }
    }

    /// Writes the text of a move, without the mark for check or checkmate.
    fn describe_move(
        piece: Piece,
        from: (usize, usize),
        to: (usize, usize),
        is_capture: bool,
        is_castling: bool,
        is_promotion: bool,
    ) -> (text: String)
        requires
            on_board(square(from)),
            on_board(square(to)),
        ensures
            text@ == move_body(
                piece,
                square(from),
                square(to),
                is_capture,
                is_castling,
                is_promotion,
            ),
    {
        let mut text = String::new();
        if is_castling {
            proof {
                reveal_strlit("O-O");
                reveal_strlit("O-O-O");
            }
            text = if to.1 == 6 {
                String::from_str("O-O")
            } else {
                String::from_str("O-O-O")
            };
        } else {
            text.append(Self::get_piece_symbol(piece));
            if is_capture {
                if piece.piece_type == PieceType::Pawn {
                    text.append(file_text(from.1));
                }
                proof {
                    reveal_strlit("x");
                }
                text.append("x");
            }
            let to_name = Self::get_square_name(to);
            text.append(to_name.as_str());
        }
        if is_promotion {
            proof {
                reveal_strlit("=Q");
            }
            text.append("=Q");
        }
        assert(text@ =~= move_body(
            piece,
            square(from),
            square(to),
            is_capture,
            is_castling,
            is_promotion,
        ));
        text
    }

    /// Gives up the castling right that belongs to the corner `corner`, if
    /// it is one of the four corners.
    fn give_up_right_at(&mut self, corner: (usize, usize))
        ensures
            final(self).white_can_castle_queenside == (old(self).white_can_castle_queenside
                && corner != (7usize, 0usize)),
            final(self).white_can_castle_kingside == (old(self).white_can_castle_kingside
                && corner != (7usize, 7usize)),
            final(self).black_can_castle_queenside == (old(self).black_can_castle_queenside
                && corner != (0usize, 0usize)),
            final(self).black_can_castle_kingside == (old(self).black_can_castle_kingside
                && corner != (0usize, 7usize)),
            final(self).current_turn == old(self).current_turn,
            final(self).status == old(self).status,
            final(self).last_move == old(self).last_move,
            final(self).move_history == old(self).move_history,
    {
        if corner.0 == 7 && corner.1 == 0 {
            self.white_can_castle_queenside = false;
        } else if corner.0 == 7 && corner.1 == 7 {
            self.white_can_castle_kingside = false;
        } else if corner.0 == 0 && corner.1 == 0 {
            self.black_can_castle_queenside = false;
        } else if corner.0 == 0 && corner.1 == 7 {
            self.black_can_castle_kingside = false;
        }
    }

    /// Enters the text of a move of `mover` in the move record.
    fn record_move(&mut self, mover: PieceColor, text: &String)
        requires
            record_entries(old(self).move_history).len() < usize::MAX,
        ensures
            record_entries(final(self).move_history) == recorded(
                record_entries(old(self).move_history),
                mover,
                text@,
            ),
            final(self).current_turn == old(self).current_turn,
            final(self).status == old(self).status,
            final(self).last_move == old(self).last_move,
            final(self).white_can_castle_kingside == old(self).white_can_castle_kingside,
            final(self).white_can_castle_queenside == old(self).white_can_castle_queenside,
            final(self).black_can_castle_kingside == old(self).black_can_castle_kingside,
            final(self).black_can_castle_queenside == old(self).black_can_castle_queenside,
    {
        if mover == PieceColor::White {
            let mut entry = number_text(record_len(&self.move_history) + 1);
            proof {
                reveal_strlit(". ");
            }
            entry.append(". ");
            entry.append(text.as_str());
            assert(entry@ =~= super::notation::decimal(
                (record_entries(old(self).move_history).len() + 1) as nat,
            ) + seq!['.', ' '] + text@);
            record_push_back(&mut self.move_history, entry);
        } else {
            let newest = match record_last(&self.move_history) {
                Some(last) => Some(last.clone()),
                None => None,
            };
            if let Some(mut new_last) = newest {
                proof {
                    reveal_strlit(" ");
                }
                new_last.append(" ");
                new_last.append(text.as_str());
                assert(new_last@ =~= record_entries(old(self).move_history).last() + seq![' ']
                    + text@);
                let _ = record_pop_back(&mut self.move_history);
                record_push_back(&mut self.move_history, new_last);
            }
        }
    }

    /// Whether the side to move has a legal move.
    pub fn has_legal_moves(&self, board: &Vec<Option<Piece>>) -> (found: bool)
        requires
            board@.len() == 64,
        ensures
            found == self@.has_legal_move(board@),
    {
        let mut from_idx: usize = 0;
        while from_idx < 64
            invariant
                from_idx <= 64,
                board@.len() == 64,
                forall|from: (int, int), to: (int, int)|
                    on_board(from) && cell(from) < from_idx ==> !#[trigger] self@.legal(
                        board@,
                        from,
                        to,
                    ),
            decreases 64 - from_idx,
        {
            let from = (from_idx / 8, from_idx % 8);
            if let Some(piece) = piece_at(board, from) {
                if piece.color == self.current_turn {
                    let mut to_idx: usize = 0;
                    while to_idx < 64
                        invariant
                            to_idx <= 64,
                            from_idx < 64,
                            from == (from_idx / 8, from_idx % 8),
                            board@.len() == 64,
                            forall|other: (int, int)|
                                on_board(other) && cell(other) < to_idx ==> !#[trigger] self@.legal(
                                    board@,
                                    square(from),
                                    other,
                                ),
                        decreases 64 - to_idx,
                    {
                        let to = (to_idx / 8, to_idx % 8);
                        if self.is_valid_move(from, to, board) {
                            return true;
                        }
                        to_idx += 1;
                    }
                }
            }
            assert forall|origin: (int, int), to: (int, int)|
                on_board(origin) && cell(origin) < from_idx + 1 implies !#[trigger] self@.legal(
                board@,
                origin,
                to,
            ) by {
                if cell(origin) == from_idx && self@.legal(board@, origin, to) {
                    assert(origin == square(from));
                    self@.lemma_legal_move_is_on_board(board@, origin, to);
                }
            }
            from_idx += 1;
        }
        proof {
            assert forall|origin: (int, int), to: (int, int)| !#[trigger] self@.legal(
                board@,
                origin,
                to,
            ) by {
                if self@.legal(board@, origin, to) {
                    self@.lemma_legal_move_is_on_board(board@, origin, to);
                }
            }
        }
        false
    }

    /// Works out how the game stands for the side to move and stores it in
    /// `status`; nothing else changes. The king looked at is the first of
    /// that side in row-major order; without one the side is not in check.
    pub fn update_game_status(&mut self, board: &Vec<Option<Piece>>)
        requires
            board@.len() == 64,
        ensures
            final(self).status == old(self)@.standing(board@),
            final(self).current_turn == old(self).current_turn,
            final(self).last_move == old(self).last_move,
            final(self).white_can_castle_kingside == old(self).white_can_castle_kingside,
            final(self).white_can_castle_queenside == old(self).white_can_castle_queenside,
            final(self).black_can_castle_kingside == old(self).black_can_castle_kingside,
            final(self).black_can_castle_queenside == old(self).black_can_castle_queenside,
            final(self).move_history == old(self).move_history,
    {
        let in_check = match find_king(board, self.current_turn) {
            Some(king_pos) => self.is_square_attacked(king_pos, self.current_turn, board),
            None => false,
        };
        let has_legal_moves = self.has_legal_moves(board);
        self.status = if in_check {
            if has_legal_moves {
                GameStatus::Check
            } else {
                GameStatus::Checkmate
            }
        } else {
            if has_legal_moves {
                GameStatus::InProgress
            } else {
                GameStatus::Stalemate
            }
        };
    }

    /// Whether some piece of the side opposing `defending_color` bears on the
    /// square `pos`. A square off the board is attacked by nobody.
    pub fn is_square_attacked(
        &self,
        pos: (usize, usize),
        defending_color: PieceColor,
        board: &Vec<Option<Piece>>,
    ) -> (attacked: bool)
        requires
            board@.len() == 64,
        ensures
            attacked == square_attacked(board@, square(pos), defending_color),
    {
        if pos.0 >= 8 || pos.1 >= 8 {
            return false;
        }
        let mut row: usize = 0;
        while row < 8
            invariant
                row <= 8,
                board@.len() == 64,
                on_board(square(pos)),
                forall|from: (int, int)|
                    on_board(from) && from.0 < row ==> !#[trigger] attacker_on(
                        board@,
                        from,
                        square(pos),
                        defending_color,
                    ),
            decreases 8 - row,
        {
            let mut col: usize = 0;
            while col < 8
                invariant
                    row < 8,
                    col <= 8,
                    board@.len() == 64,
                    on_board(square(pos)),
                    forall|from: (int, int)|
                        on_board(from) && (from.0 < row || (from.0 == row && from.1 < col))
                            ==> !#[trigger] attacker_on(
                            board@,
                            from,
                            square(pos),
                            defending_color,
                        ),
                decreases 8 - col,
            {
                if let Some(piece) = piece_at(board, (row, col)) {
                    if piece.color != defending_color {
                        if piece_bears_on(piece, (row, col), pos, board) {
                            assert(attacker_on(
                                board@,
                                square((row, col)),
                                square(pos),
                                defending_color,
                            ));
                            return true;
                        }
                    }
                }
                col += 1;
            }
            row += 1;
        }
        false
    }

    /// Whether the move from `from` to `to` would leave the mover's own king
    /// attacked. The move is tried out in full on a copy of the board, which
    /// is then thrown away. With no piece on `from`, or no king of the
    /// mover's side on the board, the answer is no.
    pub fn would_be_in_check(
        &self,
        from: (usize, usize),
        to: (usize, usize),
        board: &Vec<Option<Piece>>,
    ) -> (exposed: bool)
        requires
            board@.len() == 64,
            on_board(square(from)),
            on_board(square(to)),
        ensures
            exposed == leaves_king_attacked(self.last_move, board@, square(from), square(to)),
    {
        let king_color = match piece_at(board, from) {
            Some(piece) => piece.color,
            None => {
                return false;
            },
        };
        let mut temp_board = board.clone();
        assert(temp_board@ =~= board@);
        self.move_pieces(from, to, &mut temp_board);
        match find_king(&temp_board, king_color) {
            Some(king_pos) => self.is_square_attacked(king_pos, king_color, &temp_board),
            None => false,
        }
    }
}

} // verus!
