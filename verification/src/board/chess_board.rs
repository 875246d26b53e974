use super::chess_square::ChessSquare;
use crate::app::AppState;
use crate::game::history::record_entries;
use crate::game::rules::holds_side;
use crate::pieces::piece::{coords, on_board, Piece, PieceColor};
use crate::pieces::piece_type::PieceType;
use vstd::math::{abs, max};
use vstd::prelude::*;

verus! {

/// The place of a square among the 64 cells of a board: the cells run row
/// by row, each row from the a-file to the h-file.
pub open spec fn cell(sq: (int, int)) -> int {
    sq.0 * 8 + sq.1
}

/// The piece on (row, column) `sq` of a board given as 64 cells in row-major
/// order; nothing stands off the board.
pub open spec fn piece_on(cells: Seq<Option<Piece>>, sq: (int, int)) -> Option<Piece> {
    if on_board(sq) {
        cells[cell(sq)]
    } else {
        None
    }
}

/// The sign of a displacement: -1, 0 or 1.
pub open spec fn direction(d: int) -> int {
    if d > 0 {
        1
    } else if d < 0 {
        -1
    } else {
        0
    }
}

/// Whether two squares lie on a common rank, file or diagonal.
pub open spec fn aligned(from: (int, int), to: (int, int)) -> bool {
    let dr = to.0 - from.0;
    let dc = to.1 - from.1;
    dr == 0 || dc == 0 || abs(dr) == abs(dc)
}

/// The number of steps from `from` to `to` along their common line.
pub open spec fn span(from: (int, int), to: (int, int)) -> int {
    max(abs(to.0 - from.0) as int, abs(to.1 - from.1) as int)
}

/// The square `k` steps from `from` towards `to`.
pub open spec fn path_square(from: (int, int), to: (int, int), k: int) -> (int, int) {
    let dr = direction(to.0 - from.0);
    let dc = direction(to.1 - from.1);
    (
        if dr > 0 {
            from.0 + k
        } else if dr < 0 {
            from.0 - k
        } else {
            from.0
        },
        if dc > 0 {
            from.1 + k
        } else if dc < 0 {
            from.1 - k
        } else {
            from.1
        },
    )
}

/// Whether every square strictly between `from` and `to` is empty. The two
/// ends are not looked at, so neighbouring squares and a square with itself
/// always have a clear path.
pub open spec fn path_clear(cells: Seq<Option<Piece>>, from: (int, int), to: (int, int)) -> bool {
    forall|k: int|
        0 < k < span(from, to) ==> piece_on(cells, #[trigger] path_square(from, to, k)) is None
}

/// The board after whatever stands on cell `from` has been put on cell `to`:
/// `from` is left empty and what stood on `to` is gone. With `from == to`
/// nothing changes.
pub open spec fn relocated(cells: Seq<Option<Piece>>, from: int, to: int) -> Seq<Option<Piece>> {
    cells.update(from, None).update(to, cells[from])
}

/// The piece that starts the game on the given square, if any.
pub open spec fn starting_piece(row: int, col: int) -> Option<Piece> {
    if row == 0 || row == 7 {
        Some(
            Piece {
                piece_type: if col == 0 || col == 7 {
                    PieceType::Rook
                } else if col == 1 || col == 6 {
                    PieceType::Knight
                } else if col == 2 || col == 5 {
                    PieceType::Bishop
                } else if col == 3 {
                    PieceType::Queen
                } else {
                    PieceType::King
                },
                color: if row == 0 {
                    PieceColor::Black
                } else {
                    PieceColor::White
                },
            },
        )
    } else if row == 1 {
        Some(Piece { piece_type: PieceType::Pawn, color: PieceColor::Black })
    } else if row == 6 {
        Some(Piece { piece_type: PieceType::Pawn, color: PieceColor::White })
    } else {
        None
    }
}

/// The 64 cells of the starting position, row by row from Black's back rank.
pub open spec fn starting_position() -> Seq<Option<Piece>> {
    Seq::new(64, |i: int| starting_piece(i / 8, i % 8))
}

/// The (row, column) pair of the square with the given index.
pub open spec fn square_of(idx: int) -> (int, int) {
    (idx / 8, idx % 8)
}

/// Whether the square in the given row and column is a light one.
pub open spec fn light_square(row: int, col: int) -> bool {
    (row + col) % 2 == 0
}

/// The playing surface: 64 squares in row-major order, row 0 being Black's
/// back rank.
pub struct ChessBoard {
    squares: Vec<ChessSquare>,
}

impl View for ChessBoard {
    type V = Seq<Option<Piece>>;

    /// The pieces on the 64 squares, in row-major order.
    closed spec fn view(&self) -> Seq<Option<Piece>> {
        Seq::new(self.squares@.len(), |i: int| self.squares@[i].piece)
    }
}

impl ChessBoard {
    /// What every board keeps: it has exactly 64 squares, and each square
    /// carries the shade that its place on the board gives it.
    pub closed spec fn wf(&self) -> bool {
        &&& self.squares@.len() == 64
        &&& forall|i: int|
            0 <= i < 64 ==> (#[trigger] self.squares@[i]).is_light == light_square(i / 8, i % 8)
    }

    /// A well-formed board shows 64 cells.
    pub proof fn lemma_wf_len(&self)
        requires
            self.wf(),
        ensures
            self@.len() == 64,
    {
    }

    /// A board set up for the start of a game.
    pub fn new() -> (board: Self)
        ensures
            board.wf(),
            board@ == starting_position(),
    {
        let mut squares: Vec<ChessSquare> = Vec::with_capacity(64);
        let mut row: usize = 0;
        while row < 8
            invariant
                row <= 8,
                squares@.len() == row * 8,
                forall|i: int|
                    0 <= i < row * 8 ==> (#[trigger] squares@[i]).piece == starting_piece(
                        i / 8,
                        i % 8,
                    ) && squares@[i].is_light == light_square(i / 8, i % 8),
            decreases 8 - row,
        {
            let mut col: usize = 0;
            while col < 8
                invariant
                    row < 8,
                    col <= 8,
                    squares@.len() == row * 8 + col,
                    forall|i: int|
                        0 <= i < row * 8 + col ==> (#[trigger] squares@[i]).piece
                            == starting_piece(i / 8, i % 8) && squares@[i].is_light
                            == light_square(i / 8, i % 8),
                decreases 8 - col,
            {
                let is_light = (row + col) % 2 == 0;
                let piece = match row {
                    0 => Some(Piece { piece_type: back_rank_piece(col), color: PieceColor::Black }),
                    1 => Some(Piece { piece_type: PieceType::Pawn, color: PieceColor::Black }),
                    6 => Some(Piece { piece_type: PieceType::Pawn, color: PieceColor::White }),
                    7 => Some(Piece { piece_type: back_rank_piece(col), color: PieceColor::White }),
                    _ => None,
                };
                squares.push(ChessSquare::new(is_light, piece));
                col += 1;
            }
            row += 1;
        }
        let board = Self { squares };
        assert(board@ =~= starting_position());
        board
    }

    /// The piece on the square with the given index, or `None` when the
    /// square is empty or the index is not one of the board's 64.
    pub fn get_piece_at(&self, idx: usize) -> (piece: Option<Piece>)
        requires
            self.wf(),
        ensures
            piece == if idx < 64 {
                self@[idx as int]
            } else {
                None
            },
    {
        if idx >= 64 {
            return None;
        }
        self.squares[idx].piece
    }

    /// Whether the line from `from` to `to` is free of pieces: every square
    /// strictly between the two is empty. The walk starts on the square after
    /// `from` and stops before `to`; squares off the board count as empty.
    /// The two squares must share a rank, a file or a diagonal.
    pub fn is_path_clear(&self, from: (i32, i32), to: (i32, i32)) -> (clear: bool)
        requires
            self.wf(),
            aligned(coords(from), coords(to)),
        ensures
            clear == path_clear(self@, coords(from), coords(to)),
    {
        let dr: i64 = to.0 as i64 - from.0 as i64;
        let dc: i64 = to.1 as i64 - from.1 as i64;
        let step_r: i64 = if dr > 0 {
            1
        } else if dr < 0 {
            -1
        } else {
            0
        };
        let step_c: i64 = if dc > 0 {
            1
        } else if dc < 0 {
            -1
        } else {
            0
        };
        let len_r: i64 = if dr < 0 {
            -dr
        } else {
            dr
        };
        let len_c: i64 = if dc < 0 {
            -dc
        } else {
            dc
        };
        let steps: i64 = if len_r > len_c {
            len_r
        } else {
            len_c
        };
        let mut k: i64 = 1;
        let mut r: i64 = from.0 as i64 + step_r;
        let mut c: i64 = from.1 as i64 + step_c;
        while k < steps
            invariant
                self.wf(),
                1 <= k,
                steps == span(coords(from), coords(to)),
                steps <= 0x1_0000_0000,
                step_r == direction(to.0 - from.0),
                step_c == direction(to.1 - from.1),
                (r as int, c as int) == path_square(coords(from), coords(to), k as int),
                forall|j: int|
                    0 < j < k ==> piece_on(
                        self@,
                        #[trigger] path_square(coords(from), coords(to), j),
                    ) is None,
            decreases steps - k,
        {
            if 0 <= r && r < 8 && 0 <= c && c < 8 {
                if self.get_piece_at((r * 8 + c) as usize).is_some() {
                    return false;
                }
            }
            k += 1;
            r += step_r;
            c += step_c;
        }
        true
    }

    /// Puts `piece` on the square with the given index.
    fn set_piece(&mut self, idx: usize, piece: Option<Piece>)
        requires
            old(self).wf(),
            idx < 64,
        ensures
            final(self).wf(),
            final(self)@ == old(self)@.update(idx as int, piece),
    {
        self.squares[idx].piece = piece;
        assert(self@ =~= old(self)@.update(idx as int, piece));
    }

    /// Moves whatever stands on square `from` to square `to`: `from` is left
    /// empty and whatever stood on `to` is gone. Nothing is asked about the
    /// rules of the game.
    pub fn apply_raw_move(&mut self, from: usize, to: usize)
        requires
            old(self).wf(),
            from < 64,
            to < 64,
        ensures
            final(self).wf(),
            final(self)@ == relocated(old(self)@, from as int, to as int),
    {
        let moving = self.get_piece_at(from);
        self.set_piece(from, None);
        self.set_piece(to, moving);
    }

    /// Whether the square with the given index is a light one.
    pub fn is_light(&self, idx: usize) -> (light: bool)
        requires
            self.wf(),
            idx < 64,
        ensures
            light == light_square(idx as int / 8, idx as int % 8),
    {
        self.squares[idx].is_light
    }

    /// The pieces on the 64 squares as a plain vector.
    fn to_cells(&self) -> (cells: Vec<Option<Piece>>)
        requires
            self.wf(),
        ensures
            cells@ == self@,
            cells@.len() == 64,
    {
        let mut cells: Vec<Option<Piece>> = Vec::with_capacity(64);
        let mut i: usize = 0;
        while i < 64
            invariant
                i <= 64,
                self.wf(),
                cells@.len() == i,
                forall|j: int| 0 <= j < i ==> cells@[j] == self@[j],
            decreases 64 - i,
        {
            cells.push(self.squares[i].piece);
            i += 1;
        }
        assert(cells@ =~= self@);
        cells
    }

    /// The squares to which the side to move may legally move the piece on
    /// the square `square_idx`, in rising order. The list is empty when the
    /// square holds no piece of that side or is not on the board; it never
    /// holds `square_idx` itself, nor an index that is not a square's.
    pub fn get_possible_moves(&self, square_idx: usize, game_state: &AppState) -> (moves: Vec<
        usize,
    >)
        requires
            self.wf(),
        ensures
            forall|to: usize| #[trigger]
                moves@.contains(to) <==> to < 64 && game_state.game_state@.legal(
                    self@,
                    square_of(square_idx as int),
                    square_of(to as int),
                ),
            forall|i: int, j: int| 0 <= i < j < moves@.len() ==> moves@[i] < moves@[j],
            !moves@.contains(square_idx),
            forall|to: usize| #[trigger] moves@.contains(to) ==> to < 64,
    {
        let _piece = match self.get_piece_at(square_idx) {
            Some(p) => p,
            None => {
                let none: Vec<usize> = Vec::new();
                proof {
                    assert forall|to: usize|
                        game_state.game_state@.legal(
                            self@,
                            square_of(square_idx as int),
                            square_of(to as int),
                        ) implies false by {
                        game_state.game_state@.lemma_legal_move_is_on_board(
                            self@,
                            square_of(square_idx as int),
                            square_of(to as int),
                        );
                    }
                }
                return none;
            },
        };
        let board = self.to_cells();
        let row = square_idx / 8;
        let col = square_idx % 8;
        let from = (row, col);
        let mut valid_moves: Vec<usize> = Vec::new();
        let mut to_idx: usize = 0;
        while to_idx < 64
            invariant
                to_idx <= 64,
                board@ == self@,
                board@.len() == 64,
                from == (square_idx / 8, square_idx % 8),
                forall|to: usize| #[trigger]
                    valid_moves@.contains(to) <==> to < to_idx && game_state.game_state@.legal(
                        self@,
                        square_of(square_idx as int),
                        square_of(to as int),
                    ),
                forall|i: int, j: int|
                    0 <= i < j < valid_moves@.len() ==> valid_moves@[i] < valid_moves@[j],
                forall|i: int| 0 <= i < valid_moves@.len() ==> valid_moves@[i] < to_idx,
            decreases 64 - to_idx,
        {
            let to = (to_idx / 8, to_idx % 8);
            if game_state.game_state.is_valid_move(from, to, &board) {
                let ghost before = valid_moves@;
                valid_moves.push(to_idx);
                proof {
                    assert(valid_moves@[before.len() as int] == to_idx);
                    assert forall|x: usize| #[trigger]
                        valid_moves@.contains(x) <==> x < to_idx + 1
                            && game_state.game_state@.legal(
                            self@,
                            square_of(square_idx as int),
                            square_of(x as int),
                        ) by {
                        if before.contains(x) {
                            let i = choose|i: int| 0 <= i < before.len() && before[i] == x;
                            assert(valid_moves@[i] == x);
                        }
                    }
                }
            }
            to_idx += 1;
        }
        proof {
            if valid_moves@.contains(square_idx) {
                game_state.game_state@.lemma_legal_move_is_on_board(
                    self@,
                    square_of(square_idx as int),
                    square_of(square_idx as int),
                );
            }
        }
        valid_moves
    }

    /// Makes the move from the square `from_idx` to the square `to_idx` for
    /// the side to move, if it is legal, and says whether it was made. A move
    /// that is not legal changes neither the board nor the game.
    pub fn make_move(
        &mut self,
        from_idx: usize,
        to_idx: usize,
        game_state: &mut AppState,
    ) -> (accepted: bool)
        requires
            old(self).wf(),
            record_entries(old(game_state).game_state.move_history).len() < usize::MAX,
        ensures
            final(self).wf(),
            accepted == old(game_state).game_state@.legal(
                old(self)@,
                square_of(from_idx as int),
                square_of(to_idx as int),
            ),
            (final(game_state).game_state@, final(self)@) == old(game_state).game_state@.attempt(
                old(self)@,
                (from_idx / 8, from_idx % 8),
                (to_idx / 8, to_idx % 8),
            ),
            !accepted ==> *final(game_state) == *old(game_state),
            final(game_state).selected_square == old(game_state).selected_square,
    {
        let mut board = self.to_cells();
        let from = (from_idx / 8, from_idx % 8);
        let to = (to_idx / 8, to_idx % 8);
        if game_state.game_state.make_move(from, to, &mut board) {
            let mut i: usize = 0;
            while i < 64
                invariant
                    i <= 64,
                    self.wf(),
                    board@.len() == 64,
                    self@.len() == 64,
                    forall|j: int| 0 <= j < i ==> self@[j] == board@[j],
                decreases 64 - i,
            {
                self.set_piece(i, board[i]);
                i += 1;
            }
            assert(self@ =~= board@);
            true
        } else {
            false
        }
    }

    /// What a click on the square `square_idx` does. A click on the selected
    /// square lets go of it. A click elsewhere while a square is selected
    /// tries the move from the selected square to the clicked one, and lets
    /// go of the selection if the move was made. With nothing selected, a
    /// click selects the square if it holds a piece of the side to move.
    pub fn handle_click(&mut self, square_idx: usize, data: &mut AppState)
        requires
            old(self).wf(),
            record_entries(old(data).game_state.move_history).len() < usize::MAX,
        ensures
            final(self).wf(),
            match old(data).selected_square {
                Some(selected) => if selected == square_idx {
                    &&& final(data).selected_square is None
                    &&& final(data).game_state == old(data).game_state
                    &&& final(self)@ == old(self)@
                } else {
                    &&& (final(data).game_state@, final(self)@) == old(data).game_state@.attempt(
                        old(self)@,
                        (selected / 8, selected % 8),
                        (square_idx / 8, square_idx % 8),
                    )
                    &&& final(data).selected_square == if old(data).game_state@.legal(
                        old(self)@,
                        square_of(selected as int),
                        square_of(square_idx as int),
                    ) {
                        None
                    } else {
                        Some(selected)
                    }
                    &&& !old(data).game_state@.legal(
                        old(self)@,
                        square_of(selected as int),
                        square_of(square_idx as int),
                    ) ==> *final(data) == *old(data)
                },
                None => {
                    &&& final(data).selected_square == if square_idx < 64 && holds_side(
                        old(self)@,
                        square_of(square_idx as int),
                        old(data).game_state.current_turn,
                    ) {
                        Some(square_idx)
                    } else {
                        None
                    }
                    &&& final(data).game_state == old(data).game_state
                    &&& final(self)@ == old(self)@
                },
            },
    {
        proof {
            self.lemma_wf_len();
        }
        if let Some(selected) = data.selected_square {
            if selected == square_idx {
                data.selected_square = None;
            } else {
                if self.make_move(selected, square_idx, data) {
                    data.selected_square = None;
                }
            }
        } else if let Some(piece) = self.get_piece_at(square_idx) {
            if piece.color == data.game_state.current_turn {
                data.selected_square = Some(square_idx);
            }
        }
    }
}

/// The piece that stands on the given file of a back rank at the start.
fn back_rank_piece(col: usize) -> (kind: PieceType)
    requires
        col < 8,
    ensures
        Some(Piece { piece_type: kind, color: PieceColor::Black }) == starting_piece(
            0,
            col as int,
        ),
        Some(Piece { piece_type: kind, color: PieceColor::White }) == starting_piece(
            7,
            col as int,
        ),
{
    match col {
        0 | 7 => PieceType::Rook,
        1 | 6 => PieceType::Knight,
        2 | 5 => PieceType::Bishop,
        3 => PieceType::Queen,
        _ => PieceType::King,
    }
}

} // verus!
